//! The game orchestrator and the session configuration constants.

use vstd::prelude::*;

pub mod food;
pub mod grid;
pub mod snake;
pub mod tick;

use crate::game::food::{Food, has_free_cell};
use crate::game::grid::{Direction, Grid};
use crate::game::snake::Snake;
use crate::game::tick::TickCounter;

verus! {

/// Width of the game window in pixels.
pub const SCREEN_WIDTH: i32 = 720;

/// Height of the game window in pixels.
pub const SCREEN_HEIGHT: i32 = 480;

/// Pixel size of a grid square.
pub const GRID_SCALE: i32 = 30;

/// Number of simulation ticks per second.
pub const TICKS_PER_SECOND: u128 = 10;

/// Points awarded for each piece of food eaten.
pub const FOOD_SCORE: u64 = 10;

/// Represents the state of the current game session.
#[derive(Clone, Copy, PartialEq, Eq, Structural, Debug)]
pub enum GameState {
    RUNNING,
    ENDED,
}

/// Tracks all game objects: the tick scheduler, the snake (which owns the
/// grid geometry and the score) and the food.
pub struct Game {
    pub state: GameState,
    pub tick_counter: TickCounter,
    pub snake: Snake,
    pub food: Food,
}

impl Game {
    /// Session invariant: all parts well-formed, the food clear of the
    /// snake, and the session state mirroring whether the snake lives.
    pub open spec fn wf(self) -> bool {
        &&& self.snake.wf()
        &&& self.tick_counter.wf()
        &&& self.food.separate_from(self.snake.positions@, self.snake.grid)
        &&& (self.state == GameState::RUNNING <==> self.snake.active)
    }

    /// Starts a session: the standard screen grid, a single-segment snake
    /// at the grid's center, the first food on a free cell, score zero.
    pub fn init() -> (g: Game)
        ensures
            g.wf(),
            g.state == GameState::RUNNING,
            g.snake.grid.spacing == GRID_SCALE,
            g.snake.grid.width == SCREEN_WIDTH,
            g.snake.grid.height == SCREEN_HEIGHT,
            g.snake.active,
            g.snake.positions@.len() == 1,
            g.snake.positions@[0] == g.snake.grid.cell_spec(
                g.snake.grid.cols as int / 2,
                g.snake.grid.rows as int / 2,
            ),
            g.snake.next_direction == Direction::RIGHT,
            g.snake.score == 0,
            g.food.pos is Some,
            g.tick_counter.nanos_per_tick == tick::NANOS_PER_SECOND / TICKS_PER_SECOND,
            g.tick_counter.tick == 0,
    {
        let grid = Grid::new(GRID_SCALE, SCREEN_WIDTH, SCREEN_HEIGHT);
        let snake = Snake::new(grid);
        let mut g = Game {
            state: GameState::RUNNING,
            tick_counter: TickCounter::start(TICKS_PER_SECOND),
            snake,
            food: Food::new(),
        };
        proof {
            // a free cell exists: of the two leftmost cells of the top row,
            // at most one can hold the single snake segment
            let c0 = grid.cell_spec(0, 0);
            let c1 = grid.cell_spec(1, 0);
            assert(grid.on_grid(c0) && grid.on_grid(c1)) by {
                crate::game::grid::lemma_cell_to_coord(
                    grid.spacing as int,
                    grid.width as int,
                    0,
                );
                crate::game::grid::lemma_cell_to_coord(
                    grid.spacing as int,
                    grid.width as int,
                    1,
                );
                crate::game::grid::lemma_cell_to_coord(
                    grid.spacing as int,
                    grid.height as int,
                    0,
                );
            };
            if g.snake.positions@.contains(c0) {
                assert(g.snake.positions@[0] == c0);
                assert(!g.snake.positions@.contains(c1));
            }
            assert(has_free_cell(g.snake.positions@, g.snake.grid));
        }
        g.move_food();
        g
    }

    /// Relocates the food to a random cell off the snake's body.
    fn move_food(&mut self)
        requires
            old(self).wf(),
        ensures
            final(self).wf(),
            final(self).snake == old(self).snake,
            final(self).state == old(self).state,
            final(self).tick_counter == old(self).tick_counter,
            has_free_cell(old(self).snake.positions@, old(self).snake.grid)
                ==> final(self).food.pos is Some,
    {
        self.food.place(&self.snake.positions, &self.snake.grid);
    }

    /// One frame: buffers the directional input on the snake; when the
    /// scheduler reports that a tick boundary has passed, advances the
    /// simulation by exactly one step, and a self-collision ends the
    /// session. Whether the tick fires depends on the wall clock, so the
    /// contract promises the exact input buffering and, for the step that
    /// may follow, the full one-tick transition.
    pub fn update(&mut self, input: Option<Direction>)
        requires
            old(self).wf(),
        ensures
            final(self).wf(),
            final(self).snake.grid == old(self).snake.grid,
            final(self).snake.score >= old(self).snake.score,
            ({
                let buffered = (Snake {
                    next_direction: old(self).snake.buffered_direction(input),
                    ..old(self).snake
                });
                ||| (final(self).snake == buffered && final(self).food == old(self).food
                    && final(self).state == old(self).state)
                ||| (buffered.active && Snake::tick_post(
                    buffered,
                    old(self).food,
                    final(self).snake,
                    final(self).food,
                ) && final(self).state == (if final(self).snake.active {
                    GameState::RUNNING
                } else {
                    GameState::ENDED
                }))
            }),
    {
        self.snake.handle_input(input);
        if self.tick_counter.is_next_tick() {
            let alive = self.snake.update(&mut self.food);
            if !alive {
                self.state = GameState::ENDED;
            }
        }
    }

    /// Read-only accessor for the accumulated score.
    pub fn score(&self) -> (r: u64)
        ensures
            r == self.snake.score,
    {
        self.snake.score()
    }
}

} // verus!
