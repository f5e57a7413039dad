//! The snake: an ordered sequence of grid cells (head first) with a
//! parallel per-segment direction history, input buffering with a reversal
//! guard, synchronous motion with wraparound, growth on eating and
//! self-collision detection.

use vstd::prelude::*;
use crate::game::FOOD_SCORE;
use crate::game::food::{Food, has_free_cell};
use crate::game::grid::{Direction, Grid, GridCoordinate};

verus! {

use crate::game::grid::{
    lemma_occupancy_bound,
    lemma_step_back,
    lemma_step_spec_on_grid,
};

/// The head coincides with one of the non-head segments.
pub open spec fn self_collision(positions: Seq<GridCoordinate>) -> bool {
    exists|i: int| 1 <= i < positions.len() && #[trigger] positions[i] == positions[0]
}

/// Represents the position and movement direction of the on-screen snake.
///
/// `positions` holds one grid cell per segment, head first. `directions`
/// is parallel to it and records, per segment, the direction that segment
/// moved on the last tick; this is what lets the tail follow a turning
/// head one step behind, wraparound included. `next_direction` buffers the
/// pending input until the next tick.
pub struct Snake {
    pub grid: Grid,
    pub positions: Vec<GridCoordinate>,
    pub directions: Vec<Direction>,
    pub next_direction: Direction,
    pub active: bool,
    pub score: u64,
}

impl Snake {
    /// Number of body segments.
    pub open spec fn len(self) -> int {
        self.positions@.len() as int
    }

    /// The largest score a session on this grid can accumulate fits the
    /// score counter: one food reward per cell beyond the first segment.
    pub open spec fn score_capacity(g: Grid) -> bool {
        FOOD_SCORE as int * ((g.cols as int) * (g.rows as int)) <= u64::MAX as int
    }

    /// Well-formedness: the two sequences stay parallel and non-empty, every
    /// segment is on the grid, each segment sits exactly one step (by its
    /// predecessor's recorded direction) behind that predecessor, a living
    /// snake never overlaps itself, and the score is bounded by the growth
    /// so far.
    pub open spec fn wf(self) -> bool {
        &&& self.grid.wf()
        &&& Self::score_capacity(self.grid)
        &&& self.positions@.len() == self.directions@.len()
        &&& self.positions@.len() >= 1
        &&& forall|i: int| 0 <= i < self.len() ==> self.grid.on_grid(#[trigger] self.positions@[i])
        &&& forall|i: int|
            1 <= i < self.len() ==> self.positions@[i - 1] == self.grid.step_spec(
                #[trigger] self.positions@[i],
                self.directions@[i - 1],
            )
        &&& (self.active ==> self.positions@.no_duplicates())
        &&& self.score as int <= FOOD_SCORE as int * (self.len() - 1)
    }

    /// Directions after the per-tick shift: the buffered direction enters
    /// at the head and the oldest entry drops out.
    pub open spec fn shifted_directions(self) -> Seq<Direction> {
        seq![self.next_direction] + self.directions@.take(self.len() - 1)
    }

    /// Positions after every segment advances one cell by its newly
    /// shifted direction, with wraparound.
    pub open spec fn moved_positions(self) -> Seq<GridCoordinate> {
        Seq::new(
            self.positions@.len(),
            |i: int| self.grid.step_spec(self.positions@[i], self.shifted_directions()[i]),
        )
    }

    /// Whether the head lands on the food this tick.
    pub open spec fn eats(self, food: Food) -> bool {
        food.pos matches Some(c) && self.moved_positions()[0] == c
    }

    /// Where a new tail segment appears: one cell behind the tail, against
    /// the tail's own last direction of travel.
    pub open spec fn grow_position(self) -> GridCoordinate {
        self.grid.step_spec(self.positions@.last(), self.directions@.last().opposite())
    }

    /// Direction that a buffered input leaves behind: the request is
    /// ignored when it would turn a longer snake straight back into its
    /// neck; a single-segment snake accepts any direction.
    pub open spec fn buffered_direction(self, input: Option<Direction>) -> Direction {
        match input {
            Some(d) => if self.positions@.len() == 1 || d != self.directions@[0].opposite() {
                d
            } else {
                self.next_direction
            },
            None => self.next_direction,
        }
    }

    /// A single-segment snake at the center of the grid, headed right.
    ///
    /// The capacity bound is a machine limit: it keeps every score this
    /// grid can ever award inside the score counter.
    pub fn new(grid: Grid) -> (s: Snake)
        requires
            grid.wf(),
            Self::score_capacity(grid),
        ensures
            s.wf(),
            s.grid == grid,
            s.active,
            s.score == 0,
            s.next_direction == Direction::RIGHT,
            s.directions@ == seq![Direction::RIGHT],
            s.positions@ == seq![grid.cell_spec(grid.cols as int / 2, grid.rows as int / 2)],
    {
        proof {
            vstd::arithmetic::div_mod::lemma_div_non_zero(grid.width as int, grid.spacing as int);
            vstd::arithmetic::div_mod::lemma_div_non_zero(grid.height as int, grid.spacing as int);
            vstd::arithmetic::div_mod::lemma_div_pos_is_pos(grid.cols as int, 2);
            vstd::arithmetic::div_mod::lemma_div_pos_is_pos(grid.rows as int, 2);
            vstd::arithmetic::div_mod::lemma_div_is_strictly_smaller(grid.cols as int, 2);
            vstd::arithmetic::div_mod::lemma_div_is_strictly_smaller(grid.rows as int, 2);
        }
        let center = grid.cell_at(grid.cols / 2, grid.rows / 2);
        let mut positions: Vec<GridCoordinate> = Vec::new();
        positions.push(center);
        let mut directions: Vec<Direction> = Vec::new();
        directions.push(Direction::RIGHT);
        let s = Snake {
            grid,
            positions,
            directions,
            next_direction: Direction::RIGHT,
            active: true,
            score: 0,
        };
        proof {
            assert(s.positions@ =~= seq![
                grid.cell_spec(grid.cols as int / 2, grid.rows as int / 2),
            ]);
            assert(s.directions@ =~= seq![Direction::RIGHT]);
        }
        s
    }

    /// The head segment's position.
    pub fn head(&self) -> (c: GridCoordinate)
        requires
            self.positions@.len() >= 1,
        ensures
            c == self.positions@[0],
    {
        self.positions[0]
    }

    /// All occupied cells, head first.
    pub fn body(&self) -> (r: &Vec<GridCoordinate>)
        ensures
            r@ == self.positions@,
    {
        &self.positions
    }

    /// The non-head segments' positions, in body order.
    pub fn tail_iter(&self) -> (r: Vec<GridCoordinate>)
        requires
            self.positions@.len() >= 1,
        ensures
            r@ == self.positions@.skip(1),
    {
        let mut r: Vec<GridCoordinate> = Vec::new();
        let mut i: usize = 1;
        while i < self.positions.len()
            invariant
                1 <= i <= self.positions@.len(),
                r@.len() == i - 1,
                forall|j: int| 0 <= j < i - 1 ==> r@[j] == self.positions@[j + 1],
            decreases self.positions@.len() - i,
        {
            let c = self.positions[i];
            r.push(c);
            i = i + 1;
        }
        proof {
            assert(r@ =~= self.positions@.skip(1));
        }
        r
    }

    /// Accumulated score, ten points per food eaten.
    pub fn score(&self) -> (r: u64)
        ensures
            r == self.score,
    {
        self.score
    }

    /// Buffers a directional input for the next tick. A request that is the
    /// exact opposite of the head's last direction of travel is ignored
    /// unless the snake is a single segment; later calls within the same
    /// tick overwrite earlier ones.
    pub fn handle_input(&mut self, input: Option<Direction>)
        requires
            old(self).wf(),
        ensures
            final(self).wf(),
            *final(self) == (Snake {
                next_direction: old(self).buffered_direction(input),
                ..*old(self)
            }),
    {
        let d = match input {
            Some(d) => d,
            None => {
                return ;
            },
        };
        let one_block = self.positions.len() == 1;
        if one_block || !(d == self.directions[0].opp()) {
            self.next_direction = d;
        }
    }

    /// Appends one tail segment one cell behind the current tail, following
    /// the tail's direction. A living snake must have that cell free; during
    /// a tick this holds because the tail has just vacated it.
    pub fn add_tail_block(&mut self)
        requires
            old(self).wf(),
            old(self).active ==> !old(self).positions@.contains(old(self).grow_position()),
        ensures
            final(self).wf(),
            final(self).positions@ == old(self).positions@.push(old(self).grow_position()),
            final(self).directions@ == old(self).directions@.push(old(self).directions@.last()),
            final(self).grid == old(self).grid,
            final(self).next_direction == old(self).next_direction,
            final(self).active == old(self).active,
            final(self).score == old(self).score,
    {
        let n = self.positions.len();
        let last_pos = self.positions[n - 1];
        let last_dir = self.directions[n - 1];
        let back = self.grid.step(last_pos, last_dir.opp());
        proof {
            lemma_step_back(self.grid, last_pos, last_dir.opposite());
            assert(last_dir.opposite().opposite() == last_dir);
        }
        self.positions.push(back);
        self.directions.push(last_dir);
        proof {
            let s = *self;
            let pre = *old(self);
            assert(s.positions@ == pre.positions@.push(pre.grow_position()));
            assert forall|i: int| 1 <= i < s.len() implies s.positions@[i - 1]
                == s.grid.step_spec(#[trigger] s.positions@[i], s.directions@[i - 1]) by {
                if i < s.len() - 1 {
                    assert(s.positions@[i] == pre.positions@[i]);
                } else {
                    assert(s.positions@[i] == back);
                    assert(s.directions@[i - 1] == pre.directions@[pre.len() - 1]);
                }
            };
            if s.active {
                assert forall|i: int, j: int|
                    0 <= i < s.positions@.len() && 0 <= j < s.positions@.len() && i != j
                    implies s.positions@[i] != s.positions@[j] by {
                    if i == s.len() - 1 {
                        assert(pre.positions@.contains(pre.positions@[j]));
                    } else if j == s.len() - 1 {
                        assert(pre.positions@.contains(pre.positions@[i]));
                    }
                };
            }
        }
    }

    /// Full effect of one simulation tick on a living snake and the food.
    pub open spec fn tick_post(pre: Snake, pre_food: Food, post: Snake, post_food: Food) -> bool {
        let moved = pre.moved_positions();
        let sdirs = pre.shifted_directions();
        let ate = pre.eats(pre_food);
        let grown = moved.push(pre.grid.step_spec(moved.last(), sdirs.last().opposite()));
        &&& post.grid == pre.grid
        &&& post.next_direction == pre.next_direction
        &&& post.positions@ == (if ate {
            grown
        } else {
            moved
        })
        &&& post.directions@ == (if ate {
            sdirs.push(sdirs.last())
        } else {
            sdirs
        })
        &&& post.score as int == pre.score as int + (if ate {
            FOOD_SCORE as int
        } else {
            0
        })
        &&& post.active == !self_collision(post.positions@)
        &&& (ate ==> post_food.separate_from(post.positions@, pre.grid) && (has_free_cell(
            post.positions@,
            pre.grid,
        ) ==> post_food.pos is Some))
        &&& (!ate ==> post_food == pre_food)
    }

    /// One simulation tick. An inactive snake ignores the call and reports
    /// the session over. Otherwise the direction history shifts (buffered
    /// direction in at the head, oldest entry out), every segment advances
    /// one cell by its shifted direction with wraparound, eating grows the
    /// body by one tail segment, raises the score by the food reward and
    /// relocates the food to a free cell, and a head that lands on its own
    /// body ends the session on this very tick.
    pub fn update(&mut self, food: &mut Food) -> (r: bool)
        requires
            old(self).wf(),
            old(food).separate_from(old(self).positions@, old(self).grid),
        ensures
            final(self).wf(),
            final(self).positions@.len() == final(self).directions@.len(),
            r == final(self).active,
            final(food).separate_from(final(self).positions@, final(self).grid),
            !old(self).active ==> *final(self) == *old(self) && *final(food) == *old(food) && r
                == false,
            old(self).active ==> Self::tick_post(*old(self), *old(food), *final(self), *final(food)),
            old(self).active && old(self).eats(*old(food)) ==> final(self).positions@.len() == old(
                self,
            ).positions@.len() + 1 && final(self).score as int == old(self).score as int
                + FOOD_SCORE as int && (forall|i: int|
                0 <= i < old(self).moved_positions().len() ==> final(self).positions@.last()
                    != #[trigger] old(self).moved_positions()[i]),
            old(self).active && !old(self).eats(*old(food)) ==> final(self).positions@.len() == old(
                self,
            ).positions@.len() && final(self).score == old(self).score,
    {
        if !self.active {
            return false;
        }
        let ghost pre = *self;
        let ghost pre_food = *food;
        let n = self.positions.len();

        // shift the direction history
        self.directions.insert(0, self.next_direction);
        let _ = self.directions.pop();
        proof {
            assert(self.directions@ =~= pre.shifted_directions());
        }

        // advance every segment by its newly shifted direction
        let mut moved: Vec<GridCoordinate> = Vec::new();
        let mut i: usize = 0;
        while i < n
            invariant
                pre.wf(),
                n == pre.positions@.len(),
                self.grid == pre.grid,
                self.positions@ == pre.positions@,
                self.directions@ == pre.shifted_directions(),
                i <= n,
                moved@.len() == i as int,
                forall|j: int| 0 <= j < i ==> moved@[j] == pre.moved_positions()[j],
            decreases n - i,
        {
            let c = self.positions[i];
            let d = self.directions[i];
            let m = self.grid.step(c, d);
            moved.push(m);
            i = i + 1;
        }
        self.positions = moved;
        proof {
            assert(self.positions@ =~= pre.moved_positions());
            lemma_moved_follow(pre);
            lemma_moved_on_grid(pre);
            lemma_moved_chain(pre);
        }

        // eating: grow, score, and relocate the food
        let ate = match food.pos {
            Some(c) => {
                let h = self.positions[0];
                h == c
            },
            None => false,
        };
        proof {
            assert(ate == pre.eats(pre_food));
        }
        if ate {
            proof {
                lemma_eat_grow(pre, pre_food);
                lemma_moved_distinct(pre);
                assert(!self.positions@.contains(self.grow_position()));
            }
            self.add_tail_block();
            proof {
                lemma_occupancy_bound(self.grid, self.positions@);
                assert(self.score as int + FOOD_SCORE as int <= u64::MAX as int);
            }
            self.score = self.score + FOOD_SCORE;
            food.place(&self.positions, &self.grid);
        } else {
            proof {
                lemma_food_still_separate(pre, pre_food);
            }
        }

        // a head on a body cell ends the session
        let collided = detect_collision(&self.positions);
        if collided {
            self.active = false;
        }
        proof {
            if !collided && !ate {
                lemma_moved_distinct(pre);
            }
        }
        !collided
    }
}

/// Scans the body for a non-head segment that coincides with the head.
fn detect_collision(positions: &Vec<GridCoordinate>) -> (r: bool)
    requires
        positions@.len() >= 1,
    ensures
        r == self_collision(positions@),
{
    let head = positions[0];
    let mut j: usize = 1;
    while j < positions.len()
        invariant
            1 <= j <= positions@.len(),
            head == positions@[0],
            forall|k: int| 1 <= k < j ==> #[trigger] positions@[k] != positions@[0],
        decreases positions@.len() - j,
    {
        if positions[j] == head {
            proof {
                assert(positions@[j as int] == positions@[0]);
            }
            return true;
        }
        j = j + 1;
    }
    false
}

/// After the shift, every non-head segment moves exactly onto its
/// predecessor's old cell.
proof fn lemma_moved_follow(s: Snake)
    requires
        s.wf(),
    ensures
        s.moved_positions().len() == s.positions@.len(),
        forall|i: int|
            1 <= i < s.len() ==> #[trigger] s.moved_positions()[i] == s.positions@[i - 1],
{
    assert forall|i: int|
        1 <= i < s.len() implies #[trigger] s.moved_positions()[i] == s.positions@[i - 1] by {
        assert(s.shifted_directions()[i] == s.directions@[i - 1]);
        assert(s.moved_positions()[i] == s.grid.step_spec(s.positions@[i], s.directions@[i - 1]));
    };
}

/// Every moved segment stays on the grid.
proof fn lemma_moved_on_grid(s: Snake)
    requires
        s.wf(),
    ensures
        forall|i: int| 0 <= i < s.len() ==> s.grid.on_grid(#[trigger] s.moved_positions()[i]),
{
    assert forall|i: int|
        0 <= i < s.len() implies s.grid.on_grid(#[trigger] s.moved_positions()[i]) by {
        lemma_step_spec_on_grid(s.grid, s.positions@[i], s.shifted_directions()[i]);
    };
}

/// The moved body keeps the follow-the-leader chain with the shifted
/// directions.
proof fn lemma_moved_chain(s: Snake)
    requires
        s.wf(),
    ensures
        forall|i: int|
            1 <= i < s.len() ==> s.moved_positions()[i - 1] == s.grid.step_spec(
                #[trigger] s.moved_positions()[i],
                s.shifted_directions()[i - 1],
            ),
{
    lemma_moved_follow(s);
    assert forall|i: int|
        1 <= i < s.len() implies s.moved_positions()[i - 1] == s.grid.step_spec(
        #[trigger] s.moved_positions()[i],
        s.shifted_directions()[i - 1],
    ) by {
        assert(s.moved_positions()[i] == s.positions@[i - 1]);
        assert(s.moved_positions()[i - 1] == s.grid.step_spec(
            s.positions@[i - 1],
            s.shifted_directions()[i - 1],
        ));
    };
}

/// Without a self-collision the moved body has no duplicate cells.
proof fn lemma_moved_distinct(s: Snake)
    requires
        s.wf(),
        s.active,
        !self_collision(s.moved_positions()),
    ensures
        s.moved_positions().no_duplicates(),
{
    lemma_moved_follow(s);
    let moved = s.moved_positions();
    assert forall|i: int, j: int|
        0 <= i < moved.len() && 0 <= j < moved.len() && i != j implies moved[i] != moved[j] by {
        if i >= 1 && j >= 1 {
            assert(moved[i] == s.positions@[i - 1]);
            assert(moved[j] == s.positions@[j - 1]);
        }
    };
}

/// On an eating tick the cell just vacated by the tail is free: the new
/// tail segment overlaps no moved segment, and the head — being on the
/// food, which never lies on the body — collides with nothing.
proof fn lemma_eat_grow(s: Snake, food: Food)
    requires
        s.wf(),
        s.active,
        food.separate_from(s.positions@, s.grid),
        s.eats(food),
    ensures
        s.grid.step_spec(s.moved_positions().last(), s.shifted_directions().last().opposite())
            == s.positions@.last(),
        forall|i: int|
            0 <= i < s.len() ==> #[trigger] s.moved_positions()[i] != s.positions@.last(),
        !self_collision(s.moved_positions()),
        s.moved_positions().push(s.positions@.last()).no_duplicates(),
        !self_collision(s.moved_positions().push(s.positions@.last())),
{
    lemma_moved_follow(s);
    let n = s.len();
    let moved = s.moved_positions();
    let cc = choose|cc: GridCoordinate| food.pos == Some(cc);
    assert(food.pos == Some(cc));
    assert(moved[0] == cc);
    assert(!s.positions@.contains(cc));
    assert forall|i: int| 1 <= i < n implies #[trigger] moved[i] != moved[0] by {
        assert(moved[i] == s.positions@[i - 1]);
        assert(s.positions@.contains(s.positions@[i - 1]));
    };
    assert forall|i: int| 0 <= i < n implies #[trigger] moved[i] != s.positions@.last() by {
        if i == 0 {
            assert(s.positions@.contains(s.positions@[n - 1]));
        } else {
            assert(moved[i] == s.positions@[i - 1]);
        }
    };
    lemma_step_back(s.grid, s.positions@[n - 1], s.shifted_directions()[n - 1]);
    lemma_moved_distinct(s);
    let grown = moved.push(s.positions@.last());
    assert forall|i: int, j: int|
        0 <= i < grown.len() && 0 <= j < grown.len() && i != j implies grown[i] != grown[j] by {
        if i < n && j < n {
            assert(moved[i] != moved[j]);
        }
    };
}

/// When the head does not land on the food, the food stays clear of the
/// moved body: every non-head segment moves onto a previously occupied
/// cell, and those were all clear of the food.
proof fn lemma_food_still_separate(s: Snake, food: Food)
    requires
        s.wf(),
        s.active,
        food.separate_from(s.positions@, s.grid),
        !s.eats(food),
    ensures
        food.separate_from(s.moved_positions(), s.grid),
{
    lemma_moved_follow(s);
    let moved = s.moved_positions();
    match food.pos {
        Some(cc) => {
            assert(moved[0] != cc);
            assert forall|i: int| 0 <= i < moved.len() implies #[trigger] moved[i] != cc by {
                if i >= 1 {
                    assert(moved[i] == s.positions@[i - 1]);
                    assert(s.positions@.contains(s.positions@[i - 1]));
                }
            };
            assert(!moved.contains(cc));
        },
        None => {},
    }
}

/// Reversal guard law: with more than one segment, an input that is the
/// exact opposite of the head's last direction of travel is ignored — on
/// the next tick the head still travels its old direction; with a single
/// segment the same input does change the direction of travel.
pub proof fn lemma_reversal_guard(s: Snake, req: Direction)
    requires
        s.wf(),
        s.next_direction == s.directions@[0],
        req == s.directions@[0].opposite(),
    ensures
        s.positions@.len() > 1 ==> (Snake {
            next_direction: s.buffered_direction(Some(req)),
            ..s
        }).shifted_directions()[0] == s.directions@[0],
        s.positions@.len() == 1 ==> (Snake {
            next_direction: s.buffered_direction(Some(req)),
            ..s
        }).shifted_directions()[0] == req,
{
    let after = Snake { next_direction: s.buffered_direction(Some(req)), ..s };
    assert(after.shifted_directions()[0] == after.next_direction);
}

} // verus!
