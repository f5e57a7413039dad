use snake_game::game::grid::{Direction, GridCoordinate};
use snake_game::game::{Game, GameState};

#[test]
fn init_starts_a_running_centered_session() {
    let g = Game::init();
    assert!(matches!(g.state, GameState::RUNNING));
    assert_eq!(g.score(), 0);
    assert_eq!(g.snake.positions.len(), 1);
    assert_eq!(g.snake.head(), GridCoordinate { x: 360, y: 240 });
    let food = g.food.pos.expect("the first food must be placed");
    assert!(food != g.snake.head());
    assert!(food.x >= 0 && food.x < 720 && food.y >= 0 && food.y < 480);
    assert_eq!(food.x % 30, 0);
    assert_eq!(food.y % 30, 0);
}

#[test]
fn update_buffers_the_pressed_direction() {
    let mut g = Game::init();
    g.update(Some(Direction::UP));
    assert_eq!(g.snake.next_direction, Direction::UP);
    // so soon after starting, no tick boundary has passed yet
    assert_eq!(g.snake.head(), GridCoordinate { x: 360, y: 240 });
    assert!(matches!(g.state, GameState::RUNNING));
}

#[test]
fn update_without_input_keeps_the_heading() {
    let mut g = Game::init();
    g.update(None);
    assert_eq!(g.snake.next_direction, Direction::RIGHT);
}

#[test]
fn score_delegates_to_the_snake() {
    let mut g = Game::init();
    g.snake.score = 40;
    assert_eq!(g.score(), 40);
}
