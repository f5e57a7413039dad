use snake_game::game::food::Food;
use snake_game::game::grid::{Direction, Grid, GridCoordinate};
use snake_game::game::snake::Snake;

fn standard_grid() -> Grid {
    Grid::new(30, 720, 480)
}

#[test]
fn new_snake_sits_at_center_headed_right() {
    let s = Snake::new(standard_grid());
    assert_eq!(s.positions, vec![GridCoordinate { x: 360, y: 240 }]);
    assert_eq!(s.directions, vec![Direction::RIGHT]);
    assert_eq!(s.next_direction, Direction::RIGHT);
    assert!(s.active);
    assert_eq!(s.score, 0);
    assert_eq!(s.head(), GridCoordinate { x: 360, y: 240 });
    assert!(s.tail_iter().is_empty());
}

#[test]
fn update_advances_the_head_one_cell() {
    let mut s = Snake::new(standard_grid());
    let mut f = Food::new();
    assert!(s.update(&mut f));
    assert_eq!(s.head(), GridCoordinate { x: 390, y: 240 });
    assert_eq!(s.positions.len(), 1);
    assert_eq!(s.score, 0);
}

#[test]
fn reversal_is_ignored_with_a_tail() {
    let mut s = Snake::new(standard_grid());
    s.add_tail_block();
    assert_eq!(s.positions.len(), 2);
    s.handle_input(Some(Direction::LEFT));
    assert_eq!(s.next_direction, Direction::RIGHT);
    let mut f = Food::new();
    assert!(s.update(&mut f));
    assert_eq!(s.head(), GridCoordinate { x: 390, y: 240 });
}

#[test]
fn reversal_turns_a_single_segment() {
    let mut s = Snake::new(standard_grid());
    s.handle_input(Some(Direction::LEFT));
    assert_eq!(s.next_direction, Direction::LEFT);
    let mut f = Food::new();
    assert!(s.update(&mut f));
    assert_eq!(s.head(), GridCoordinate { x: 330, y: 240 });
}

#[test]
fn last_input_of_a_tick_wins() {
    let mut s = Snake::new(standard_grid());
    s.add_tail_block();
    s.handle_input(Some(Direction::UP));
    s.handle_input(Some(Direction::DOWN));
    assert_eq!(s.next_direction, Direction::DOWN);
}

#[test]
fn head_wraps_around_the_screen() {
    let grid = standard_grid();
    let mut s = Snake {
        grid,
        positions: vec![GridCoordinate { x: 690, y: 240 }],
        directions: vec![Direction::RIGHT],
        next_direction: Direction::RIGHT,
        active: true,
        score: 0,
    };
    let mut f = Food::new();
    assert!(s.update(&mut f));
    assert_eq!(s.head(), GridCoordinate { x: 0, y: 240 });
}

#[test]
fn eating_grows_and_scores_and_relocates_food() {
    let mut s = Snake::new(standard_grid());
    let mut f = Food {
        pos: Some(GridCoordinate { x: 390, y: 240 }),
    };
    assert!(s.update(&mut f));
    assert_eq!(s.positions.len(), 2);
    assert_eq!(s.directions.len(), 2);
    assert_eq!(s.score, 10);
    assert_eq!(s.head(), GridCoordinate { x: 390, y: 240 });
    // the new tail is the freshly vacated cell, distinct from the head
    assert_eq!(s.positions[1], GridCoordinate { x: 360, y: 240 });
    assert!(s.positions[1] != s.positions[0]);
    // the food moved somewhere off the body
    let c = f.pos.expect("food must be placed on a far-from-full grid");
    assert!(!s.positions.contains(&c));
}

#[test]
fn three_meals_reach_length_four_and_score_thirty() {
    let mut s = Snake::new(standard_grid());
    for _ in 0..3 {
        let ahead = s.grid.step(s.head(), Direction::RIGHT);
        let mut f = Food { pos: Some(ahead) };
        assert!(s.update(&mut f));
        // the two parallel sequences stay in lockstep
        assert_eq!(s.positions.len(), s.directions.len());
    }
    assert_eq!(s.positions.len(), 4);
    assert_eq!(s.score, 30);
    assert!(s.active);
}

#[test]
fn running_into_the_body_ends_the_session() {
    let mut s = Snake::new(standard_grid());
    // grow to five segments in a straight line
    for _ in 0..4 {
        let ahead = s.grid.step(s.head(), Direction::RIGHT);
        let mut f = Food { pos: Some(ahead) };
        assert!(s.update(&mut f));
    }
    assert_eq!(s.positions.len(), 5);
    // a tight turn: down, left, then up into the body
    let mut f = Food {
        pos: Some(GridCoordinate { x: 0, y: 0 }),
    };
    s.handle_input(Some(Direction::DOWN));
    assert!(s.update(&mut f));
    s.handle_input(Some(Direction::LEFT));
    assert!(s.update(&mut f));
    s.handle_input(Some(Direction::UP));
    assert!(!s.update(&mut f));
    assert!(!s.active);
    // once inactive, every further update reports the session over
    assert!(!s.update(&mut f));
    assert!(!s.update(&mut f));
}

#[test]
fn single_cell_grid_wraps_onto_itself() {
    let g = Grid::new(30, 30, 30);
    let mut s = Snake::new(g);
    assert_eq!(s.head(), GridCoordinate { x: 0, y: 0 });
    let mut f = Food::new();
    assert!(s.update(&mut f));
    assert_eq!(s.head(), GridCoordinate { x: 0, y: 0 });
}
