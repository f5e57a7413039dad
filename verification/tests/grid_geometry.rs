use snake_game::game::grid::{Direction, Grid, GridCoordinate};

#[test]
fn grid_dimensions_from_screen() {
    let g = Grid::new(30, 720, 480);
    assert_eq!(g.spacing, 30);
    assert_eq!(g.cols, 24);
    assert_eq!(g.rows, 16);
}

#[test]
fn cell_at_corners() {
    let g = Grid::new(30, 720, 480);
    assert_eq!(g.cell_at(0, 0), GridCoordinate { x: 0, y: 0 });
    assert_eq!(g.cell_at(23, 15), GridCoordinate { x: 690, y: 450 });
}

#[test]
fn direction_unit_vectors() {
    assert_eq!(Direction::UP.v(), (0, -1));
    assert_eq!(Direction::DOWN.v(), (0, 1));
    assert_eq!(Direction::LEFT.v(), (-1, 0));
    assert_eq!(Direction::RIGHT.v(), (1, 0));
    assert_eq!(Direction::UP.opp(), Direction::DOWN);
    assert_eq!(Direction::LEFT.opp(), Direction::RIGHT);
}

#[test]
fn step_moves_one_cell() {
    let g = Grid::new(30, 720, 480);
    let c = GridCoordinate { x: 360, y: 240 };
    assert_eq!(g.step(c, Direction::RIGHT), GridCoordinate { x: 390, y: 240 });
    assert_eq!(g.step(c, Direction::LEFT), GridCoordinate { x: 330, y: 240 });
    assert_eq!(g.step(c, Direction::UP), GridCoordinate { x: 360, y: 210 });
    assert_eq!(g.step(c, Direction::DOWN), GridCoordinate { x: 360, y: 270 });
}

#[test]
fn step_wraps_at_all_four_edges() {
    let g = Grid::new(30, 720, 480);
    let right_edge = GridCoordinate { x: 690, y: 240 };
    assert_eq!(g.step(right_edge, Direction::RIGHT), GridCoordinate { x: 0, y: 240 });
    let left_edge = GridCoordinate { x: 0, y: 240 };
    assert_eq!(g.step(left_edge, Direction::LEFT), GridCoordinate { x: 690, y: 240 });
    let bottom_edge = GridCoordinate { x: 360, y: 450 };
    assert_eq!(g.step(bottom_edge, Direction::DOWN), GridCoordinate { x: 360, y: 0 });
    let top_edge = GridCoordinate { x: 360, y: 0 };
    assert_eq!(g.step(top_edge, Direction::UP), GridCoordinate { x: 360, y: 450 });
}
