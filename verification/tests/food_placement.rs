use snake_game::game::food::Food;
use snake_game::game::grid::{Grid, GridCoordinate};

#[test]
fn sentinel_before_first_placement() {
    let f = Food::new();
    assert!(f.pos.is_none());
    assert_eq!(f.position(), GridCoordinate { x: -1, y: -1 });
}

#[test]
fn place_returns_the_only_free_cell() {
    // two-cell grid with one cell occupied: placement must find the other
    let g = Grid::new(30, 60, 30);
    let occupied = vec![GridCoordinate { x: 0, y: 0 }];
    for _ in 0..100 {
        let mut f = Food::new();
        f.place(&occupied, &g);
        assert_eq!(f.pos, Some(GridCoordinate { x: 30, y: 0 }));
        assert_eq!(f.position(), GridCoordinate { x: 30, y: 0 });
    }
}

#[test]
fn place_never_lands_on_occupied_cells() {
    let g = Grid::new(30, 720, 480);
    let occupied = vec![
        GridCoordinate { x: 0, y: 0 },
        GridCoordinate { x: 30, y: 0 },
        GridCoordinate { x: 360, y: 240 },
        GridCoordinate { x: 690, y: 450 },
    ];
    for _ in 0..200 {
        let mut f = Food::new();
        f.place(&occupied, &g);
        let c = f.position();
        assert!(!occupied.contains(&c));
        assert!(c.x >= 0 && c.x < 720 && c.y >= 0 && c.y < 480);
        assert_eq!(c.x % 30, 0);
        assert_eq!(c.y % 30, 0);
    }
}

#[test]
fn place_withdraws_food_on_a_full_grid() {
    let g = Grid::new(30, 60, 30);
    let occupied = vec![GridCoordinate { x: 0, y: 0 }, GridCoordinate { x: 30, y: 0 }];
    let mut f = Food::new();
    f.place(&occupied, &g);
    assert!(f.pos.is_none());
}
