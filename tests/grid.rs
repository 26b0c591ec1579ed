use rustland::geometry::Vec2;
use rustland::grid::{Grid, Tile};

const U: i32 = 1_000_000;

fn v(x: f64, y: f64) -> Vec2 {
    Vec2::new((x * U as f64).round() as i32, (y * U as f64).round() as i32)
}

fn open_grid() -> Grid {
    let mut g = Grid::new(10, 10, U, U);
    for i in 0..10 {
        for j in 0..10 {
            g.set_2d(i, j, Tile::Ground);
        }
    }
    g
}

#[test]
fn test_raycast() {
    {
        let mut g = open_grid();
        g.set_2d(0, 5, Tile::Wall);
        assert_eq!(g.raycast(v(0.5, 9.5), v(0.5, 0.5)), Some(v(0.5, 6.0)));
        assert_eq!(g.raycast(v(0.5, 0.5), v(0.5, 9.0)), Some(v(0.5, 5.0)));
    }
    {
        let mut g = open_grid();
        g.set_2d(5, 0, Tile::Wall);
        assert_eq!(g.raycast(v(9.5, 0.5), v(0.5, 0.5)), Some(v(6.0, 0.5)));
        assert_eq!(g.raycast(v(0.5, 0.5), v(9.0, 0.5)), Some(v(5.0, 0.5)));
    }
    {
        let mut g = Grid::new(10, 10, U, U);
        g.set_2d(0, 0, Tile::Ground);
        g.set_2d(1, 0, Tile::Ground);
        assert_eq!(g.raycast(v(0.5, 0.5), v(1.5, 0.6)), None);
        assert_eq!(g.raycast(v(0.5, 0.5), v(1.5, 0.5)), None);
        g.set_2d(1, 0, Tile::Wall);
        assert_eq!(g.raycast(v(0.5, 0.5), v(1.5, 0.5)), Some(v(1.0, 0.5)));
        assert_eq!(g.raycast(v(0.5, 0.5), v(5.5, 0.5)), Some(v(1.0, 0.5)));
    }
    {
        let mut g = Grid::new(10, 10, U, U);
        g.set_2d(0, 0, Tile::Ground);
        g.set_2d(0, 1, Tile::Ground);
        g.set_2d(1, 1, Tile::Ground);
        g.set_2d(2, 1, Tile::Ground);
        g.set_2d(3, 1, Tile::Ground);
        assert_eq!(g.raycast(v(0.5, 0.1), v(2.0, 1.6)), Some(v(1.0, 0.6)));
    }
    {
        let g = open_grid();
        assert_eq!(g.raycast(v(0.5, 0.5), v(3.5, 1.5)), None);
        assert_eq!(g.raycast(v(0.5, 0.5), v(2.0, 2.0)), None);
        assert_eq!(g.raycast(v(0.5, 0.5), v(3.0, 3.0)), None);
        assert_eq!(g.raycast(v(0.5, 0.5), v(5.0, 5.0)), None);
        assert_eq!(g.raycast(v(0.5, 0.5), v(8.5, 8.5)), None);
        assert_eq!(g.raycast(v(0.5, 0.5), v(8.5, 0.5)), None);
        assert_eq!(g.raycast(v(0.5, 0.5), v(0.5, 8.5)), None);
    }
}

#[test]
fn test_grid() {
    let g = Grid::new(10, 10, U, U);
    assert_eq!(g.get_xy_of_position(v(5.5, 6.5)), (5, 6));
}

#[test]
fn zero_length_ray_on_ground_is_clear() {
    let g = open_grid();
    assert_eq!(g.raycast(v(3.5, 4.5), v(3.5, 4.5)), None);
}

#[test]
fn zero_length_ray_on_wall_reports_its_point() {
    let mut g = open_grid();
    g.set_2d(3, 4, Tile::Wall);
    assert_eq!(g.raycast(v(3.5, 4.5), v(3.5, 4.5)), Some(v(3.5, 4.5)));
}

#[test]
fn zero_length_ray_outside_grid_is_obstructed() {
    let g = open_grid();
    assert_eq!(g.raycast(v(-0.5, 4.5), v(-0.5, 4.5)), Some(v(-0.5, 4.5)));
}

#[test]
fn clear_diagonal_path_is_clear() {
    let g = open_grid();
    assert_eq!(g.raycast(v(1.2, 8.7), v(7.9, 2.3)), None);
}

#[test]
fn wall_between_ground_cells_detected_horizontally() {
    let mut g = open_grid();
    g.set_2d(4, 2, Tile::Wall);
    assert!(g.raycast(v(1.5, 2.5), v(7.5, 2.2)).is_some());
    assert!(g.raycast(v(7.5, 2.2), v(1.5, 2.5)).is_some());
}

#[test]
fn wall_between_ground_cells_detected_vertically() {
    let mut g = open_grid();
    g.set_2d(6, 4, Tile::Wall);
    assert!(g.raycast(v(6.1, 0.5), v(6.9, 8.5)).is_some());
    assert!(g.raycast(v(6.9, 8.5), v(6.1, 0.5)).is_some());
}

#[test]
fn ray_through_corner_steps_diagonally() {
    let mut g = open_grid();
    g.set_2d(1, 0, Tile::Wall);
    g.set_2d(0, 1, Tile::Wall);
    assert_eq!(g.raycast(v(0.5, 0.5), v(1.5, 1.5)), None);
}

#[test]
fn get_2d_outside_is_absent() {
    let g = open_grid();
    assert_eq!(g.get_2d(-1, 0), None);
    assert_eq!(g.get_2d(10, 3), None);
    assert_eq!(g.get_2d(3, 3), Some(Tile::Ground));
}

#[test]
fn cell_rectangles() {
    let g = Grid::new(4, 3, 200_000, 300_000);
    let r = g.get_rect_2d(2, 1);
    assert_eq!((r.x, r.y, r.w, r.h), (400_000, 300_000, 200_000, 300_000));
    let r1 = g.get_rect_1d(6);
    assert_eq!((r1.x, r1.y), (400_000, 300_000));
    assert_eq!(g.get_position(Vec2::new(450_000, 350_000)), Some(Tile::Wall));
    assert_eq!(g.get_xy_of_position(Vec2::new(-1, -1)), (-1, -1));
}
