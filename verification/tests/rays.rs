use raycaster::dda::{first_crossing_of, stride_of, Ray, Side};
use raycaster::fixed::abs_of;
use raycaster::fixed::ONE;
use raycaster::grid::Grid;

fn room(w: usize, h: usize) -> Vec<Vec<usize>> {
    let mut cells = Vec::new();
    for x in 0..w {
        let mut column = Vec::new();
        for y in 0..h {
            let border = x == 0 || y == 0 || x == w - 1 || y == h - 1;
            column.push(if border { 1 } else { 0 });
        }
        cells.push(column);
    }
    cells
}

fn fx(v: f64) -> i64 {
    (v * 65536.0).round() as i64
}

#[test]
fn stride_is_the_inverse_of_the_component() {
    assert_eq!(stride_of(ONE, ONE), ONE);
    assert_eq!(stride_of(-ONE, ONE), ONE);
    assert_eq!(stride_of(ONE / 2, ONE), 2 * ONE);
    assert_eq!(stride_of(-2 * ONE, 5), ONE / 2);
    assert_eq!(stride_of(1, 1), 0x1_0000_0000);
}

#[test]
fn stride_of_a_ray_along_an_axis() {
    // the lines that the ray never meets
    assert_eq!(stride_of(0, ONE), ONE);
    // the lines that it crosses
    assert_eq!(stride_of(ONE, 0), 0);
    assert_eq!(stride_of(0, 0), 0);
}

#[test]
fn first_crossing_depends_on_the_heading() {
    // from 2.25 to 2.0 at twice the length per cell
    assert_eq!(first_crossing_of(fx(2.25), -ONE, 2 * ONE), fx(0.5));
    // from 2.25 to 3.0
    assert_eq!(first_crossing_of(fx(2.25), ONE, 2 * ONE), fx(1.5));
    assert_eq!(first_crossing_of(fx(2.25), 0, ONE), fx(0.75));
    assert_eq!(first_crossing_of(fx(2.0), -ONE, ONE), 0);
    assert_eq!(first_crossing_of(fx(2.0), ONE, ONE), ONE);
}

#[test]
fn absolute_values() {
    assert_eq!(abs_of(-5), 5);
    assert_eq!(abs_of(5), 5);
    assert_eq!(abs_of(0), 0);
    assert_eq!(abs_of(i64::MIN + 1), i64::MAX);
}

#[test]
fn a_ray_along_x_meets_the_wall_ahead() {
    let grid = Grid::new(room(5, 5)).unwrap();
    let ray = Ray { pos_x: fx(2.5), pos_y: fx(2.5), dir_x: -ONE, dir_y: 0 };
    let hit = ray.cast(&grid);
    assert_eq!((hit.cell_x, hit.cell_y), (0, 2));
    assert_eq!(hit.side, Side::Vertical);
    assert_eq!(hit.distance, fx(1.5));
    let ray = Ray { pos_x: fx(2.5), pos_y: fx(2.5), dir_x: ONE, dir_y: 0 };
    let hit = ray.cast(&grid);
    assert_eq!((hit.cell_x, hit.cell_y), (4, 2));
    assert_eq!(hit.side, Side::Vertical);
    assert_eq!(hit.distance, fx(1.5));
}

#[test]
fn a_ray_along_y_meets_the_wall_ahead() {
    let grid = Grid::new(room(5, 6)).unwrap();
    let ray = Ray { pos_x: fx(1.25), pos_y: fx(2.5), dir_x: 0, dir_y: ONE };
    let hit = ray.cast(&grid);
    assert_eq!((hit.cell_x, hit.cell_y), (1, 5));
    assert_eq!(hit.side, Side::Horizontal);
    assert_eq!(hit.distance, fx(2.5));
    let ray = Ray { pos_x: fx(1.25), pos_y: fx(2.5), dir_x: 0, dir_y: -ONE };
    let hit = ray.cast(&grid);
    assert_eq!((hit.cell_x, hit.cell_y), (1, 0));
    assert_eq!(hit.side, Side::Horizontal);
    assert_eq!(hit.distance, fx(1.5));
}

#[test]
fn perpendicular_distance_equals_euclidean_distance_on_the_axes() {
    let mut cells = room(9, 7);
    cells[6][3] = 2;
    let grid = Grid::new(cells).unwrap();
    for pos in [1.0, 1.125, 2.5, 3.75, 4.999, 5.5] {
        let ray = Ray { pos_x: fx(pos), pos_y: fx(3.5), dir_x: ONE, dir_y: 0 };
        let hit = ray.cast(&grid);
        assert_eq!((hit.cell_x, hit.cell_y), (6, 3));
        assert_eq!(hit.distance, 6 * ONE - fx(pos));
        let ray = Ray { pos_x: fx(pos), pos_y: fx(3.5), dir_x: -ONE, dir_y: 0 };
        let hit = ray.cast(&grid);
        assert_eq!((hit.cell_x, hit.cell_y), (0, 3));
        assert_eq!(hit.distance, fx(pos) - ONE);
    }
}

#[test]
fn a_diagonal_ray_reports_the_distance_along_the_axis() {
    let grid = Grid::new(room(5, 5)).unwrap();
    let ray = Ray { pos_x: fx(2.5), pos_y: fx(2.5), dir_x: ONE, dir_y: ONE };
    let hit = ray.cast(&grid);
    // the crossings tie; the step along y goes first
    assert_eq!((hit.cell_x, hit.cell_y), (3, 4));
    assert_eq!(hit.side, Side::Horizontal);
    // 1.5 cells along y, and the ray's component on y is 1: not 1.5 * sqrt(2)
    assert_eq!(hit.distance, fx(1.5));
}

#[test]
fn a_slanted_ray_meets_the_side_wall() {
    let grid = Grid::new(room(12, 3)).unwrap();
    // from (1.5, 1.5), up by 1 for every 4 to the right: leaves the corridor at x = 3.5
    let ray = Ray { pos_x: fx(1.5), pos_y: fx(1.5), dir_x: ONE, dir_y: ONE / 4 };
    let hit = ray.cast(&grid);
    assert_eq!((hit.cell_x, hit.cell_y), (3, 2));
    assert_eq!(hit.side, Side::Horizontal);
    // 0.5 cells along y over a component of 0.25
    assert_eq!(hit.distance, fx(2.0));
}

#[test]
fn a_ray_from_a_grid_line_against_the_axis_has_distance_zero() {
    let grid = Grid::new(room(5, 5)).unwrap();
    let ray = Ray { pos_x: fx(1.0), pos_y: fx(2.5), dir_x: -ONE, dir_y: 0 };
    let hit = ray.cast(&grid);
    assert_eq!((hit.cell_x, hit.cell_y), (0, 2));
    assert_eq!(hit.distance, 0);
}

#[test]
fn the_march_stops_at_the_first_solid_cell() {
    let mut cells = room(9, 3);
    cells[4][1] = 7;
    cells[6][1] = 3;
    let grid = Grid::new(cells).unwrap();
    let ray = Ray { pos_x: fx(1.5), pos_y: fx(1.5), dir_x: ONE, dir_y: 0 };
    let hit = ray.cast(&grid);
    assert_eq!((hit.cell_x, hit.cell_y), (4, 1));
    assert_eq!(grid.cell(hit.cell_x, hit.cell_y), 7);
    assert_eq!(hit.distance, fx(2.5));
}
