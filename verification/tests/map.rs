use raycaster::fixed::ONE;
use raycaster::grid::{Grid, MAX_GRID_DIM};

fn room(w: usize, h: usize) -> Vec<Vec<usize>> {
    let mut cells = Vec::new();
    for x in 0..w {
        let mut column = Vec::new();
        for y in 0..h {
            let border = x == 0 || y == 0 || x == w - 1 || y == h - 1;
            column.push(if border { 1 } else { 0 });
        }
        cells.push(column);
    }
    cells
}

#[test]
fn a_closed_room_is_a_map() {
    let grid = Grid::new(room(5, 4)).unwrap();
    assert_eq!(grid.columns(), 5);
    assert_eq!(grid.rows(), 4);
    assert_eq!(grid.cell(0, 0), 1);
    assert_eq!(grid.cell(2, 2), 0);
    assert_eq!(grid.cell(4, 3), 1);
}

#[test]
fn a_single_solid_cell_is_a_map() {
    assert!(Grid::new(vec![vec![3]]).is_some());
    assert!(Grid::new(vec![vec![0]]).is_none());
}

#[test]
fn an_empty_map_is_refused() {
    assert!(Grid::new(Vec::new()).is_none());
    assert!(Grid::new(vec![Vec::new()]).is_none());
}

#[test]
fn a_ragged_map_is_refused() {
    let mut cells = room(4, 4);
    cells[2].push(1);
    assert!(Grid::new(cells).is_none());
    let mut cells = room(4, 4);
    cells[3].pop();
    assert!(Grid::new(cells).is_none());
}

#[test]
fn a_map_with_an_open_border_is_refused() {
    for (x, y) in [(0, 0), (0, 2), (4, 1), (2, 0), (2, 3), (4, 3)] {
        let mut cells = room(5, 4);
        cells[x][y] = 0;
        assert!(Grid::new(cells).is_none(), "hole at {} {}", x, y);
    }
}

#[test]
fn a_map_that_is_too_wide_is_refused() {
    let cells = vec![vec![1usize]; MAX_GRID_DIM + 1];
    assert!(Grid::new(cells).is_none());
    let cells = vec![vec![1usize]; MAX_GRID_DIM];
    assert!(Grid::new(cells).is_some());
}

#[test]
fn open_points_are_over_empty_cells() {
    let mut cells = room(5, 5);
    cells[2][3] = 4;
    let grid = Grid::new(cells).unwrap();
    assert!(grid.is_open(ONE + ONE / 2, ONE + ONE / 2));
    assert!(grid.is_open(ONE, ONE));
    assert!(grid.is_open(4 * ONE - 1, 4 * ONE - 1));
    assert!(!grid.is_open(4 * ONE, ONE));
    assert!(!grid.is_open(ONE - 1, ONE));
    assert!(!grid.is_open(2 * ONE + 5, 3 * ONE + 5));
}

#[test]
fn points_outside_the_map_are_not_open() {
    let grid = Grid::new(room(5, 5)).unwrap();
    assert!(!grid.is_open(-1, ONE));
    assert!(!grid.is_open(ONE, -1));
    assert!(!grid.is_open(5 * ONE, ONE));
    assert!(!grid.is_open(ONE, 5 * ONE));
    assert!(!grid.is_open(i64::MAX, i64::MAX));
    assert!(!grid.is_open(i64::MIN, ONE));
}
