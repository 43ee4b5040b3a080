//! The map: a rectangle of cell tags, closed by solid cells all around.

use crate::fixed::{whole, whole_part, Fixed};
use vstd::prelude::*;

verus! {

/// The greatest width and height of a map, in cells.
pub const MAX_GRID_DIM: usize = 16384;

/// A map of cell tags, indexed by column `x` and then by row `y`.
///
/// Tag 0 is an empty cell. A positive tag is a solid cell whose texture has the
/// index `tag - 1`.
pub struct Grid {
    pub cells: Vec<Vec<usize>>,
}

/// Every column of `cells` has the length of the first.
pub open spec fn rectangular(cells: Seq<Vec<usize>>) -> bool {
    forall|x: int| 0 <= x < cells.len() ==> (#[trigger] cells[x])@.len() == cells[0]@.len()
}

/// Every cell of the outermost columns and rows of `cells` is solid.
pub open spec fn enclosed(cells: Seq<Vec<usize>>) -> bool {
    forall|x: int, y: int|
        0 <= x < cells.len() && 0 <= y < cells[0]@.len() && (x == 0 || y == 0 || x == cells.len()
            - 1 || y == cells[0]@.len() - 1) ==> #[trigger] cells[x]@[y] > 0
}

/// What a map must satisfy: a rectangle of at least one cell, no side longer
/// than `MAX_GRID_DIM`, with a solid border.
pub open spec fn valid_layout(cells: Seq<Vec<usize>>) -> bool {
    &&& 0 < cells.len() <= MAX_GRID_DIM
    &&& 0 < cells[0]@.len() <= MAX_GRID_DIM
    &&& rectangular(cells)
    &&& enclosed(cells)
}

/// Whether `valid_layout(cells@)` holds.
pub fn is_valid_layout(cells: &Vec<Vec<usize>>) -> (r: bool)
    ensures
        r == valid_layout(cells@),
{
    let w = cells.len();
    if w == 0 || w > MAX_GRID_DIM {
        return false;
    }
    let h = cells[0].len();
    if h == 0 || h > MAX_GRID_DIM {
        return false;
    }
    let mut x: usize = 0;
    while x < w
        invariant
            w == cells@.len(),
            h == cells@[0]@.len(),
            0 < h,
            x <= w,
            forall|i: int| 0 <= i < x ==> (#[trigger] cells@[i])@.len() == h,
            forall|i: int, j: int|
                0 <= i < x && 0 <= j < h && (i == 0 || j == 0 || i == w - 1 || j == h - 1)
                    ==> #[trigger] cells@[i]@[j] > 0,
        decreases w - x,
    {
        if cells[x].len() != h {
            return false;
        }
        if cells[x][0] == 0 || cells[x][h - 1] == 0 {
            return false;
        }
        if x == 0 || x == w - 1 {
            let mut y: usize = 0;
            while y < h
                invariant
                    x < w,
                    x == 0 || x == w - 1,
                    w == cells@.len(),
                    h == cells@[0]@.len(),
                    cells@[x as int]@.len() == h,
                    y <= h,
                    forall|j: int| 0 <= j < y ==> #[trigger] cells@[x as int]@[j] > 0,
                decreases h - y,
            {
                if cells[x][y] == 0 {
                    return false;
                }
                y += 1;
            }
        }
        x += 1;
    }
    true
}

impl Grid {
    /// The number of columns.
    pub open spec fn width(&self) -> int {
        self.cells@.len() as int
    }

    /// The number of rows.
    pub open spec fn height(&self) -> int {
        self.cells@[0]@.len() as int
    }

    /// The invariant of a map.
    pub open spec fn wf(&self) -> bool {
        valid_layout(self.cells@)
    }

    /// Whether the cell `(x, y)` exists.
    pub open spec fn in_bounds(&self, x: int, y: int) -> bool {
        0 <= x < self.width() && 0 <= y < self.height()
    }

    /// The tag of the cell `(x, y)`.
    pub open spec fn tag(&self, x: int, y: int) -> int
        recommends
            self.in_bounds(x, y),
    {
        self.cells@[x]@[y] as int
    }

    /// Whether the point `(px, py)` lies over an empty cell of the map.
    pub open spec fn open_at(&self, px: int, py: int) -> bool {
        &&& px >= 0
        &&& py >= 0
        &&& self.in_bounds(whole(px), whole(py))
        &&& self.tag(whole(px), whole(py)) == 0
    }

    /// Builds a map from its columns; `None` unless they form a valid layout.
    pub fn new(cells: Vec<Vec<usize>>) -> (r: Option<Grid>)
        ensures
            r.is_some() == valid_layout(cells@),
            r matches Some(g) ==> g.cells == cells && g.wf(),
    {
        if is_valid_layout(&cells) {
            Some(Grid { cells })
        } else {
            None
        }
    }

    /// Whether the invariant holds.
    pub fn is_wf(&self) -> (r: bool)
        ensures
            r == self.wf(),
    {
        is_valid_layout(&self.cells)
    }

    /// The number of columns.
    pub fn columns(&self) -> (r: usize)
        ensures
            r == self.width(),
    {
        self.cells.len()
    }

    /// The number of rows.
    pub fn rows(&self) -> (r: usize)
        requires
            self.wf(),
        ensures
            r == self.height(),
    {
        self.cells[0].len()
    }

    /// The tag of the cell `(x, y)`.
    pub fn cell(&self, x: usize, y: usize) -> (r: usize)
        requires
            self.wf(),
            self.in_bounds(x as int, y as int),
        ensures
            r == self.tag(x as int, y as int),
    {
        self.cells[x][y]
    }

    /// Whether the point `(px, py)` lies over an empty cell of the map. A point
    /// outside the map is not over an empty cell.
    pub fn is_open(&self, px: Fixed, py: Fixed) -> (r: bool)
        requires
            self.wf(),
        ensures
            r == self.open_at(px as int, py as int),
    {
        if px < 0 || py < 0 {
            return false;
        }
        let cx: i64 = whole_part(px);
        let cy: i64 = whole_part(py);
        if cx >= self.cells.len() as i64 {
            return false;
        }
        if cy >= self.cells[0].len() as i64 {
            return false;
        }
        self.cells[cx as usize][cy as usize] == 0
    }
}

} // verus!
