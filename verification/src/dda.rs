//! The march of one ray through the map, cell by cell, to the first solid cell.

use crate::fixed::{abs_of, div_fixed, fraction, fraction_part, lemma_product_bound,
    lemma_quotient_bound, magnitude, mul_fixed, product, quotient, whole, whole_part, Fixed, ONE};
use crate::grid::{Grid, MAX_GRID_DIM};
use vstd::prelude::*;

verus! {

/// The greatest magnitude of a ray's direction components.
pub const RAY_LIMIT: i64 = 0x100_0000;

/// No distance to a wall is above this.
pub const DISTANCE_LIMIT: i64 = 0x1_0000_0000_0000;

/// Which kind of grid line a ray crossed last.
#[derive(Clone, Copy, PartialEq, Eq, Structural, Debug)]
pub enum Side {
    /// A line of constant `x`: the march stepped along `x`.
    Vertical,
    /// A line of constant `y`: the march stepped along `y`.
    Horizontal,
}

/// A ray: where it starts and where it points.
#[derive(Clone, Copy, Debug)]
pub struct Ray {
    pub pos_x: Fixed,
    pub pos_y: Fixed,
    pub dir_x: Fixed,
    pub dir_y: Fixed,
}

/// Where a ray met a solid cell.
#[derive(Clone, Copy, Debug)]
pub struct Hit {
    /// The solid cell.
    pub cell_x: usize,
    pub cell_y: usize,
    /// The kind of line through which the ray entered it.
    pub side: Side,
    /// The distance to that line, measured along the camera's axis.
    pub distance: Fixed,
}

/// The state of a march: the cell reached, the ray length at which the next
/// line of each kind is crossed, and the kind of the line crossed last.
pub struct March {
    pub x: int,
    pub y: int,
    pub near_x: int,
    pub near_y: int,
    pub side: Side,
}

/// The ray length between two crossings of lines of one kind. `along` is the
/// direction component across those lines, `across` the other one. For a ray
/// that runs along an axis, the lines that it crosses get the stride 0 and the
/// lines that it never meets the stride 1, so that the march always steps
/// across the former.
pub open spec fn stride(along: int, across: int) -> int {
    if across == 0 {
        0
    } else if along == 0 {
        ONE as int
    } else {
        quotient(ONE as int, magnitude(along))
    }
}

/// The direction of the steps along one axis: -1 or 1.
pub open spec fn heading(d: int) -> int {
    if d < 0 {
        -1
    } else {
        1
    }
}

/// The ray length up to the first line crossed along one axis.
pub open spec fn first_crossing(pos: int, d: int, stride: int) -> int {
    if d < 0 {
        product(fraction(pos), stride)
    } else {
        product(ONE - fraction(pos), stride)
    }
}

impl Ray {
    /// What a ray must satisfy to be marched: it points somewhere.
    pub open spec fn wf(&self) -> bool {
        &&& -RAY_LIMIT <= self.dir_x <= RAY_LIMIT
        &&& -RAY_LIMIT <= self.dir_y <= RAY_LIMIT
        &&& (self.dir_x != 0 || self.dir_y != 0)
    }

    pub open spec fn stride_x(&self) -> int {
        stride(self.dir_x as int, self.dir_y as int)
    }

    pub open spec fn stride_y(&self) -> int {
        stride(self.dir_y as int, self.dir_x as int)
    }

    /// The march before its first step, in the cell of the ray's start.
    pub open spec fn start(&self) -> March {
        March {
            x: whole(self.pos_x as int),
            y: whole(self.pos_y as int),
            near_x: first_crossing(self.pos_x as int, self.dir_x as int, self.stride_x()),
            near_y: first_crossing(self.pos_y as int, self.dir_y as int, self.stride_y()),
            side: Side::Vertical,
        }
    }

    /// One step of the march: across the nearer line, into the next cell.
    pub open spec fn step(&self, m: March) -> March {
        if m.near_x < m.near_y {
            March {
                x: m.x + heading(self.dir_x as int),
                y: m.y,
                near_x: m.near_x + self.stride_x(),
                near_y: m.near_y,
                side: Side::Vertical,
            }
        } else {
            March {
                x: m.x,
                y: m.y + heading(self.dir_y as int),
                near_x: m.near_x,
                near_y: m.near_y + self.stride_y(),
                side: Side::Horizontal,
            }
        }
    }

    /// How many steps a march can make from `m` before it leaves the map.
    pub open spec fn room(&self, grid: &Grid, m: March) -> int {
        (if self.dir_x < 0 {
            m.x + 1
        } else {
            grid.width() - m.x
        }) + (if self.dir_y < 0 {
            m.y + 1
        } else {
            grid.height() - m.y
        })
    }

    /// The march from `m` on: it steps until it enters a solid cell (or leaves
    /// the map, which it cannot do in a map with a solid border).
    pub open spec fn march(&self, grid: &Grid, m: March) -> March
        decreases self.room(grid, m),
    {
        let n = self.step(m);
        if grid.in_bounds(n.x, n.y) && grid.tag(n.x, n.y) == 0 {
            self.march(grid, n)
        } else {
            n
        }
    }

    /// The distance from the ray's start to the line through which the march
    /// `m` entered its cell, measured along the camera's axis: the distance
    /// along the axis of the last step, divided by the ray's component on it.
    pub open spec fn distance(&self, m: March) -> int {
        match m.side {
            Side::Vertical => quotient(
                magnitude(m.x * ONE - self.pos_x + (if self.dir_x < 0 { ONE as int } else { 0 })),
                magnitude(self.dir_x as int),
            ),
            Side::Horizontal => quotient(
                magnitude(m.y * ONE - self.pos_y + (if self.dir_y < 0 { ONE as int } else { 0 })),
                magnitude(self.dir_y as int),
            ),
        }
    }

    /// The end of the whole march: the first solid cell on the ray.
    pub open spec fn target(&self, grid: &Grid) -> March {
        self.march(grid, self.start())
    }
}

/// The greatest ray length between two crossings: 65536 cells.
pub const STRIDE_LIMIT: i64 = 0x1_0000_0000;

/// Computes `stride(along, across)`.
pub fn stride_of(along: Fixed, across: Fixed) -> (r: Fixed)
    requires
        along > i64::MIN,
    ensures
        r == stride(along as int, across as int),
        0 <= r <= STRIDE_LIMIT,
{
    if across == 0 {
        0
    } else if along == 0 {
        ONE
    } else {
        let a: i64 = abs_of(along);
        proof {
            lemma_quotient_bound(ONE * ONE, a as int);
        }
        div_fixed(ONE, a)
    }
}

/// Computes `first_crossing(pos, d, stride)`.
pub fn first_crossing_of(pos: Fixed, d: Fixed, stride: Fixed) -> (r: Fixed)
    requires
        0 <= stride <= STRIDE_LIMIT,
    ensures
        r == first_crossing(pos as int, d as int, stride as int),
        0 <= r <= STRIDE_LIMIT,
        stride == 0 ==> r == 0,
        stride == ONE ==> r == (if d < 0 { fraction(pos as int) } else { ONE - fraction(pos as int) }),
{
    let f: i64 = fraction_part(pos);
    let part: i64 = if d < 0 {
        f
    } else {
        ONE - f
    };
    proof {
        lemma_product_bound(part as int, stride as int, ONE as int, STRIDE_LIMIT as int);
        assert(0 <= part * stride) by (nonlinear_arith)
            requires
                0 <= part,
                0 <= stride,
        ;
        assert(stride == 0 ==> part * stride == 0) by (nonlinear_arith);
        assert(stride == ONE ==> part * stride == part * 65536) by (nonlinear_arith);
    }
    mul_fixed(part, stride)
}

impl Ray {
    /// Marches the ray from an empty cell of the map to the first solid cell.
    pub fn cast(&self, grid: &Grid) -> (hit: Hit)
        requires
            grid.wf(),
            self.wf(),
            grid.open_at(self.pos_x as int, self.pos_y as int),
        ensures
            hit.cell_x == self.target(grid).x,
            hit.cell_y == self.target(grid).y,
            hit.side == self.target(grid).side,
            hit.distance == self.distance(self.target(grid)),
            grid.in_bounds(hit.cell_x as int, hit.cell_y as int),
            grid.tag(hit.cell_x as int, hit.cell_y as int) > 0,
            0 <= hit.distance <= DISTANCE_LIMIT,
            hit.side == Side::Vertical ==> self.dir_x != 0,
            hit.side == Side::Horizontal ==> self.dir_y != 0,
    {
        let stride_x: i64 = stride_of(self.dir_x, self.dir_y);
        let stride_y: i64 = stride_of(self.dir_y, self.dir_x);
        let x0: i64 = whole_part(self.pos_x);
        let y0: i64 = whole_part(self.pos_y);
        let step_x: i64 = if self.dir_x < 0 { -1 } else { 1 };
        let step_y: i64 = if self.dir_y < 0 { -1 } else { 1 };
        let first_x: i64 = first_crossing_of(self.pos_x, self.dir_x, stride_x);
        let first_y: i64 = first_crossing_of(self.pos_y, self.dir_y, stride_y);
        let mut near_x: i64 = first_x;
        let mut near_y: i64 = first_y;
        let mut x: i64 = x0;
        let mut y: i64 = y0;
        let mut side = Side::Vertical;
        let mut found = false;
        let ghost mut m = self.start();
        let ghost mut nx: int = 0;
        let ghost mut ny: int = 0;
        while !found
            invariant
                grid.wf(),
                self.wf(),
                stride_x == self.stride_x(),
                stride_y == self.stride_y(),
                0 <= stride_x <= STRIDE_LIMIT,
                0 <= stride_y <= STRIDE_LIMIT,
                0 <= first_x <= STRIDE_LIMIT,
                0 <= first_y <= STRIDE_LIMIT,
                step_x == heading(self.dir_x as int),
                step_y == heading(self.dir_y as int),
                m.x == x,
                m.y == y,
                m.near_x == near_x,
                m.near_y == near_y,
                m.side == side,
                grid.in_bounds(x as int, y as int),
                grid.in_bounds(x0 as int, y0 as int),
                0 <= nx,
                0 <= ny,
                x == (if self.dir_x < 0 { x0 - nx } else { x0 + nx }),
                y == (if self.dir_y < 0 { y0 - ny } else { y0 + ny }),
                near_x == first_x + nx * stride_x,
                near_y == first_y + ny * stride_y,
                self.dir_x == 0 ==> near_y == 0,
                self.dir_y == 0 ==> near_x == 0 && near_y > 0,
                !found ==> grid.tag(x as int, y as int) == 0 && self.target(grid) == self.march(
                    grid,
                    m,
                ),
                found ==> grid.tag(x as int, y as int) > 0 && m == self.target(grid),
                found && side == Side::Vertical ==> self.dir_x != 0 && nx >= 1,
                found && side == Side::Horizontal ==> self.dir_y != 0 && ny >= 1,
            decreases self.room(grid, m) + (if found { 0int } else { 1int }),
        {
            proof {
                assert(nx * stride_x <= MAX_GRID_DIM * STRIDE_LIMIT) by (nonlinear_arith)
                    requires
                        0 <= nx <= MAX_GRID_DIM,
                        0 <= stride_x <= STRIDE_LIMIT,
                ;
                assert(ny * stride_y <= MAX_GRID_DIM * STRIDE_LIMIT) by (nonlinear_arith)
                    requires
                        0 <= ny <= MAX_GRID_DIM,
                        0 <= stride_y <= STRIDE_LIMIT,
                ;
                assert((nx + 1) * stride_x == nx * stride_x + stride_x) by (nonlinear_arith);
                assert((ny + 1) * stride_y == ny * stride_y + stride_y) by (nonlinear_arith);
                // an empty cell is no cell of the border
                assert(grid.cells@[x as int]@[y as int] == 0);
                assert(0 < x < grid.width() - 1 && 0 < y < grid.height() - 1);
            }
            if near_x < near_y {
                near_x = near_x + stride_x;
                x = x + step_x;
                side = Side::Vertical;
                proof {
                    nx = nx + 1;
                }
            } else {
                near_y = near_y + stride_y;
                y = y + step_y;
                side = Side::Horizontal;
                proof {
                    ny = ny + 1;
                }
            }
            proof {
                m = self.step(m);
            }
            if grid.cell(x as usize, y as usize) > 0 {
                found = true;
            }
        }
        let distance: i64 = match side {
            Side::Vertical => {
                let edge: i64 = x * ONE - self.pos_x + (if self.dir_x < 0 { ONE } else { 0 });
                let d: i64 = abs_of(self.dir_x);
                let e: i64 = abs_of(edge);
                proof {
                    lemma_quotient_bound(e * ONE, d as int);
                }
                div_fixed(e, d)
            },
            Side::Horizontal => {
                let edge: i64 = y * ONE - self.pos_y + (if self.dir_y < 0 { ONE } else { 0 });
                let d: i64 = abs_of(self.dir_y);
                let e: i64 = abs_of(edge);
                proof {
                    lemma_quotient_bound(e * ONE, d as int);
                }
                div_fixed(e, d)
            },
        };
        Hit { cell_x: x as usize, cell_y: y as usize, side, distance }
    }
}

} // verus!
