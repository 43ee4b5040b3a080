//! The camera: where the viewer stands, where it looks, and how wide it sees.

use crate::dda::Ray;
use crate::fixed::{floor_div, lemma_product_bound, magnitude, mul_fixed, product, Fixed, ONE};
use crate::framebuffer::MAX_SCREEN_DIM;
use crate::grid::Grid;
use vstd::prelude::*;

verus! {

/// The greatest magnitude of a component of the direction and of the plane: 16.
pub const VECTOR_LIMIT: i64 = 0x10_0000;

/// The least magnitude of the cross product of plane and direction, in units
/// of 2^-32: 1/1024. Below it the two count as parallel.
pub const MIN_SPREAD: i64 = 0x40_0000;

/// No coordinate of a position is at or above this: `MAX_GRID_DIM` cells.
pub const POSITION_LIMIT: i64 = 0x4000_0000;

/// The cross product of the plane `(px, py)` and the direction `(dx, dy)`.
pub open spec fn spread(dx: int, dy: int, px: int, py: int) -> int {
    px * dy - dx * py
}

/// Whether a direction and a plane can be a camera's: their components are
/// bounded and they are not parallel (so neither is zero).
pub open spec fn steady(dx: int, dy: int, px: int, py: int) -> bool {
    &&& -VECTOR_LIMIT <= dx <= VECTOR_LIMIT
    &&& -VECTOR_LIMIT <= dy <= VECTOR_LIMIT
    &&& -VECTOR_LIMIT <= px <= VECTOR_LIMIT
    &&& -VECTOR_LIMIT <= py <= VECTOR_LIMIT
    &&& magnitude(spread(dx, dy, px, py)) >= MIN_SPREAD
}

/// The first component of `(vx, vy)` turned by the angle with the given
/// cosine and sine, rounded to the nearest number.
pub open spec fn turn_x(vx: int, vy: int, cos: int, sin: int) -> int {
    (vx * cos - vy * sin + ONE / 2) / (ONE as int)
}

/// The second component of `(vx, vy)` turned by the angle with the given
/// cosine and sine, rounded to the nearest number.
pub open spec fn turn_y(vx: int, vy: int, cos: int, sin: int) -> int {
    (vx * sin + vy * cos + ONE / 2) / (ONE as int)
}

/// Where column `x` of a screen `w` wide lies on the camera plane: from -1 at
/// the left edge to just under 1 at the right.
pub open spec fn plane_offset(x: int, w: int) -> int
    recommends
        0 <= x < w,
{
    (2 * x * ONE) / w - ONE
}

/// The viewer: a position in the map, the direction of view, and the camera
/// plane, whose length against the direction's sets the field of view.
#[derive(Clone, Copy, Debug)]
pub struct Camera {
    pub pos_x: Fixed,
    pub pos_y: Fixed,
    pub dir_x: Fixed,
    pub dir_y: Fixed,
    pub plane_x: Fixed,
    pub plane_y: Fixed,
}

impl Camera {
    /// The invariant of a camera.
    pub open spec fn wf(&self) -> bool {
        &&& 0 <= self.pos_x < POSITION_LIMIT
        &&& 0 <= self.pos_y < POSITION_LIMIT
        &&& steady(self.dir_x as int, self.dir_y as int, self.plane_x as int, self.plane_y as int)
    }

    /// Whether the camera stands over an empty cell of `grid`.
    pub open spec fn inside(&self, grid: &Grid) -> bool {
        grid.open_at(self.pos_x as int, self.pos_y as int)
    }

    /// The ray through column `x` of a screen `w` wide.
    pub open spec fn ray_through(&self, x: int, w: int) -> Ray {
        Ray {
            pos_x: self.pos_x,
            pos_y: self.pos_y,
            dir_x: (self.dir_x + product(self.plane_x as int, plane_offset(x, w))) as i64,
            dir_y: (self.dir_y + product(self.plane_y as int, plane_offset(x, w))) as i64,
        }
    }

    /// The camera after a walk of `distance` along its direction (`forward`)
    /// or against it. Each axis is tried by itself: the step along `x` is made
    /// if it ends over an empty cell, and then the step along `y` likewise,
    /// from where the first has led.
    pub open spec fn walked(&self, grid: &Grid, distance: int, forward: bool) -> Camera {
        let shift_x = product(self.dir_x as int, distance);
        let shift_y = product(self.dir_y as int, distance);
        let to_x = if forward { self.pos_x + shift_x } else { self.pos_x - shift_x };
        let new_x = if grid.open_at(to_x, self.pos_y as int) { to_x } else { self.pos_x as int };
        let to_y = if forward { self.pos_y + shift_y } else { self.pos_y - shift_y };
        let new_y = if grid.open_at(new_x, to_y) { to_y } else { self.pos_y as int };
        Camera { pos_x: new_x as i64, pos_y: new_y as i64, ..*self }
    }

    /// The camera after a turn by the angle with the given cosine and sine:
    /// direction and plane turn alike. Where rounding would leave them
    /// unsteady, the camera stays as it is.
    pub open spec fn turned(&self, cos: int, sin: int) -> Camera {
        let dx = turn_x(self.dir_x as int, self.dir_y as int, cos, sin);
        let dy = turn_y(self.dir_x as int, self.dir_y as int, cos, sin);
        let px = turn_x(self.plane_x as int, self.plane_y as int, cos, sin);
        let py = turn_y(self.plane_x as int, self.plane_y as int, cos, sin);
        if steady(dx, dy, px, py) {
            Camera {
                dir_x: dx as i64,
                dir_y: dy as i64,
                plane_x: px as i64,
                plane_y: py as i64,
                ..*self
            }
        } else {
            *self
        }
    }
}

/// A key that the camera obeys.
#[derive(Clone, Copy, PartialEq, Eq, Structural, Debug)]
pub enum Key {
    Up,
    Down,
    Left,
    Right,
    Escape,
}

/// The keys that are held down.
#[derive(Clone, Copy, PartialEq, Eq, Structural, Debug)]
pub struct Keys {
    /// Walk forward.
    pub up: bool,
    /// Walk backward.
    pub down: bool,
    /// Turn to the left.
    pub left: bool,
    /// Turn to the right.
    pub right: bool,
    /// Leave.
    pub escape: bool,
}

impl Keys {
    /// These keys with `key` held (`held` set) or let go.
    pub open spec fn with(self, key: Key, held: bool) -> Keys {
        match key {
            Key::Up => Keys { up: held, ..self },
            Key::Down => Keys { down: held, ..self },
            Key::Left => Keys { left: held, ..self },
            Key::Right => Keys { right: held, ..self },
            Key::Escape => Keys { escape: held, ..self },
        }
    }

    /// No key is held.
    pub fn none() -> (keys: Keys)
        ensures
            keys == (Keys { up: false, down: false, left: false, right: false, escape: false }),
    {
        Keys { up: false, down: false, left: false, right: false, escape: false }
    }

    /// `key` went down: it is held from now on.
    pub fn press(&mut self, key: Key)
        ensures
            *final(self) == old(self).with(key, true),
    {
        match key {
            Key::Up => {
                self.up = true;
            },
            Key::Down => {
                self.down = true;
            },
            Key::Left => {
                self.left = true;
            },
            Key::Right => {
                self.right = true;
            },
            Key::Escape => {
                self.escape = true;
            },
        }
    }

    /// `key` went up: it is held no longer.
    pub fn release(&mut self, key: Key)
        ensures
            *final(self) == old(self).with(key, false),
    {
        match key {
            Key::Up => {
                self.up = false;
            },
            Key::Down => {
                self.down = false;
            },
            Key::Left => {
                self.left = false;
            },
            Key::Right => {
                self.right = false;
            },
            Key::Escape => {
                self.escape = false;
            },
        }
    }
}

/// A steady camera sends a ray that points somewhere through every point of
/// its plane: direction plus plane times `c` is not zero, rounding included.
pub proof fn lemma_ray_points(dx: int, dy: int, px: int, py: int, c: int)
    requires
        steady(dx, dy, px, py),
        -ONE <= c <= ONE,
    ensures
        dx + product(px, c) != 0 || dy + product(py, c) != 0,
{
    let a = px * c;
    let b = py * c;
    let fx = a / 65536;
    let ra = a % 65536;
    let fy = b / 65536;
    let rb = b % 65536;
    if dx + fx == 0 && dy + fy == 0 {
        let s = spread(dx, dy, px, py);
        assert(65536 * s == px * rb - ra * py) by (nonlinear_arith)
            requires
                a == px * c,
                b == py * c,
                a == 65536 * fx + ra,
                b == 65536 * fy + rb,
                dx == -fx,
                dy == -fy,
                s == px * dy - dx * py,
        ;
        lemma_product_bound(px, rb, VECTOR_LIMIT as int, 65536);
        lemma_product_bound(ra, py, 65536, VECTOR_LIMIT as int);
        assert(false);
    }
}

/// The quotient of `2 * x * ONE` by `w` is under `2 * ONE` for `x` under `w`.
pub proof fn lemma_plane_offset_range(x: int, w: int)
    requires
        0 <= x < w,
    ensures
        -ONE <= plane_offset(x, w) < ONE,
{
    let n = 2 * x * ONE;
    vstd::arithmetic::div_mod::lemma_div_pos_is_pos(n, w);
    vstd::arithmetic::div_mod::lemma_fundamental_div_mod(n, w);
    vstd::arithmetic::div_mod::lemma_mod_bound(n, w);
    let q = n / w;
    if q >= 2 * ONE {
        assert(w * q >= 2 * w * 65536) by (nonlinear_arith)
            requires
                q >= 2 * 65536,
                w > 0,
        ;
        assert(false);
    }
}

/// Whether `steady(dx, dy, px, py)` holds.
pub fn is_steady(dx: i128, dy: i128, px: i128, py: i128) -> (r: bool)
    ensures
        r == steady(dx as int, dy as int, px as int, py as int),
{
    if dx < -(VECTOR_LIMIT as i128) || dx > VECTOR_LIMIT as i128 || dy < -(VECTOR_LIMIT as i128)
        || dy > VECTOR_LIMIT as i128 || px < -(VECTOR_LIMIT as i128) || px > VECTOR_LIMIT as i128
        || py < -(VECTOR_LIMIT as i128) || py > VECTOR_LIMIT as i128 {
        return false;
    }
    proof {
        lemma_product_bound(px as int, dy as int, VECTOR_LIMIT as int, VECTOR_LIMIT as int);
        lemma_product_bound(dx as int, py as int, VECTOR_LIMIT as int, VECTOR_LIMIT as int);
    }
    let s: i128 = px * dy - dx * py;
    s >= MIN_SPREAD as i128 || s <= -(MIN_SPREAD as i128)
}

impl Camera {
    /// A camera from its six numbers; `None` unless they meet the invariant.
    pub fn new(
        pos_x: Fixed,
        pos_y: Fixed,
        dir_x: Fixed,
        dir_y: Fixed,
        plane_x: Fixed,
        plane_y: Fixed,
    ) -> (r: Option<Camera>)
        ensures
            r.is_some() == (Camera { pos_x, pos_y, dir_x, dir_y, plane_x, plane_y }).wf(),
            r matches Some(c) ==> c == (Camera { pos_x, pos_y, dir_x, dir_y, plane_x, plane_y }),
    {
        if pos_x < 0 || pos_x >= POSITION_LIMIT || pos_y < 0 || pos_y >= POSITION_LIMIT {
            return None;
        }
        if !is_steady(dir_x as i128, dir_y as i128, plane_x as i128, plane_y as i128) {
            return None;
        }
        Some(Camera { pos_x, pos_y, dir_x, dir_y, plane_x, plane_y })
    }

    /// Whether the invariant holds.
    pub fn is_wf(&self) -> (r: bool)
        ensures
            r == self.wf(),
    {
        0 <= self.pos_x && self.pos_x < POSITION_LIMIT && 0 <= self.pos_y && self.pos_y
            < POSITION_LIMIT && is_steady(
            self.dir_x as i128,
            self.dir_y as i128,
            self.plane_x as i128,
            self.plane_y as i128,
        )
    }

    /// Whether the camera stands over an empty cell of `grid`.
    pub fn is_inside(&self, grid: &Grid) -> (r: bool)
        requires
            grid.wf(),
        ensures
            r == self.inside(grid),
    {
        grid.is_open(self.pos_x, self.pos_y)
    }

    /// The ray through column `x` of a screen `w` wide.
    pub fn ray_for_column(&self, x: usize, w: usize) -> (ray: Ray)
        requires
            self.wf(),
            x < w <= MAX_SCREEN_DIM,
        ensures
            ray == self.ray_through(x as int, w as int),
            ray.wf(),
    {
        proof {
            lemma_plane_offset_range(x as int, w as int);
        }
        let offset: i64 = (2 * (x as i64) * ONE) / (w as i64) - ONE;
        proof {
            lemma_product_bound(self.plane_x as int, offset as int, VECTOR_LIMIT as int, ONE as int);
            lemma_product_bound(self.plane_y as int, offset as int, VECTOR_LIMIT as int, ONE as int);
            lemma_ray_points(
                self.dir_x as int,
                self.dir_y as int,
                self.plane_x as int,
                self.plane_y as int,
                offset as int,
            );
        }
        Ray {
            pos_x: self.pos_x,
            pos_y: self.pos_y,
            dir_x: self.dir_x + mul_fixed(self.plane_x, offset),
            dir_y: self.dir_y + mul_fixed(self.plane_y, offset),
        }
    }

    /// Walks `distance` along the direction (`forward`) or against it, each
    /// axis by itself and only onto empty cells.
    pub fn walk(&mut self, grid: &Grid, distance: Fixed, forward: bool)
        requires
            old(self).wf(),
            grid.wf(),
        ensures
            *final(self) == old(self).walked(grid, distance as int, forward),
            final(self).wf(),
            old(self).inside(grid) ==> final(self).inside(grid),
    {
        proof {
            lemma_product_bound(
                self.dir_x as int,
                distance as int,
                VECTOR_LIMIT as int,
                0x8000_0000_0000_0000,
            );
            lemma_product_bound(
                self.dir_y as int,
                distance as int,
                VECTOR_LIMIT as int,
                0x8000_0000_0000_0000,
            );
        }
        let shift_x: i128 = floor_div((self.dir_x as i128) * (distance as i128), 65536);
        let shift_y: i128 = floor_div((self.dir_y as i128) * (distance as i128), 65536);
        let to_x: i128 = if forward {
            self.pos_x as i128 + shift_x
        } else {
            self.pos_x as i128 - shift_x
        };
        if 0 <= to_x && to_x < POSITION_LIMIT as i128 && grid.is_open(to_x as i64, self.pos_y) {
            self.pos_x = to_x as i64;
        }
        let to_y: i128 = if forward {
            self.pos_y as i128 + shift_y
        } else {
            self.pos_y as i128 - shift_y
        };
        if 0 <= to_y && to_y < POSITION_LIMIT as i128 && grid.is_open(self.pos_x, to_y as i64) {
            self.pos_y = to_y as i64;
        }
    }

    /// Turns direction and plane by the angle with the given cosine and sine,
    /// to the left, or to the right if `right` is set. The camera stays as it is
    /// where rounding would leave the two unsteady.
    pub fn rotate(&mut self, cos: Fixed, sin: Fixed, right: bool)
        requires
            old(self).wf(),
        ensures
            *final(self) == old(self).turned(cos as int, if right { -sin } else { sin as int }),
            final(self).wf(),
            final(self).pos_x == old(self).pos_x,
            final(self).pos_y == old(self).pos_y,
    {
        let c: i128 = cos as i128;
        let s: i128 = if right {
            -(sin as i128)
        } else {
            sin as i128
        };
        let vx: i128 = self.dir_x as i128;
        let vy: i128 = self.dir_y as i128;
        let wx: i128 = self.plane_x as i128;
        let wy: i128 = self.plane_y as i128;
        proof {
            let big = 0x8000_0000_0000_0000int;
            lemma_product_bound(vx as int, c as int, VECTOR_LIMIT as int, big);
            lemma_product_bound(vy as int, s as int, VECTOR_LIMIT as int, big);
            lemma_product_bound(vx as int, s as int, VECTOR_LIMIT as int, big);
            lemma_product_bound(vy as int, c as int, VECTOR_LIMIT as int, big);
            lemma_product_bound(wx as int, c as int, VECTOR_LIMIT as int, big);
            lemma_product_bound(wy as int, s as int, VECTOR_LIMIT as int, big);
            lemma_product_bound(wx as int, s as int, VECTOR_LIMIT as int, big);
            lemma_product_bound(wy as int, c as int, VECTOR_LIMIT as int, big);
        }
        let dx: i128 = floor_div(vx * c - vy * s + 32768, 65536);
        let dy: i128 = floor_div(vx * s + vy * c + 32768, 65536);
        let px: i128 = floor_div(wx * c - wy * s + 32768, 65536);
        let py: i128 = floor_div(wx * s + wy * c + 32768, 65536);
        if is_steady(dx, dy, px, py) {
            self.dir_x = dx as i64;
            self.dir_y = dy as i64;
            self.plane_x = px as i64;
            self.plane_y = py as i64;
        }
    }

    /// The camera after one frame's input: a walk forward if `up` is held,
    /// then one backward if `down` is, then a turn to the right if `right` is,
    /// then one to the left if `left` is.
    pub open spec fn steered(&self, grid: &Grid, keys: Keys, distance: int, cos: int, sin: int)
        -> Camera {
        let a = if keys.up { self.walked(grid, distance, true) } else { *self };
        let b = if keys.down { a.walked(grid, distance, false) } else { a };
        let c = if keys.right { b.turned(cos, -sin) } else { b };
        if keys.left { c.turned(cos, sin) } else { c }
    }

    /// Applies one frame's input to the camera. `distance` is the length of a
    /// walk, `cos` and `sin` are those of the angle of a turn. Returns whether
    /// the frames go on: `false` once `escape` is held.
    pub fn steer(&mut self, grid: &Grid, keys: &Keys, distance: Fixed, cos: Fixed, sin: Fixed)
        -> (go_on: bool)
        requires
            old(self).wf(),
            grid.wf(),
        ensures
            *final(self) == old(self).steered(grid, *keys, distance as int, cos as int, sin as int),
            final(self).wf(),
            old(self).inside(grid) ==> final(self).inside(grid),
            go_on == !keys.escape,
    {
        if keys.up {
            self.walk(grid, distance, true);
        }
        if keys.down {
            self.walk(grid, distance, false);
        }
        if keys.right {
            self.rotate(cos, sin, true);
        }
        if keys.left {
            self.rotate(cos, sin, false);
        }
        !keys.escape
    }
}

/// The walking speed, in cells per second.
pub const MOVE_SPEED: i64 = 5;

/// The turning speed, in radians per second.
pub const TURN_SPEED: i64 = 3;

/// The length of the walk of a frame that took `elapsed_ms` milliseconds.
pub fn walk_distance(elapsed_ms: u32) -> (d: Fixed)
    ensures
        d == (elapsed_ms * MOVE_SPEED * ONE) / 1000,
{
    ((elapsed_ms as i64) * MOVE_SPEED * ONE) / 1000
}

/// The angle of the turn of a frame that took `elapsed_ms` milliseconds, in
/// radians.
pub fn turn_angle(elapsed_ms: u32) -> (a: Fixed)
    ensures
        a == (elapsed_ms * TURN_SPEED * ONE) / 1000,
{
    ((elapsed_ms as i64) * TURN_SPEED * ONE) / 1000
}

} // verus!
