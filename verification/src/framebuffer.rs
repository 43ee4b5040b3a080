//! The picture of one frame: rows of pixels, three bytes each.

use crate::color::Color;
use vstd::prelude::*;

verus! {

/// The greatest width and height of a picture, in pixels.
pub const MAX_SCREEN_DIM: usize = 16384;

/// A picture in rows from the top, each pixel as red, green, blue.
pub struct Framebuffer {
    pub width: usize,
    pub height: usize,
    pub pixels: Vec<u8>,
}

/// The pixel `(x, y)` of a picture `w` wide lies within its `w * h * 3` bytes.
pub proof fn lemma_offset_in_range(w: int, h: int, x: int, y: int)
    requires
        0 <= x < w,
        0 <= y < h,
    ensures
        0 <= y * w,
        0 <= (x + y * w) * 3,
        (x + y * w) * 3 + 3 <= w * h * 3,
        w <= MAX_SCREEN_DIM && h <= MAX_SCREEN_DIM ==> w * h * 3 <= 0x3000_0000,
{
    assert(0 <= y * w && y * w + w <= h * w && h * w == w * h) by (nonlinear_arith)
        requires
            0 <= y < h,
            0 < w,
    ;
    if w <= MAX_SCREEN_DIM && h <= MAX_SCREEN_DIM {
        assert(w * h <= 0x1000_0000) by (nonlinear_arith)
            requires
                0 < w <= MAX_SCREEN_DIM,
                0 < h <= MAX_SCREEN_DIM,
        ;
    }
}

/// Two pixels of a picture share no byte.
pub proof fn lemma_offsets_apart(w: int, x1: int, y1: int, x2: int, y2: int)
    requires
        0 <= x1 < w,
        0 <= x2 < w,
        0 <= y1,
        0 <= y2,
        x1 != x2 || y1 != y2,
    ensures
        (x1 + y1 * w) * 3 + 3 <= (x2 + y2 * w) * 3 || (x2 + y2 * w) * 3 + 3 <= (x1 + y1 * w) * 3,
{
    if y1 < y2 {
        assert(y1 * w + w <= y2 * w) by (nonlinear_arith)
            requires
                y1 < y2,
                0 < w,
        ;
    } else if y2 < y1 {
        assert(y2 * w + w <= y1 * w) by (nonlinear_arith)
            requires
                y2 < y1,
                0 < w,
        ;
    }
}

impl Framebuffer {
    /// The invariant of a picture.
    pub open spec fn wf(&self) -> bool {
        &&& 0 < self.width <= MAX_SCREEN_DIM
        &&& 0 < self.height <= MAX_SCREEN_DIM
        &&& self.pixels@.len() == self.width * self.height * 3
    }

    /// Whether the pixel `(x, y)` exists.
    pub open spec fn contains(&self, x: int, y: int) -> bool {
        0 <= x < self.width && 0 <= y < self.height
    }

    /// Where the three bytes of the pixel `(x, y)` begin.
    pub open spec fn offset(&self, x: int, y: int) -> int {
        (x + y * self.width) * 3
    }

    /// The color of the pixel `(x, y)`.
    pub open spec fn pixel(&self, x: int, y: int) -> Color
        recommends
            self.contains(x, y),
    {
        Color {
            r: self.pixels@[self.offset(x, y)],
            g: self.pixels@[self.offset(x, y) + 1],
            b: self.pixels@[self.offset(x, y) + 2],
        }
    }

    /// Whether `other` has the size of this picture.
    pub open spec fn same_size(&self, other: &Framebuffer) -> bool {
        self.width == other.width && self.height == other.height
    }

    /// A black picture; `None` unless both sides are between 1 and `MAX_SCREEN_DIM`.
    pub fn new(width: usize, height: usize) -> (r: Option<Framebuffer>)
        ensures
            r.is_some() == (0 < width <= MAX_SCREEN_DIM && 0 < height <= MAX_SCREEN_DIM),
            r matches Some(fb) ==> {
                &&& fb.wf()
                &&& fb.width == width
                &&& fb.height == height
                &&& forall|i: int| 0 <= i < fb.pixels@.len() ==> fb.pixels@[i] == 0
            },
    {
        if width == 0 || width > MAX_SCREEN_DIM || height == 0 || height > MAX_SCREEN_DIM {
            return None;
        }
        assert(width * height <= MAX_SCREEN_DIM * MAX_SCREEN_DIM) by (nonlinear_arith)
            requires
                0 < width <= MAX_SCREEN_DIM,
                0 < height <= MAX_SCREEN_DIM,
        ;
        let n: usize = width * height * 3;
        let pixels: Vec<u8> = vec![0u8; n];
        Some(Framebuffer { width, height, pixels })
    }

    /// Whether the invariant holds.
    pub fn is_wf(&self) -> (r: bool)
        ensures
            r == self.wf(),
    {
        if self.width == 0 || self.width > MAX_SCREEN_DIM || self.height == 0 || self.height
            > MAX_SCREEN_DIM {
            return false;
        }
        assert(self.width * self.height <= MAX_SCREEN_DIM * MAX_SCREEN_DIM) by (nonlinear_arith)
            requires
                0 < self.width <= MAX_SCREEN_DIM,
                0 < self.height <= MAX_SCREEN_DIM,
        ;
        self.pixels.len() == self.width * self.height * 3
    }

    /// The color of the pixel `(x, y)`.
    pub fn get(&self, x: usize, y: usize) -> (c: Color)
        requires
            self.wf(),
            self.contains(x as int, y as int),
        ensures
            c == self.pixel(x as int, y as int),
    {
        proof {
            lemma_offset_in_range(self.width as int, self.height as int, x as int, y as int);
        }
        let at: usize = (x + y * self.width) * 3;
        Color { r: self.pixels[at], g: self.pixels[at + 1], b: self.pixels[at + 2] }
    }

    /// Colors the pixel `(x, y)` and no other.
    pub fn put(&mut self, x: usize, y: usize, c: Color)
        requires
            old(self).wf(),
            old(self).contains(x as int, y as int),
        ensures
            final(self).wf(),
            final(self).same_size(old(self)),
            final(self).pixel(x as int, y as int) == c,
            forall|i: int, j: int|
                old(self).contains(i, j) && (i != x || j != y) ==> #[trigger] final(self).pixel(i, j)
                    == old(self).pixel(i, j),
    {
        proof {
            lemma_offset_in_range(self.width as int, self.height as int, x as int, y as int);
        }
        let at: usize = (x + y * self.width) * 3;
        self.pixels[at] = c.r;
        self.pixels[at + 1] = c.g;
        self.pixels[at + 2] = c.b;
        proof {
            assert forall|i: int, j: int|
                old(self).contains(i, j) && (i != x || j != y) implies #[trigger] self.pixel(i, j)
                == old(self).pixel(i, j) by {
                lemma_offsets_apart(self.width as int, i, j, x as int, y as int);
                lemma_offset_in_range(self.width as int, self.height as int, i, j);
            }
        }
    }
}

} // verus!
