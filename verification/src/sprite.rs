//! Sprites: flat pictures that stand in the map and always face the viewer.

use crate::camera::POSITION_LIMIT;
use crate::fixed::Fixed;
use vstd::prelude::*;

verus! {

/// A sprite: where it stands and which texture it shows.
#[derive(Clone, Copy, Debug)]
pub struct Sprite {
    pub x: Fixed,
    pub y: Fixed,
    pub texture: usize,
}

impl Sprite {
    /// The invariant of a sprite: it stands where a map can reach.
    pub open spec fn wf(&self) -> bool {
        0 <= self.x < POSITION_LIMIT && 0 <= self.y < POSITION_LIMIT
    }

    /// Whether the invariant holds.
    pub fn is_wf(&self) -> (r: bool)
        ensures
            r == self.wf(),
    {
        0 <= self.x && self.x < POSITION_LIMIT && 0 <= self.y && self.y < POSITION_LIMIT
    }
}

} // verus!
