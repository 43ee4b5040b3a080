//! A ray caster for a map of square cells, on fixed-point numbers.
//!
//! A frame is painted in three layers. The floor and the ceiling come first
//! and cover the whole picture. Then one ray for each column of the screen is
//! marched through the map to the first solid cell, and the wall it meets is
//! drawn as a textured strip whose height is the inverse of its distance; the
//! distances make up the depth buffer. Last come the sprites, from the
//! farthest to the nearest, each column of a sprite only where the sprite is
//! nearer than the wall of that column.
//!
//! Between frames the camera walks and turns as the held keys ask, and it
//! never walks into a solid cell.
//!
//! All numbers with a fraction are [`fixed::Fixed`]: integers that count
//! units of 1/65536. What each function computes is stated over mathematical
//! integers, rounding included, and every step of the arithmetic is shown to
//! stay within the range of its machine type.

pub mod fixed;
pub mod color;
pub mod grid;
pub mod texture;
pub mod framebuffer;
pub mod sprite;
pub mod scene;
pub mod camera;
pub mod dda;
pub mod walls;
pub mod planes;
pub mod sorting;
pub mod billboard;
pub mod frame;
pub mod theorems;
