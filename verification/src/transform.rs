//! World coordinates and the placement of an entity in the world.

use vstd::prelude::*;

verus! {

/// How many world units make a pixel. A second has as many microseconds, so
/// that pixels per second times microseconds gives world units.
pub const UNITS_PER_PIXEL: u64 = 1_000_000;

/// A point of the world, or a vector between two points, in world units. The
/// world's origin is the middle of the map; `x` grows to the right and `y`
/// grows upwards.
#[derive(Clone, Copy, Debug, PartialEq, Eq, Structural)]
pub struct Vec2 {
    pub x: i128,
    pub y: i128,
}

/// Where an entity stands and how large it is drawn.
#[derive(Clone, Copy, Debug, PartialEq, Eq, Structural)]
pub struct Transform {
    /// The entity's centre.
    pub translation: Vec2,
    /// The layer it is drawn in: a higher layer covers a lower one.
    pub depth: usize,
    /// The factor by which its sprite is enlarged, along both axes.
    pub scale: usize,
}

} // verus!
