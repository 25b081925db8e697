//! The spatial core of a small tile-based game: a map read from text, the
//! placement of its tiles and of the player on one grid of integer world
//! coordinates, the player's motion, and the axis-aligned collision queries.
//!
//! Lengths are whole numbers of world units, a millionth of a pixel each, and
//! time is counted in microseconds. A speed in pixels per second times an
//! elapsed time in microseconds is then a displacement in world units, with
//! nothing rounded.

use vstd::prelude::*;

pub mod collider;
pub mod map;
pub mod player;
pub mod transform;
pub mod utils;
pub mod world;

verus! {

/// Whether the debug overlay is on.
#[derive(Clone, Copy, Debug, PartialEq, Eq, Structural)]
pub struct DebugMode {
    pub on: bool,
}

impl Default for DebugMode {
    /// The overlay starts switched off.
    fn default() -> (debug_mode: Self)
        ensures
            !debug_mode.on,
    {
        DebugMode { on: false }
    }
}

/// Switches the debug overlay over when its key was just pressed, and leaves
/// it as it is otherwise.
pub fn toggle_debug_mode(just_pressed: bool, debug_mode: &mut DebugMode)
    ensures
        final(debug_mode).on == (just_pressed != old(debug_mode).on),
{
    if just_pressed {
        debug_mode.on = !debug_mode.on;
    }
}

} // verus!
