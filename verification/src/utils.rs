//! The cursor, from the window's frame to the world's.

use crate::transform::Vec2;
use vstd::prelude::*;

verus! {

/// What the queries need to know of the window: its size, and where the
/// cursor is, counted from the window's lower left corner, all in world
/// units. `cursor` is `None` while the window does not know of a cursor.
#[derive(Clone, Copy, Debug, PartialEq, Eq)]
pub struct Window {
    pub width: u64,
    pub height: u64,
    pub cursor: Option<(i64, i64)>,
}

/// The cursor of a window as a point of the world, whose origin is shown in
/// the middle of the window.
pub open spec fn spec_cursor_position(window: Window) -> Option<Vec2> {
    match window.cursor {
        Some((x, y)) => Some(
            Vec2 { x: (x - window.width / 2) as i128, y: (y - window.height / 2) as i128 },
        ),
        None => None,
    }
}

/// Finds the cursor in the world: its place in the window, moved by half the
/// window's size so that the middle of the window is the origin.
///
/// `window` is `None` when no window is left. There is no cursor then, and
/// `app_exit` is raised to ask for the end of the session; it is never
/// lowered.
pub fn cursor_position(window: Option<&Window>, app_exit: &mut bool) -> (position: Option<Vec2>)
    ensures
        position == match window {
            Some(window) => spec_cursor_position(*window),
            None => None,
        },
        *final(app_exit) == (*old(app_exit) || window is None),
{
    let window = match window {
        Some(window) => window,
        None => {
            *app_exit = true;
            return None;
        },
    };
    match window.cursor {
        Some((x, y)) => Some(
            Vec2 {
                x: x as i128 - (window.width / 2) as i128,
                y: y as i128 - (window.height / 2) as i128,
            },
        ),
        None => None,
    }
}

} // verus!
