//! Where the menu's window goes on the screen.

use vstd::prelude::*;

verus! {

/// The coordinate that centres a window of the given size within a stretch
/// of the screen that begins at `origin` and is `extent` long: the middle of
/// the stretch, less half the window.
pub open spec fn centered(origin: int, extent: int, size: int) -> int {
    origin + extent / 2 - size / 2
}

/// Computes `centered`. The result is wide enough for any arguments.
pub fn centered_origin(origin: i32, extent: u32, size: u32) -> (at: i64)
    ensures
        at == centered(origin as int, extent as int, size as int),
{
    origin as i64 + extent as i64 / 2 - size as i64 / 2
}

} // verus!
