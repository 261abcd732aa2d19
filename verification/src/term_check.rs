//! Whether the terminal is large enough to play in.

use vstd::prelude::*;

verus! {

/// A rectangle of the terminal, in cells.
#[derive(Clone, Copy, Debug, PartialEq, Eq, Structural)]
pub struct Rect {
    pub x: u16,
    pub y: u16,
    pub width: u16,
    pub height: u16,
}

impl Rect {
    /// A rectangle at a place, of a size.
    pub fn new(x: u16, y: u16, width: u16, height: u16) -> (rect: Rect)
        ensures
            rect == (Rect { x, y, width, height }),
    {
        Rect { x, y, width, height }
    }
}

/// Whether the terminal is smaller than recommended, so that the player is
/// asked before the game goes on.
pub fn need_input(rect: Rect, recommended_width: u16, recommended_height: u16) -> (needed: bool)
    ensures
        needed == (rect.height < recommended_height || rect.width < recommended_width),
{
    rect.height < recommended_height || rect.width < recommended_width
}

} // verus!
