//! The fixed-size discrete coordinate space the game is played on, with its
//! bounds-checking predicate.

use vstd::prelude::*;

use crate::components::Position;

verus! {

/// Default grid side length used by the session bootstrap.
pub const GRID_WIDTH: u16 = 10;
/// Default grid side length used by the session bootstrap.
pub const GRID_HEIGHT: u16 = 10;

/// A bounded grid of cells `[0, width) x [0, height)`.
///
/// The sides are kept at most `i16::MAX` so that a head standing anywhere on
/// the grid can always take one more step in `i16` coordinates: the step that
/// leaves the grid is the one that ends the game, and it still has to be
/// representable.
#[derive(Clone, Copy, Debug, PartialEq, Eq, Structural)]
pub struct Grid {
    pub width: u16,
    pub height: u16,
}

impl Grid {
    /// Both sides are positive and small enough that every cell of the grid,
    /// and every cell one step outside of it, fits in `i16` coordinates.
    pub open spec fn wf(self) -> bool {
        0 < self.width <= 0x7fff && 0 < self.height <= 0x7fff
    }

    /// Whether `p` lies on the grid.
    pub open spec fn contains_spec(self, p: Position) -> bool {
        0 <= p.x < self.width && 0 <= p.y < self.height
    }

    /// The bounds-checking predicate: whether `p` lies on the grid.
    pub fn contains(&self, p: Position) -> (r: bool)
        ensures
            r == self.contains_spec(p),
    {
        p.x >= 0 && p.y >= 0 && (p.x as u16) < self.width && (p.y as u16) < self.height
    }
}

} // verus!
