//! Background tiles.

use crate::color::Color;
use vstd::prelude::*;

verus! {

/// One cell of the background map. `position` is a `(row, col)` grid
/// coordinate.
#[derive(Clone, Copy, Debug, PartialEq, Eq)]
pub struct Tile {
    pub position: (usize, usize),
    pub glyph: char,
    pub color: Color,
}

} // verus!
