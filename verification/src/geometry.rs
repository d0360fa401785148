//! Pixel sizes, offsets and regions, and the transform from grid cells to
//! screen pixels.
//!
//! Grid positions and cell sizes are `usize`. Pixel coordinates are `u128`, so
//! that a product of two `usize` values plus a third always fits and every
//! transform in this module is exact.

use vstd::prelude::*;

verus! {

/// The uniform size of one cell, in pixels.
#[derive(Clone, Copy, Debug, PartialEq, Eq, Structural)]
pub struct PixelSize {
    pub width: usize,
    pub height: usize,
}

/// A shift applied to the whole grid before it is placed on screen.
#[derive(Clone, Copy, Debug, PartialEq, Eq, Structural)]
pub struct PixelOffset {
    pub x: usize,
    pub y: usize,
}

/// A pixel on screen.
#[derive(Clone, Copy, Debug, PartialEq, Eq, Structural)]
pub struct ScreenPoint {
    pub x: u128,
    pub y: u128,
}

/// An axis-aligned rectangle of pixels inside a texture: the pixels `(px, py)`
/// with `x <= px < x + width` and `y <= py < y + height`.
#[derive(Clone, Copy, Debug, PartialEq, Eq, Structural)]
pub struct Region {
    pub x: u128,
    pub y: u128,
    pub width: usize,
    pub height: usize,
}

/// The horizontal screen coordinate of the cell in column `col`.
pub open spec fn screen_x(col: usize, cell_size: PixelSize, offset: PixelOffset) -> int {
    col as int * cell_size.width as int + offset.x as int
}

/// The vertical screen coordinate of the cell in row `row`.
pub open spec fn screen_y(row: usize, cell_size: PixelSize, offset: PixelOffset) -> int {
    row as int * cell_size.height as int + offset.y as int
}

/// The screen pixel at which the cell at `position`, a `(row, col)` pair, is
/// drawn: `(col * width, row * height)` shifted by `offset`.
pub open spec fn grid_to_screen_spec(
    position: (usize, usize),
    cell_size: PixelSize,
    offset: PixelOffset,
) -> ScreenPoint {
    ScreenPoint {
        x: screen_x(position.1, cell_size, offset) as u128,
        y: screen_y(position.0, cell_size, offset) as u128,
    }
}

/// A product of two `usize` values plus a third fits in a `u128`.
pub proof fn lemma_scaled_fits(a: usize, b: usize, c: usize)
    ensures
        0 <= a as int * b as int + c as int <= u128::MAX,
{
    assert(0 <= a as int * b as int <= 0xffff_ffff_ffff_ffff * 0xffff_ffff_ffff_ffff)
        by (nonlinear_arith)
        requires
            0 <= a as int <= 0xffff_ffff_ffff_ffff,
            0 <= b as int <= 0xffff_ffff_ffff_ffff,
    ;
}

/// Scales `factor` by `unit` and adds `shift`, without loss.
pub fn scale_and_shift(factor: usize, unit: usize, shift: usize) -> (pixels: u128)
    ensures
        pixels as int == factor as int * unit as int + shift as int,
{
    proof {
        lemma_scaled_fits(factor, unit, shift);
        lemma_scaled_fits(factor, unit, 0);
    }
    (factor as u128) * (unit as u128) + (shift as u128)
}

/// Where on screen the cell at grid `position`, a `(row, col)` pair, is drawn.
#[verifier::when_used_as_spec(grid_to_screen_spec)]
pub fn grid_to_screen(position: (usize, usize), cell_size: PixelSize, offset: PixelOffset) -> (point:
    ScreenPoint)
    ensures
        point == grid_to_screen_spec(position, cell_size, offset),
        point.x as int == screen_x(position.1, cell_size, offset),
        point.y as int == screen_y(position.0, cell_size, offset),
{
    ScreenPoint {
        x: scale_and_shift(position.1, cell_size.width, offset.x),
        y: scale_and_shift(position.0, cell_size.height, offset.y),
    }
}

/// Whether `p` lies in the half-open span `[start, start + len)`.
pub open spec fn in_span(start: u128, len: usize, p: int) -> bool {
    start <= p < start + len
}

/// Whether the spans `[a, a + a_len)` and `[b, b + b_len)` share a point.
pub open spec fn spans_meet_spec(a: u128, a_len: usize, b: u128, b_len: usize) -> bool {
    exists|p: int| #[trigger] in_span(a, a_len, p) && in_span(b, b_len, p)
}

/// Whether the spans `[a, a + a_len)` and `[b, b + b_len)` share a point. Two
/// spans that meet at all meet at the larger of their two starts.
#[verifier::when_used_as_spec(spans_meet_spec)]
pub fn spans_meet(a: u128, a_len: usize, b: u128, b_len: usize) -> (meet: bool)
    ensures
        meet == spans_meet_spec(a, a_len, b, b_len),
{
    if a <= b {
        let meet = b - a < a_len as u128 && b_len > 0;
        assert(meet ==> in_span(a, a_len, b as int) && in_span(b, b_len, b as int));
        meet
    } else {
        let meet = a - b < b_len as u128 && a_len > 0;
        assert(meet ==> in_span(a, a_len, a as int) && in_span(b, b_len, a as int));
        meet
    }
}

impl Region {
    /// Whether the pixel `(px, py)` lies inside the region.
    pub open spec fn contains_pixel(self, px: int, py: int) -> bool {
        in_span(self.x, self.width, px) && in_span(self.y, self.height, py)
    }

    /// Whether the two regions share at least one pixel.
    pub open spec fn spec_overlaps(self, other: Region) -> bool {
        exists|px: int, py: int| #[trigger]
            self.contains_pixel(px, py) && other.contains_pixel(px, py)
    }

    /// Whether the two regions share at least one pixel.
    #[verifier::when_used_as_spec(spec_overlaps)]
    pub fn overlaps(self, other: Region) -> (shared: bool)
        ensures
            shared == self.spec_overlaps(other),
    {
        let across = spans_meet(self.x, self.width, other.x, other.width);
        let down = spans_meet(self.y, self.height, other.y, other.height);
        proof {
            if across && down {
                let px = choose|p: int| #[trigger]
                    in_span(self.x, self.width, p) && in_span(other.x, other.width, p);
                let py = choose|p: int| #[trigger]
                    in_span(self.y, self.height, p) && in_span(other.y, other.height, p);
                assert(self.contains_pixel(px, py) && other.contains_pixel(px, py));
            }
        }
        across && down
    }
}

} // verus!
