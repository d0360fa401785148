//! The background map: a rectangle of floor tiles with a wall around it.
//!
//! Tiles come out row by row: the tile of row `r` and column `c` of a map
//! `width` cells wide stands at index `r * width + c`.

use crate::color::Color;
use crate::tile::Tile;
use vstd::arithmetic::div_mod::lemma_fundamental_div_mod;
use vstd::arithmetic::div_mod::lemma_fundamental_div_mod_converse;
use vstd::prelude::*;

verus! {

/// The glyph of a tile that can be walked on.
pub const FLOOR_GLYPH: char = '.';

/// The glyph of a tile on the edge of the map.
pub const WALL_GLYPH: char = '#';

/// Whether the cell lies in the first or last row, or in the first or last
/// column, of a `width` by `height` grid.
pub open spec fn on_boundary(width: int, height: int, row: int, col: int) -> bool {
    row == 0 || row == height - 1 || col == 0 || col == width - 1
}

/// The tile that a `width` by `height` map holds at `(row, col)`.
pub open spec fn map_tile(width: int, height: int, row: int, col: int) -> Tile {
    Tile {
        position: (row as usize, col as usize),
        glyph: if on_boundary(width, height, row, col) {
            WALL_GLYPH
        } else {
            FLOOR_GLYPH
        },
        color: Color::black(),
    }
}

/// The index at which a map `width` cells wide holds the tile of `(row, col)`.
pub open spec fn cell_index(width: int, row: int, col: int) -> int {
    row * width + col
}

/// The first `count` tiles of a `width` by `height` map, in row-major order.
pub open spec fn map_prefix(width: int, height: int, count: nat) -> Seq<Tile> {
    Seq::new(count, |i: int| map_tile(width, height, i / width, i % width))
}

/// The whole map. A dimension of zero or less gives the empty map.
pub open spec fn map_tiles(width: int, height: int) -> Seq<Tile> {
    if width <= 0 || height <= 0 {
        Seq::empty()
    } else {
        map_prefix(width, height, (width * height) as nat)
    }
}

/// The index of cell `(row, col)` splits back into its row and column.
pub proof fn lemma_cell_index(width: int, row: int, col: int)
    requires
        0 <= row,
        0 <= col < width,
    ensures
        0 <= row * width + col,
        (row * width + col) / width == row,
        (row * width + col) % width == col,
{
    assert(0 <= row * width) by (nonlinear_arith)
        requires
            0 <= row,
            0 < width,
    ;
    lemma_fundamental_div_mod_converse(row * width + col, width, row, col);
}

/// Every index of the map splits into a row and a column of the grid.
pub proof fn lemma_index_cell(width: int, height: int, i: int)
    requires
        0 < width,
        0 < height,
        0 <= i < width * height,
    ensures
        0 <= i / width < height,
        0 <= i % width < width,
        i == (i / width) * width + i % width,
{
    lemma_fundamental_div_mod(i, width);
    let q = i / width;
    let r = i % width;
    assert(width * q == q * width) by (nonlinear_arith);
    assert(0 <= q < height) by (nonlinear_arith)
        requires
            0 < width,
            0 <= r < width,
            0 <= q * width + r < width * height,
    ;
}

/// What holds of a map with at least one row and one column: it has one tile
/// for each cell, at the index its row and column give; no two tiles share a
/// position; and a tile is a wall exactly if it lies on the boundary.
pub proof fn lemma_map_tiles(width: int, height: int)
    requires
        1 <= width <= i32::MAX,
        1 <= height <= i32::MAX,
    ensures
        map_tiles(width, height).len() == width * height,
        forall|row: int, col: int|
            0 <= row < height && 0 <= col < width ==> {
                &&& 0 <= #[trigger] cell_index(width, row, col) < width * height
                &&& map_tiles(width, height)[cell_index(width, row, col)] == map_tile(
                    width,
                    height,
                    row,
                    col,
                )
            },
        forall|i: int, j: int|
            0 <= i < j < width * height ==> (#[trigger] map_tiles(width, height)[i]).position != (
            #[trigger] map_tiles(width, height)[j]).position,
        forall|i: int|
            0 <= i < width * height ==> {
                let tile = #[trigger] map_tiles(width, height)[i];
                &&& tile.position.0 < height
                &&& tile.position.1 < width
                &&& tile.color == Color::black()
                &&& tile.glyph == if on_boundary(
                    width,
                    height,
                    tile.position.0 as int,
                    tile.position.1 as int,
                ) {
                    WALL_GLYPH
                } else {
                    FLOOR_GLYPH
                }
            },
{
    let tiles = map_tiles(width, height);
    assert(0 < width * height) by (nonlinear_arith)
        requires
            0 < width,
            0 < height,
    ;
    assert forall|row: int, col: int| 0 <= row < height && 0 <= col < width implies {
        &&& 0 <= #[trigger] cell_index(width, row, col) < width * height
        &&& tiles[cell_index(width, row, col)] == map_tile(width, height, row, col)
    } by {
        lemma_cell_index(width, row, col);
        assert(row * width + col < width * height) by (nonlinear_arith)
            requires
                0 <= row < height,
                0 <= col < width,
        ;
    }
    assert forall|i: int| 0 <= i < width * height implies {
        let tile = #[trigger] tiles[i];
        &&& tile.position == ((i / width) as usize, (i % width) as usize)
        &&& tile.position.0 == i / width
        &&& tile.position.1 == i % width
        &&& tile.position.0 < height
        &&& tile.position.1 < width
        &&& tile.color == Color::black()
        &&& tile.glyph == if on_boundary(
            width,
            height,
            tile.position.0 as int,
            tile.position.1 as int,
        ) {
            WALL_GLYPH
        } else {
            FLOOR_GLYPH
        }
    } by {
        lemma_index_cell(width, height, i);
    }
    assert forall|i: int, j: int| 0 <= i < j < width * height implies (#[trigger] tiles[i]).position
        != (#[trigger] tiles[j]).position by {
        lemma_index_cell(width, height, i);
        lemma_index_cell(width, height, j);
    }
}

/// Generates the map of a `width` by `height` grid, row by row: every tile is
/// floor, in black, and the tiles of the first and last row and column are
/// walls. A dimension of zero or less gives an empty map.
pub fn generate_map(width: i32, height: i32) -> (tiles: Vec<Tile>)
    ensures
        tiles@ == map_tiles(width as int, height as int),
        width <= 0 || height <= 0 ==> tiles@.len() == 0,
        width >= 1 && height >= 1 ==> {
            &&& tiles@.len() == width * height
            &&& forall|row: int, col: int|
                0 <= row < height && 0 <= col < width ==> tiles@[#[trigger] cell_index(
                    width as int,
                    row,
                    col,
                )] == map_tile(width as int, height as int, row, col)
            &&& forall|i: int, j: int|
                0 <= i < j < tiles@.len() ==> (#[trigger] tiles@[i]).position != (
                #[trigger] tiles@[j]).position
            &&& forall|i: int|
                0 <= i < tiles@.len() ==> (#[trigger] tiles@[i]).glyph == if on_boundary(
                    width as int,
                    height as int,
                    tiles@[i].position.0 as int,
                    tiles@[i].position.1 as int,
                ) {
                    WALL_GLYPH
                } else {
                    FLOOR_GLYPH
                }
        },
{
    let mut tiles: Vec<Tile> = Vec::new();
    if width <= 0 || height <= 0 {
        return tiles;
    }
    let mut row: i32 = 0;
    while row < height
        invariant
            1 <= width,
            0 <= row <= height,
            0 <= row * width,
            tiles@ == map_prefix(width as int, height as int, (row * width) as nat),
        decreases height - row,
    {
        let mut col: i32 = 0;
        while col < width
            invariant
                0 <= row < height,
                0 <= col <= width,
                0 <= row * width + col,
                tiles@ == map_prefix(width as int, height as int, (row * width + col) as nat),
            decreases width - col,
        {
            let on_edge = row == 0 || row == height - 1 || col == 0 || col == width - 1;
            let glyph = if on_edge {
                WALL_GLYPH
            } else {
                FLOOR_GLYPH
            };
            proof {
                lemma_cell_index(width as int, row as int, col as int);
            }
            tiles.push(Tile { position: (row as usize, col as usize), glyph, color: Color::black() });
            col += 1;
        }
        assert((row + 1) * width == row * width + width) by (nonlinear_arith);
        row += 1;
    }
    proof {
        assert(row * width == width * height) by (nonlinear_arith)
            requires
                row == height,
        ;
        lemma_map_tiles(width as int, height as int);
    }
    tiles
}

} // verus!
