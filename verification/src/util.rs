//! Tile coordinates and the row-major index of a tile.

use vstd::prelude::*;
use crate::{MAP_WIDTH, MAP_HEIGHT};

verus! {

/// A tile coordinate: `x` counts columns from the left, `y` rows from the top.
#[derive(Copy, Clone, PartialEq, Eq, Structural, Debug)]
pub struct Coord {
    pub x: i32,
    pub y: i32,
}

impl Coord {
    /// The tile in column `x` of row `y`.
    pub fn new(x: i32, y: i32) -> (p: Coord)
        ensures
            p.x == x,
            p.y == y,
    {
        Coord { x, y }
    }
}

/// Whether `(x, y)` names a tile of the grid.
pub open spec fn in_bounds(x: int, y: int) -> bool {
    0 <= x < MAP_WIDTH && 0 <= y < MAP_HEIGHT
}

/// Number of tiles in the grid, and so the number of valid linear indices.
pub open spec fn tile_count() -> int {
    MAP_WIDTH * MAP_HEIGHT
}

/// Row-major linear index of the tile `(x, y)`.
pub open spec fn xy_idx_spec(x: int, y: int) -> int {
    y * MAP_WIDTH + x
}

/// Coordinates of the tile with linear index `idx`.
pub open spec fn idx_xy_spec(idx: int) -> (int, int) {
    (idx % (MAP_WIDTH as int), idx / (MAP_WIDTH as int))
}

/// Executable form of [`in_bounds`].
pub fn is_in_bounds(x: i32, y: i32) -> (b: bool)
    ensures
        b == in_bounds(x as int, y as int),
{
    0 <= x && x < MAP_WIDTH && 0 <= y && y < MAP_HEIGHT
}

/// Linear index of the tile `(x, y)`, rows laid end to end.
pub fn xy_idx(x: i32, y: i32) -> (idx: usize)
    requires
        in_bounds(x as int, y as int),
    ensures
        idx == xy_idx_spec(x as int, y as int),
        idx < tile_count(),
{
    (y as usize * MAP_WIDTH as usize) + x as usize
}

/// Coordinates `(x, y)` of the tile with linear index `idx`.
pub fn idx_xy(idx: usize) -> (xy: (i32, i32))
    requires
        idx < tile_count(),
    ensures
        (xy.0 as int, xy.1 as int) == idx_xy_spec(idx as int),
        in_bounds(xy.0 as int, xy.1 as int),
{
    (idx as i32 % MAP_WIDTH, idx as i32 / MAP_WIDTH)
}

/// Every tile has an index below the tile count, and the index leads back to
/// the tile.
pub proof fn lemma_xy_idx_roundtrip(x: int, y: int)
    requires
        in_bounds(x, y),
    ensures
        0 <= xy_idx_spec(x, y) < tile_count(),
        idx_xy_spec(xy_idx_spec(x, y)) == (x, y),
{
}

/// Every index below the tile count names a tile of the grid, and the tile
/// leads back to the index.
pub proof fn lemma_idx_xy_roundtrip(idx: int)
    requires
        0 <= idx < tile_count(),
    ensures
        in_bounds(idx_xy_spec(idx).0, idx_xy_spec(idx).1),
        xy_idx_spec(idx_xy_spec(idx).0, idx_xy_spec(idx).1) == idx,
{
}

/// Two different tiles never share an index.
pub proof fn lemma_xy_idx_injective(x1: int, y1: int, x2: int, y2: int)
    requires
        in_bounds(x1, y1),
        in_bounds(x2, y2),
        xy_idx_spec(x1, y1) == xy_idx_spec(x2, y2),
    ensures
        x1 == x2,
        y1 == y2,
{
    lemma_xy_idx_roundtrip(x1, y1);
    lemma_xy_idx_roundtrip(x2, y2);
}

} // verus!
