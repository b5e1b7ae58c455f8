//! The field of view of `rltk`, looking at a level.

use vstd::prelude::*;
use rltk::{Algorithm2D, BaseMap};
use crate::{MAP_WIDTH, MAP_HEIGHT};
use crate::grid::{cell_at, grid_wf};
use crate::map::{DungeonMap, TileGrid, TileType};
use crate::util::{idx_xy, in_bounds, Coord};

verus! {

/// The point type of `rltk`. It only passes through: the field-of-view
/// wrapper below hands back points of this library.
#[verifier::external_type_specification]
#[verifier::external_body]
pub struct ExPoint(rltk::Point);

/// The largest radius that [`field_of_view`] is asked for. The outside
/// function reserves room for `(2 * radius)^2` points before it starts.
pub const MAX_VIEW_RADIUS: i32 = 1024;

/// Which tiles block the view: `opacity(g)[y][x]` holds where the tile at
/// `(x, y)` is a wall.
pub open spec fn opacity(g: TileGrid) -> Seq<Seq<bool>> {
    Seq::new(
        MAP_HEIGHT as nat,
        |y: int| Seq::new(MAP_WIDTH as nat, |x: int| cell_at(g, x, y) == TileType::Wall),
    )
}

/// The tiles that a list of points names.
pub open spec fn tiles_of(points: Seq<Coord>) -> Set<(int, int)> {
    Set::new(
        |t: (int, int)|
            exists|i: int|
                0 <= i < points.len() && (#[trigger] points[i]).x == t.0 && points[i].y == t.1,
    )
}

/// What `rltk::field_of_view` sees from `(x, y)` within `radius` on a grid of
/// `MAP_WIDTH` by `MAP_HEIGHT` tiles of which `opaque` tells the walls. The
/// outside function walks the grid by recursive shadow casting; what it
/// returns is a function of these four, and that is all this name claims.
pub uninterp spec fn seen_from(x: int, y: int, radius: int, opaque: Seq<Seq<bool>>) -> Set<(int, int)>;

/// The point of `rltk` with the coordinates `(x, y)`: what `rltk::Point::new`
/// returns for them.
pub uninterp spec fn point_at(x: int, y: int) -> rltk::Point;

/// `rltk::Point::new` on two `i32`. Both are taken as they are, so the point
/// that comes back is the one with these coordinates.
#[verifier::external_body]
fn outside_point(x: i32, y: i32) -> (point: rltk::Point)
    ensures
        point == point_at(x as int, y as int),
{
    rltk::Point::new(x, y)
}

impl BaseMap for DungeonMap {
    /// Walls block the view. So does an index that names no tile.
    fn is_opaque(&self, idx: usize) -> (opaque: bool)
        ensures
            grid_wf(self.map) && idx < MAP_WIDTH * MAP_HEIGHT ==> opaque == opacity(
                self.map,
            )[idx as int / MAP_WIDTH as int][idx as int % MAP_WIDTH as int],
    {
        if idx < (MAP_WIDTH * MAP_HEIGHT) as usize {
            let (x, y) = idx_xy(idx);
            let row = y as usize;
            let column = x as usize;
            if row < self.map.len() && column < self.map[row].len() {
                self.map[row][column] == TileType::Wall
            } else {
                true
            }
        } else {
            true
        }
    }
}

impl Algorithm2D for DungeonMap {
    /// Every grid is `MAP_WIDTH` wide and `MAP_HEIGHT` high, whatever it
    /// holds: the point returned has the width for `x` and the height for `y`.
    fn dimensions(&self) -> (extent: rltk::Point)
        ensures
            extent == point_at(MAP_WIDTH as int, MAP_HEIGHT as int),
    {
        outside_point(MAP_WIDTH, MAP_HEIGHT)
    }
}

/// `rltk::field_of_view` with `map` as the grid that it looks at, through
/// the two impls above. The outside function puts the origin in first,
/// gathers the tiles in a hash set, and ends by dropping every point outside
/// the dimensions of the grid. So the claims are: every point returned is a
/// tile of the grid; the origin is among them; and the tiles returned are
/// those of `seen_from`. The order of the points is that of a hash set, and
/// nothing is claimed of it.
#[verifier::external_body]
pub(crate) fn field_of_view(map: &DungeonMap, x: i32, y: i32, radius: i32) -> (seen: Vec<Coord>)
    requires
        grid_wf(map.map),
        in_bounds(x as int, y as int),
        0 <= radius <= MAX_VIEW_RADIUS,
    ensures
        forall|i: int|
            0 <= i < seen@.len() ==> in_bounds((#[trigger] seen@[i]).x as int, seen@[i].y as int),
        tiles_of(seen@).contains((x as int, y as int)),
        tiles_of(seen@) == seen_from(x as int, y as int, radius as int, opacity(map.map)),
{
    rltk::field_of_view(rltk::Point::new(x, y), radius, map)
        .into_iter()
        .map(|p| Coord { x: p.x, y: p.y })
        .collect()
}

} // verus!
