//! What the tiles of a level are, told from its rooms and corridors.

use vstd::prelude::*;
use crate::grid::{cell_at, grid_wf};
use crate::map::{TileGrid, TileType, MAX_ROOM_SIZE, MIN_ROOM_SIZE};
use crate::rect::Rect;
use crate::util::in_bounds;
use crate::{MAP_HEIGHT, MAP_WIDTH};

verus! {

/// The smaller of two numbers.
pub open spec fn lower(a: int, b: int) -> int {
    if a <= b {
        a
    } else {
        b
    }
}

/// The larger of two numbers.
pub open spec fn upper(a: int, b: int) -> int {
    if a <= b {
        b
    } else {
        a
    }
}

/// `(x, y)` lies in row `row`, between the columns `xa` and `xb`, both
/// counted in, whichever of the two is the larger.
pub open spec fn on_h_run(xa: int, xb: int, row: int, x: int, y: int) -> bool {
    y == row && lower(xa, xb) <= x <= upper(xa, xb)
}

/// `(x, y)` lies in column `col`, between the rows `ya` and `yb`, both
/// counted in, whichever of the two is the larger.
pub open spec fn on_v_run(ya: int, yb: int, col: int, x: int, y: int) -> bool {
    x == col && lower(ya, yb) <= y <= upper(ya, yb)
}

/// The grid `after` is the grid `before` with floor on every tile that
/// `region` holds, and nothing else changed.
pub open spec fn carved_into(
    before: TileGrid,
    after: TileGrid,
    region: spec_fn(int, int) -> bool,
) -> bool {
    &&& grid_wf(after)
    &&& forall|x: int, y: int|
        in_bounds(x, y) ==> #[trigger] cell_at(after, x, y) == if region(x, y) {
            TileType::Floor
        } else {
            cell_at(before, x, y)
        }
}

/// `(x, y)` lies on the L-shaped corridor from `from` to `to`. One that
/// goes horizontally first runs along the row of `from` and then along the
/// column of `to`; the other runs along the column of `from` and then along
/// the row of `to`.
pub open spec fn on_corridor(
    from: (int, int),
    to: (int, int),
    horizontal_first: bool,
    x: int,
    y: int,
) -> bool {
    if horizontal_first {
        on_h_run(from.0, to.0, from.1, x, y) || on_v_run(from.1, to.1, to.0, x, y)
    } else {
        on_v_run(from.1, to.1, from.0, x, y) || on_h_run(from.0, to.0, to.1, x, y)
    }
}

/// A room as the generator places it: each side between `MIN_ROOM_SIZE` and
/// `MAX_ROOM_SIZE` long, the low corner at 1 or more, and the high corner
/// short of the last column and row.
pub open spec fn room_valid(r: Rect) -> bool {
    &&& MIN_ROOM_SIZE <= r.x2 - r.x1 <= MAX_ROOM_SIZE
    &&& MIN_ROOM_SIZE <= r.y2 - r.y1 <= MAX_ROOM_SIZE
    &&& 1 <= r.x1
    &&& r.x2 < MAP_WIDTH - 1
    &&& 1 <= r.y1
    &&& r.y2 < MAP_HEIGHT - 1
}

/// `n` lies in the half-open range from `range.0` up to `range.1`, which is
/// not counted in.
pub open spec fn in_range(range: (int, int), n: int) -> bool {
    range.0 <= n < range.1
}

/// The range that the width and the height of a room are drawn from.
pub open spec fn sizes() -> (int, int) {
    (MIN_ROOM_SIZE as int, MAX_ROOM_SIZE + 1)
}

/// The range that the low corner of a room `size` long is drawn from, along
/// an axis of `extent` tiles.
pub open spec fn corners(extent: int, size: int) -> (int, int) {
    (1, extent - size - 1)
}

/// The valid rooms are those that the draws can give, and no others: a
/// room is valid if and only if its width and its height lie in the range of
/// sizes, and the column and the row of its low corner in the range of
/// corners for that width and that height.
pub proof fn lemma_valid_rooms_are_those_drawn(r: Rect)
    ensures
        room_valid(r) <==> {
            &&& in_range(sizes(), r.x2 - r.x1)
            &&& in_range(sizes(), r.y2 - r.y1)
            &&& in_range(corners(MAP_WIDTH as int, r.x2 - r.x1), r.x1 as int)
            &&& in_range(corners(MAP_HEIGHT as int, r.y2 - r.y1), r.y1 as int)
        },
{
}

/// `candidate` intersects none of `rooms`.
pub open spec fn fits_among(rooms: Seq<Rect>, candidate: Rect) -> bool {
    forall|i: int| 0 <= i < rooms.len() ==> !(#[trigger] rooms[i]).intersects_spec(&candidate)
}

/// Every room is valid and no two rooms intersect.
pub open spec fn rooms_valid(rooms: Seq<Rect>) -> bool {
    &&& forall|i: int| 0 <= i < rooms.len() ==> room_valid(#[trigger] rooms[i])
    &&& forall|i: int, j: int|
        #![trigger rooms[i], rooms[j]]
        0 <= i < j < rooms.len() ==> !rooms[i].intersects_spec(&rooms[j])
}

/// Room `i` covers `(x, y)`.
pub open spec fn room_covers(rooms: Seq<Rect>, i: int, x: int, y: int) -> bool {
    rooms[i].covers(x, y)
}

/// `(x, y)` lies on the corridor that joins room `i - 1` to room `i`;
/// `bends[i]` tells whether that corridor goes horizontally first.
pub open spec fn corridor_covers(rooms: Seq<Rect>, bends: Seq<bool>, i: int, x: int, y: int) -> bool {
    on_corridor(rooms[i - 1].center_spec(), rooms[i].center_spec(), bends[i], x, y)
}

/// `(x, y)` has been dug out: it lies in a room, or on the corridor between
/// two rooms placed one after the other.
pub open spec fn dug(rooms: Seq<Rect>, bends: Seq<bool>, x: int, y: int) -> bool {
    ||| exists|i: int| 0 <= i < rooms.len() && #[trigger] room_covers(rooms, i, x, y)
    ||| exists|i: int| 1 <= i < rooms.len() && #[trigger] corridor_covers(rooms, bends, i, x, y)
}

/// The grid holds floor exactly where `rooms` and their corridors have been
/// dug, and wall everywhere else.
pub open spec fn dug_from(g: TileGrid, rooms: Seq<Rect>, bends: Seq<bool>) -> bool {
    &&& grid_wf(g)
    &&& bends.len() == rooms.len()
    &&& forall|x: int, y: int|
        in_bounds(x, y) ==> #[trigger] cell_at(g, x, y) == if dug(rooms, bends, x, y) {
            TileType::Floor
        } else {
            TileType::Wall
        }
}

/// A level under construction: valid rooms that do not intersect, and a
/// grid dug from them with some choice of corridor for each pair of
/// successive rooms.
pub open spec fn under_construction(g: TileGrid, rooms: Seq<Rect>) -> bool {
    &&& rooms_valid(rooms)
    &&& exists|bends: Seq<bool>| #[trigger] dug_from(g, rooms, bends)
}

/// The tile that a finished level has at `(x, y)`: the stair at the center
/// of the last room, floor where something has been dug, wall elsewhere.
pub open spec fn layout_tile(rooms: Seq<Rect>, bends: Seq<bool>, x: int, y: int) -> TileType {
    if (x, y) == rooms.last().center_spec() {
        TileType::Stair
    } else if dug(rooms, bends, x, y) {
        TileType::Floor
    } else {
        TileType::Wall
    }
}

/// The grid is that of the finished level with these rooms and corridors.
pub open spec fn laid_out(g: TileGrid, rooms: Seq<Rect>, bends: Seq<bool>) -> bool {
    &&& grid_wf(g)
    &&& bends.len() == rooms.len()
    &&& forall|x: int, y: int|
        in_bounds(x, y) ==> #[trigger] cell_at(g, x, y) == layout_tile(rooms, bends, x, y)
}

/// Digging one more room, and the corridor to it from the room before,
/// adds exactly the tiles of the two to what was dug.
pub proof fn lemma_dug_push(
    rooms: Seq<Rect>,
    bends: Seq<bool>,
    room: Rect,
    horizontal_first: bool,
    x: int,
    y: int,
)
    requires
        bends.len() == rooms.len(),
    ensures
        dug(rooms.push(room), bends.push(horizontal_first), x, y) == (dug(rooms, bends, x, y)
            || room.covers(x, y) || (rooms.len() > 0 && on_corridor(
            rooms.last().center_spec(),
            room.center_spec(),
            horizontal_first,
            x,
            y,
        ))),
{
    let rooms2 = rooms.push(room);
    let bends2 = bends.push(horizontal_first);
    let n = rooms.len() as int;
    if dug(rooms, bends, x, y) {
        if exists|i: int| 0 <= i < rooms.len() && #[trigger] room_covers(rooms, i, x, y) {
            let i = choose|i: int| 0 <= i < rooms.len() && #[trigger] room_covers(rooms, i, x, y);
            assert(room_covers(rooms2, i, x, y));
        } else {
            let i = choose|i: int|
                1 <= i < rooms.len() && #[trigger] corridor_covers(rooms, bends, i, x, y);
            assert(corridor_covers(rooms2, bends2, i, x, y));
        }
    }
    if room.covers(x, y) {
        assert(room_covers(rooms2, n, x, y));
    }
    if n > 0 && on_corridor(rooms.last().center_spec(), room.center_spec(), horizontal_first, x, y) {
        assert(corridor_covers(rooms2, bends2, n, x, y));
    }
    if dug(rooms2, bends2, x, y) {
        if exists|i: int| 0 <= i < rooms2.len() && #[trigger] room_covers(rooms2, i, x, y) {
            let i = choose|i: int| 0 <= i < rooms2.len() && #[trigger] room_covers(rooms2, i, x, y);
            if i < n {
                assert(room_covers(rooms, i, x, y));
            }
        } else {
            let i = choose|i: int|
                1 <= i < rooms2.len() && #[trigger] corridor_covers(rooms2, bends2, i, x, y);
            if i < n {
                assert(corridor_covers(rooms, bends, i, x, y));
            }
        }
    }
}

/// A grid dug from some rooms, with one more room carved into it and the
/// corridor to that room from the room before, is the grid dug from the
/// rooms with that room added.
pub proof fn lemma_dug_after_room(
    before: TileGrid,
    after: TileGrid,
    rooms: Seq<Rect>,
    bends: Seq<bool>,
    room: Rect,
    horizontal_first: bool,
)
    requires
        dug_from(before, rooms, bends),
        grid_wf(after),
        forall|x: int, y: int|
            in_bounds(x, y) ==> #[trigger] cell_at(after, x, y) == (if room.covers(x, y) || (
            rooms.len() > 0 && on_corridor(
                rooms.last().center_spec(),
                room.center_spec(),
                horizontal_first,
                x,
                y,
            )) {
                TileType::Floor
            } else {
                cell_at(before, x, y)
            }),
    ensures
        dug_from(after, rooms.push(room), bends.push(horizontal_first)),
{
    assert forall|x: int, y: int| in_bounds(x, y) implies #[trigger] cell_at(after, x, y) == (if dug(
        rooms.push(room),
        bends.push(horizontal_first),
        x,
        y,
    ) {
        TileType::Floor
    } else {
        TileType::Wall
    }) by {
        lemma_dug_push(rooms, bends, room, horizontal_first, x, y);
        assert(cell_at(before, x, y) == (if dug(rooms, bends, x, y) {
            TileType::Floor
        } else {
            TileType::Wall
        }));
    }
}

} // verus!
