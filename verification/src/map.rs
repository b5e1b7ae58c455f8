//! The tiles of a level and the generator that digs them.

use vstd::prelude::*;
use vstd::std_specs::slice::into_iter_elts;
use std::ops::Index;
use std::slice::Iter;
use rltk::RandomNumberGenerator;
use crate::digging::{
    after_all, is_run, is_whole_run, lemma_first_candidates_that_fit,
    lemma_run_keeps_rooms_valid, lemma_run_push, rooms_of, Candidate,
};
use crate::grid::{cell_at, filled_grid, grid_wf, set_cell};
use crate::layout::{
    carved_into, corners, corridor_covers, dug, dug_from, fits_among, laid_out, layout_tile,
    lemma_dug_after_room, lemma_dug_push, lower, on_corridor, on_h_run, on_v_run, room_covers,
    room_valid, rooms_valid, sizes, under_construction, upper,
};
use crate::rect::{lemma_center_covered, lemma_intersects_symmetric, Rect};
use crate::rng::{draw_bool, draw_range};
use crate::util::in_bounds;
use crate::{MAP_HEIGHT, MAP_WIDTH};

verus! {

/// Largest width and height of a room.
pub const MAX_ROOM_SIZE: i32 = 7;

/// Smallest width and height of a room.
pub const MIN_ROOM_SIZE: i32 = 4;

/// Number of rooms of every level.
pub const MAX_ROOMS: usize = 7;

/// How many candidates in a row may be turned down for one room before
/// generation gives up.
pub const MAX_PLACEMENT_ATTEMPTS: usize = 1000;

/// Why no level was generated.
#[derive(PartialEq, Eq, Structural, Copy, Clone, Debug)]
pub enum GenerationError {
    /// As many candidates in a row as the generator was allowed to drop
    /// intersected a room already placed.
    OutOfAttempts,
}

/// The tiles of a level, row by row: `grid[y][x]`.
pub type TileGrid = Vec<Vec<TileType>>;

/// What a tile is. A tile holds nothing else.
#[derive(PartialEq, Eq, Structural, Copy, Clone, Debug)]
pub enum TileType {
    Wall,
    Floor,
    Stair,
}

impl TileType {
    /// Floor and stair tiles can be walked on and seen through; walls cannot.
    pub open spec fn walkable(self) -> bool {
        self != TileType::Wall
    }

    /// Executable form of [`TileType::walkable`].
    pub fn is_walkable(self) -> (b: bool)
        ensures
            b == self.walkable(),
    {
        self != TileType::Wall
    }
}

/// A generated level: its tiles, its rooms in the order in which they were
/// placed, the tile on which the player starts and the tile of the stair down.
pub struct DungeonMap {
    pub map: TileGrid,
    pub rooms: Vec<Rect>,
    pub player_spawn: (i32, i32),
    pub stair: (i32, i32),
}

impl DungeonMap {
    /// The tile at `(x, y)`.
    pub open spec fn tile_at(&self, x: int, y: int) -> TileType {
        cell_at(self.map, x, y)
    }

    /// `(x, y)` is a tile of the grid that can be walked on.
    pub open spec fn walkable_at(&self, x: int, y: int) -> bool {
        in_bounds(x, y) && self.tile_at(x, y).walkable()
    }

    /// The level is a finished one: `MAX_ROOMS` valid rooms of which no two
    /// intersect, the spawn at the center of the first and the stair at the
    /// center of the last, and a grid that holds the stair there, floor in the
    /// rooms and on the corridors between successive rooms, and wall
    /// everywhere else.
    pub open spec fn wf(&self) -> bool {
        &&& self.rooms@.len() == MAX_ROOMS
        &&& rooms_valid(self.rooms@)
        &&& (self.player_spawn.0 as int, self.player_spawn.1 as int)
            == self.rooms@.first().center_spec()
        &&& (self.stair.0 as int, self.stair.1 as int) == self.rooms@.last().center_spec()
        &&& exists|bends: Seq<bool>| #[trigger] laid_out(self.map, self.rooms@, bends)
    }

    /// The level is the finished one with the rooms `rooms`, in this order,
    /// and with the corridors that `bends` tells the turns of.
    pub open spec fn made_of(&self, rooms: Seq<Rect>, bends: Seq<bool>) -> bool {
        &&& self.rooms@ == rooms
        &&& rooms.len() == MAX_ROOMS
        &&& rooms_valid(rooms)
        &&& (self.player_spawn.0 as int, self.player_spawn.1 as int) == rooms.first().center_spec()
        &&& (self.stair.0 as int, self.stair.1 as int) == rooms.last().center_spec()
        &&& laid_out(self.map, rooms, bends)
    }
}

/// `made` is how a generation ends that has drawn the candidates `tried`,
/// in this order, and no others: they are a whole run, and `made` is the
/// level made of the rooms that were placed, where all `MAX_ROOMS` were, and
/// the error where they were not, `max_attempts` candidates in a row having
/// been dropped.
pub open spec fn ends_with(
    tried: Seq<Candidate>,
    max_attempts: usize,
    made: Result<DungeonMap, GenerationError>,
) -> bool {
    &&& is_whole_run(tried, max_attempts as nat)
    &&& match made {
        Ok(level) => level.made_of(after_all(tried).rooms, after_all(tried).bends),
        Err(e) => e == GenerationError::OutOfAttempts && after_all(tried).rooms.len() < MAX_ROOMS,
    }
}

/// `made` is how some generation ends that gives up on a room after
/// `max_attempts` candidates in a row.
pub open spec fn generated(max_attempts: usize, made: Result<DungeonMap, GenerationError>) -> bool {
    exists|tried: Seq<Candidate>| #[trigger] ends_with(tried, max_attempts, made)
}

impl DungeonMap {
    /// Generates a level as [`DungeonMap::generate`] does with
    /// `MAX_PLACEMENT_ATTEMPTS` for `max_attempts`: it gives up on a room
    /// after that many candidates in a row, and not before.
    pub fn new(random: &mut RandomNumberGenerator) -> (made: Result<DungeonMap, GenerationError>)
        ensures
            generated(MAX_PLACEMENT_ATTEMPTS, made),
            made matches Ok(level) ==> level.wf(),
            made matches Err(e) ==> e == GenerationError::OutOfAttempts,
    {
        Self::generate(random, MAX_PLACEMENT_ATTEMPTS)
    }

    /// Generates a level. Rooms are drawn one at a time: a width and a
    /// height from [`DungeonMap::size_range`], then a column and a row for the
    /// low corner from [`DungeonMap::corner_range`]. A room that intersects
    /// one already placed is dropped and another is drawn; one that does not
    /// is carved and joined to the room before it by a corridor whose turn a
    /// coin flip picks. Generation ends with `MAX_ROOMS` rooms, or with an
    /// error once `max_attempts` candidates in a row have been dropped.
    ///
    /// What comes back is what [`ends_with`] tells of the candidates that
    /// were drawn: a level made of the rooms that were placed, or the error
    /// where `max_attempts` of them in a row were dropped. With
    /// `max_attempts` at 0 no candidate is drawn and the error is certain;
    /// otherwise which candidates are drawn is up to the random source.
    pub fn generate(random: &mut RandomNumberGenerator, max_attempts: usize) -> (made: Result<DungeonMap, GenerationError>)
        ensures
            generated(max_attempts, made),
            made matches Ok(level) ==> level.wf(),
            made matches Err(e) ==> e == GenerationError::OutOfAttempts,
            max_attempts == 0 ==> made is Err,
    {
        let mut map: TileGrid = filled_grid(TileType::Wall);
        let mut rooms: Vec<Rect> = Vec::new();
        let mut dropped: usize = 0;
        let ghost mut tried: Seq<Candidate> = Seq::empty();
        proof {
            let none: Seq<bool> = Seq::empty();
            assert forall|x: int, y: int| !dug(rooms@, none, x, y) by {}
            assert(dug_from(map, rooms@, none));
            assert(after_all(tried).rooms =~= rooms@);
        }
        while rooms.len() < MAX_ROOMS
            invariant
                is_run(tried, max_attempts as nat),
                after_all(tried).rooms == rooms@,
                after_all(tried).dropped == dropped,
                dug_from(map, rooms@, after_all(tried).bends),
                rooms_valid(rooms@),
                rooms@.len() <= MAX_ROOMS,
                dropped <= max_attempts,
            decreases MAX_ROOMS - rooms@.len(), max_attempts - dropped,
        {
            if Self::out_of_attempts(dropped, max_attempts) {
                let gave_up = Err(GenerationError::OutOfAttempts);
                assert(ends_with(tried, max_attempts, gave_up));
                return gave_up;
            }
            // random width and height
            let sizes = Self::size_range();
            let w = draw_range(random, sizes.0, sizes.1);
            let h = draw_range(random, sizes.0, sizes.1);
            // random position without going out of the boundaries of the map
            let columns = Self::corner_range(MAP_WIDTH, w);
            let x = draw_range(random, columns.0, columns.1);
            let rows = Self::corner_range(MAP_HEIGHT, h);
            let y = draw_range(random, rows.0, rows.1);

            let new_room = Rect::new(x, y, w, h);

            // the first room has no corridor, and no coin is flipped for it
            let horizontal_first = if Self::wants_coin(&rooms, &new_room) {
                draw_bool(random)
            } else {
                false
            };
            let ghost before = map;
            let ghost placed_before = rooms@;
            let ghost bends = after_all(tried).bends;
            let placed = Self::place_or_drop(
                &mut map,
                &mut rooms,
                &mut dropped,
                new_room,
                horizontal_first,
            );
            proof {
                let candidate = Candidate { room: new_room, horizontal_first };
                lemma_run_push(tried, max_attempts as nat, candidate);
                if placed {
                    lemma_dug_after_room(
                        before,
                        map,
                        placed_before,
                        bends,
                        new_room,
                        horizontal_first,
                    );
                }
                tried = tried.push(candidate);
            }
        }
        let ghost dug_map = map;
        let level = Self::finish(map, rooms);
        proof {
            let end = after_all(tried);
            assert forall|x: int, y: int| in_bounds(x, y) implies #[trigger] cell_at(
                level.map,
                x,
                y,
            ) == layout_tile(end.rooms, end.bends, x, y) by {
                assert(level.tile_at(x, y) == (if (x, y) == end.rooms.last().center_spec() {
                    TileType::Stair
                } else {
                    cell_at(dug_map, x, y)
                }));
            }
            assert(level.made_of(end.rooms, end.bends));
            assert(ends_with(tried, max_attempts, Ok(level)));
        }
        Ok(level)
    }

    /// The range that the width and the height of a room are drawn from:
    /// `MIN_ROOM_SIZE` and more, up to `MAX_ROOM_SIZE`, which is counted in.
    /// The second number is the first that is out of the range.
    pub fn size_range() -> (range: (i32, i32))
        ensures
            range.0 == MIN_ROOM_SIZE,
            range.1 == MAX_ROOM_SIZE + 1,
            (range.0 as int, range.1 as int) == sizes(),
    {
        (MIN_ROOM_SIZE, MAX_ROOM_SIZE + 1)
    }

    /// The range that the low corner of a room `size` long is drawn from,
    /// along an axis of `extent` tiles: 1 and more, as long as the room ends
    /// before the last tile but one. The second number is the first that is
    /// out of the range.
    pub fn corner_range(extent: i32, size: i32) -> (range: (i32, i32))
        requires
            0 < size,
            size + 2 < extent,
        ensures
            range.0 == 1,
            range.1 == extent - size - 1,
            (range.0 as int, range.1 as int) == corners(extent as int, size as int),
    {
        (1, extent - size - 1)
    }

    /// Whether generation gives up: as many candidates in a row have been
    /// dropped as there are attempts.
    pub fn out_of_attempts(dropped: usize, max_attempts: usize) -> (gives_up: bool)
        ensures
            gives_up == (dropped >= max_attempts),
    {
        dropped >= max_attempts
    }

    /// Whether a coin is flipped for `candidate`: it is where the candidate
    /// will be placed and a room before it has been, so that there is a
    /// corridor to turn.
    pub fn wants_coin(rooms: &Vec<Rect>, candidate: &Rect) -> (flips: bool)
        ensures
            flips == (rooms@.len() > 0 && fits_among(rooms@, *candidate)),
    {
        !rooms.is_empty() && Self::room_fits(rooms, candidate)
    }

    /// Places `candidate` or drops it. A candidate that intersects no room
    /// placed so far is placed as [`DungeonMap::add_room`] places it, and the
    /// count of candidates dropped in a row starts again at 0. One that
    /// intersects a room is dropped: the count goes up by one, and the grid
    /// and the rooms stay as they are.
    pub fn place_or_drop(map: &mut TileGrid, rooms: &mut Vec<Rect>, dropped: &mut usize, candidate: Rect, horizontal_first: bool) -> (placed: bool)
        requires
            under_construction(*old(map), old(rooms)@),
            room_valid(candidate),
            *old(dropped) < usize::MAX,
        ensures
            placed == fits_among(old(rooms)@, candidate),
            under_construction(*final(map), final(rooms)@),
            placed ==> {
                &&& *final(dropped) == 0
                &&& final(rooms)@ == old(rooms)@.push(candidate)
                &&& carved_into(
                    *old(map),
                    *final(map),
                    |x: int, y: int|
                        candidate.covers(x, y) || (old(rooms)@.len() > 0 && on_corridor(
                            old(rooms)@.last().center_spec(),
                            candidate.center_spec(),
                            horizontal_first,
                            x,
                            y,
                        )),
                )
            },
            !placed ==> {
                &&& *final(dropped) == *old(dropped) + 1
                &&& *final(map) == *old(map)
                &&& final(rooms)@ == old(rooms)@
            },
    {
        if Self::room_fits(rooms, &candidate) {
            Self::add_room(map, rooms, candidate, horizontal_first);
            *dropped = 0;
            true
        } else {
            *dropped = *dropped + 1;
            false
        }
    }

    /// Whether `candidate` intersects none of the rooms placed so far.
    pub fn room_fits(rooms: &Vec<Rect>, candidate: &Rect) -> (fits: bool)
        ensures
            fits == fits_among(rooms@, *candidate),
    {
        let mut i: usize = 0;
        while i < rooms.len()
            invariant
                0 <= i <= rooms.len(),
                forall|k: int| 0 <= k < i ==> !(#[trigger] rooms@[k]).intersects_spec(candidate),
            decreases rooms.len() - i,
        {
            if rooms[i].intersects_with(candidate) {
                return false;
            }
            i += 1;
        }
        true
    }

    /// Places `room` as the next room of a level under construction: carves
    /// it, joins its center to the center of the room placed before it, if
    /// there is one, and appends it to `rooms`. `horizontal_first` picks the
    /// corridor and is not read for the first room.
    pub fn add_room(map: &mut TileGrid, rooms: &mut Vec<Rect>, room: Rect, horizontal_first: bool)
        requires
            under_construction(*old(map), old(rooms)@),
            room_valid(room),
            fits_among(old(rooms)@, room),
        ensures
            final(rooms)@ == old(rooms)@.push(room),
            under_construction(*final(map), final(rooms)@),
            carved_into(
                *old(map),
                *final(map),
                |x: int, y: int|
                    room.covers(x, y) || (old(rooms)@.len() > 0 && on_corridor(
                        old(rooms)@.last().center_spec(),
                        room.center_spec(),
                        horizontal_first,
                        x,
                        y,
                    )),
            ),
    {
        let ghost before = *map;
        let ghost bends = choose|bends: Seq<bool>| #[trigger] dug_from(before, rooms@, bends);
        Self::create_room(room, map);
        let (new_x, new_y) = room.center();
        if !rooms.is_empty() {
            let previous = rooms[rooms.len() - 1];
            assert(room_valid(previous));
            let (prev_x, prev_y) = previous.center();
            Self::create_corridor((prev_x, prev_y), (new_x, new_y), horizontal_first, map);
        }
        rooms.push(room);
        proof {
            let rooms1 = old(rooms)@;
            let bends2 = bends.push(horizontal_first);
            assert forall|x: int, y: int| in_bounds(x, y) implies #[trigger] cell_at(*map, x, y)
                == if dug(rooms@, bends2, x, y) {
                TileType::Floor
            } else {
                TileType::Wall
            } by {
                lemma_dug_push(rooms1, bends, room, horizontal_first, x, y);
                assert(cell_at(before, x, y) == if dug(rooms1, bends, x, y) {
                    TileType::Floor
                } else {
                    TileType::Wall
                });
            }
            assert(dug_from(*map, rooms@, bends2));
        }
    }

    /// Turns a grid with all its rooms dug into a level: the spawn is the
    /// center of the first room, the stair the center of the last, and the
    /// tile there becomes the stair.
    pub fn finish(map: TileGrid, rooms: Vec<Rect>) -> (level: DungeonMap)
        requires
            under_construction(map, rooms@),
            rooms@.len() == MAX_ROOMS,
        ensures
            level.wf(),
            level.rooms@ == rooms@,
            forall|x: int, y: int|
                in_bounds(x, y) ==> #[trigger] level.tile_at(x, y) == (if (x, y)
                    == rooms@.last().center_spec() {
                    TileType::Stair
                } else {
                    cell_at(map, x, y)
                }),
    {
        let ghost bends = choose|bends: Seq<bool>| #[trigger] dug_from(map, rooms@, bends);
        let mut map = map;
        assert(room_valid(rooms@[0]));
        assert(room_valid(rooms@[MAX_ROOMS - 1]));
        let stair = rooms[rooms.len() - 1].center();
        let player_spawn = rooms[0].center();
        set_cell(&mut map, stair.0, stair.1, TileType::Stair);
        let level = DungeonMap { player_spawn, stair, map, rooms };
        assert(laid_out(level.map, level.rooms@, bends));
        level
    }

    /// Carves the half-open box `[x1, x2) x [y1, y2)` of `room` to floor.
    pub fn create_room(room: Rect, map: &mut TileGrid)
        requires
            grid_wf(*old(map)),
            0 <= room.x1 <= room.x2 <= MAP_WIDTH,
            0 <= room.y1 <= room.y2 <= MAP_HEIGHT,
        ensures
            carved_into(*old(map), *final(map), |x: int, y: int| room.covers(x, y)),
    {
        let mut x: i32 = room.x1;
        while x < room.x2
            invariant
                0 <= room.x1 <= x <= room.x2 <= MAP_WIDTH,
                0 <= room.y1 <= room.y2 <= MAP_HEIGHT,
                carved_into(
                    *old(map),
                    *map,
                    |i: int, j: int| room.x1 <= i < x && room.y1 <= j < room.y2,
                ),
            decreases room.x2 - x,
        {
            let mut y: i32 = room.y1;
            while y < room.y2
                invariant
                    0 <= room.x1 <= x < room.x2 <= MAP_WIDTH,
                    0 <= room.y1 <= y <= room.y2 <= MAP_HEIGHT,
                    carved_into(
                        *old(map),
                        *map,
                        |i: int, j: int|
                            (room.x1 <= i < x && room.y1 <= j < room.y2) || (i == x && room.y1
                                <= j < y),
                    ),
                decreases room.y2 - y,
            {
                set_cell(map, x, y, TileType::Floor);
                y += 1;
            }
            x += 1;
        }
    }

    /// Carves row `y` to floor from column `x1` to column `x2`, both counted
    /// in, whichever of the two is the larger.
    pub fn create_h_tunnel(x1: i32, x2: i32, y: i32, map: &mut TileGrid)
        requires
            grid_wf(*old(map)),
            in_bounds(x1 as int, y as int),
            in_bounds(x2 as int, y as int),
        ensures
            carved_into(
                *old(map),
                *final(map),
                |i: int, j: int| on_h_run(x1 as int, x2 as int, y as int, i, j),
            ),
    {
        let first = if x1 <= x2 { x1 } else { x2 };
        let last = if x1 <= x2 { x2 } else { x1 };
        let mut x: i32 = first;
        while x < last + 1
            invariant
                first == lower(x1 as int, x2 as int),
                last == upper(x1 as int, x2 as int),
                0 <= first <= x <= last + 1 <= MAP_WIDTH,
                0 <= y < MAP_HEIGHT,
                carved_into(*old(map), *map, |i: int, j: int| j == y && first <= i < x),
            decreases last + 1 - x,
        {
            set_cell(map, x, y, TileType::Floor);
            x += 1;
        }
    }

    /// Carves column `x` to floor from row `y1` to row `y2`, both counted in,
    /// whichever of the two is the larger.
    pub fn create_v_tunnel(y1: i32, y2: i32, x: i32, map: &mut TileGrid)
        requires
            grid_wf(*old(map)),
            in_bounds(x as int, y1 as int),
            in_bounds(x as int, y2 as int),
        ensures
            carved_into(
                *old(map),
                *final(map),
                |i: int, j: int| on_v_run(y1 as int, y2 as int, x as int, i, j),
            ),
    {
        let first = if y1 <= y2 { y1 } else { y2 };
        let last = if y1 <= y2 { y2 } else { y1 };
        let mut y: i32 = first;
        while y < last + 1
            invariant
                first == lower(y1 as int, y2 as int),
                last == upper(y1 as int, y2 as int),
                0 <= first <= y <= last + 1 <= MAP_HEIGHT,
                0 <= x < MAP_WIDTH,
                carved_into(*old(map), *map, |i: int, j: int| i == x && first <= j < y),
            decreases last + 1 - y,
        {
            set_cell(map, x, y, TileType::Floor);
            y += 1;
        }
    }

    /// Carves the corridor from `from` to `to`: horizontally along the row of
    /// `from` and then vertically along the column of `to`, or vertically
    /// along the column of `from` and then horizontally along the row of `to`.
    pub fn create_corridor(from: (i32, i32), to: (i32, i32), horizontal_first: bool, map: &mut TileGrid)
        requires
            grid_wf(*old(map)),
            in_bounds(from.0 as int, from.1 as int),
            in_bounds(to.0 as int, to.1 as int),
        ensures
            carved_into(
                *old(map),
                *final(map),
                |x: int, y: int|
                    on_corridor(
                        (from.0 as int, from.1 as int),
                        (to.0 as int, to.1 as int),
                        horizontal_first,
                        x,
                        y,
                    ),
            ),
    {
        if horizontal_first {
            Self::create_h_tunnel(from.0, to.0, from.1, map);
            Self::create_v_tunnel(from.1, to.1, to.0, map);
        } else {
            Self::create_v_tunnel(from.1, to.1, from.0, map);
            Self::create_h_tunnel(from.0, to.0, to.1, map);
        }
    }

    /// The rows of the grid, from the top down.
    pub fn iter(&self) -> (rows: Iter<'_, Vec<TileType>>)
        ensures
            into_iter_elts(rows) == self.map@,
    {
        self.map.iter()
    }

    /// The tile at `(x, y)`.
    pub fn tile(&self, x: i32, y: i32) -> (t: TileType)
        requires
            grid_wf(self.map),
            in_bounds(x as int, y as int),
        ensures
            t == self.tile_at(x as int, y as int),
    {
        self[y as usize][x as usize]
    }

    /// Whether the tile at `(x, y)` can be walked on: floor and stair can,
    /// wall cannot.
    pub fn is_walkable(&self, x: i32, y: i32) -> (b: bool)
        requires
            grid_wf(self.map),
            in_bounds(x as int, y as int),
        ensures
            b == self.walkable_at(x as int, y as int),
    {
        self.tile(x, y).is_walkable()
    }
}

impl Index<usize> for DungeonMap {
    type Output = Vec<TileType>;

    /// Row `idx` of the grid.
    fn index(&self, idx: usize) -> (row: &Vec<TileType>)
        ensures
            *row == self.map@[idx as int],
    {
        &self.map[idx]
    }
}

impl vstd::std_specs::core::IndexSpecImpl<usize> for DungeonMap {
    open spec fn index_req(&self, index: &usize) -> bool {
        *index < self.map@.len()
    }
}

/// How a generation ends is told by where its candidates leave it: with a
/// level if and only if all `MAX_ROOMS` rooms have been placed, and with the
/// error if and only if `max_attempts` candidates in a row have been dropped
/// before that. The level is a finished one.
pub proof fn lemma_end_of_generation(
    tried: Seq<Candidate>,
    max_attempts: usize,
    made: Result<DungeonMap, GenerationError>,
)
    requires
        ends_with(tried, max_attempts, made),
    ensures
        made is Ok <==> after_all(tried).rooms.len() == MAX_ROOMS,
        made is Err <==> after_all(tried).rooms.len() < MAX_ROOMS && after_all(tried).dropped
            == max_attempts,
        made matches Ok(level) ==> level.wf(),
        max_attempts == 0 ==> made is Err && tried.len() == 0,
{
    lemma_run_keeps_rooms_valid(tried, max_attempts as nat);
    if let Ok(level) = made {
        assert(laid_out(level.map, level.rooms@, after_all(tried).bends));
    }
}

/// The level that a generation ends with is told by its candidates: two
/// levels made from the same candidates have the same rooms, spawn and stair,
/// and the same tile everywhere.
pub proof fn lemma_candidates_tell_the_level(
    tried: Seq<Candidate>,
    max_attempts: usize,
    one: DungeonMap,
    other: DungeonMap,
    x: int,
    y: int,
)
    requires
        ends_with(tried, max_attempts, Ok(one)),
        ends_with(tried, max_attempts, Ok(other)),
        in_bounds(x, y),
    ensures
        one.rooms@ == other.rooms@,
        one.player_spawn == other.player_spawn,
        one.stair == other.stair,
        one.tile_at(x, y) == other.tile_at(x, y),
{
    let end = after_all(tried);
    assert(one.tile_at(x, y) == layout_tile(end.rooms, end.bends, x, y));
    assert(other.tile_at(x, y) == layout_tile(end.rooms, end.bends, x, y));
}

/// Where the first `MAX_ROOMS` candidates drawn do not intersect one
/// another, and one attempt a room is allowed at least, generation ends
/// with a level after exactly `MAX_ROOMS` candidates, and the rooms of the
/// level are those candidates in the order in which they were drawn.
pub proof fn lemma_first_candidates_make_the_level(
    tried: Seq<Candidate>,
    max_attempts: usize,
    made: Result<DungeonMap, GenerationError>,
)
    requires
        ends_with(tried, max_attempts, made),
        max_attempts >= 1,
        forall|i: int, j: int|
            #![trigger tried[i], tried[j]]
            0 <= i < j < tried.len() && j < MAX_ROOMS ==> !tried[i].room.intersects_spec(
                &tried[j].room,
            ),
    ensures
        tried.len() == MAX_ROOMS,
        made matches Ok(level) && level.rooms@ == rooms_of(tried) && level.wf(),
{
    lemma_first_candidates_that_fit(tried, max_attempts as nat);
    lemma_end_of_generation(tried, max_attempts, made);
}

/// On a finished level no room intersects another, whichever of the two
/// was placed first.
pub proof fn lemma_no_two_rooms_intersect(level: DungeonMap, i: int, j: int)
    requires
        level.wf(),
        0 <= i < level.rooms@.len(),
        0 <= j < level.rooms@.len(),
        i != j,
    ensures
        !level.rooms@[i].intersects_spec(&level.rooms@[j]),
{
    lemma_intersects_symmetric(level.rooms@[i], level.rooms@[j]);
    if i < j {
        assert(!level.rooms@[i].intersects_spec(&level.rooms@[j]));
    } else {
        assert(!level.rooms@[j].intersects_spec(&level.rooms@[i]));
    }
}

/// On a finished level the tiles of every room can be walked on.
pub proof fn lemma_rooms_walkable(level: DungeonMap, i: int, x: int, y: int)
    requires
        level.wf(),
        0 <= i < level.rooms@.len(),
        level.rooms@[i].covers(x, y),
    ensures
        level.walkable_at(x, y),
{
    let bends = choose|bends: Seq<bool>| #[trigger] laid_out(level.map, level.rooms@, bends);
    assert(room_valid(level.rooms@[i]));
    assert(room_covers(level.rooms@, i, x, y));
    assert(level.tile_at(x, y) == layout_tile(level.rooms@, bends, x, y));
}

/// A finished level is walled in: the first and the last column, and the
/// first and the last row, hold nothing but wall. So no step over floor
/// leads off the grid.
pub proof fn lemma_border_is_wall(level: DungeonMap, x: int, y: int)
    requires
        level.wf(),
        in_bounds(x, y),
        x == 0 || x == MAP_WIDTH - 1 || y == 0 || y == MAP_HEIGHT - 1,
    ensures
        level.tile_at(x, y) == TileType::Wall,
{
    let rooms = level.rooms@;
    let bends = choose|bends: Seq<bool>| #[trigger] laid_out(level.map, rooms, bends);
    assert(level.tile_at(x, y) == layout_tile(rooms, bends, x, y));
    assert(room_valid(rooms[MAX_ROOMS - 1]));
    assert forall|i: int| 0 <= i < rooms.len() implies !#[trigger] room_covers(rooms, i, x, y) by {
        assert(room_valid(rooms[i]));
    }
    assert forall|i: int| 1 <= i < rooms.len() implies !#[trigger] corridor_covers(
        rooms,
        bends,
        i,
        x,
        y,
    ) by {
        assert(room_valid(rooms[i - 1]));
        assert(room_valid(rooms[i]));
    }
}

/// On a finished level the spawn tile can be walked on, and so can the
/// stair tile, which holds the stair; the two are different tiles.
pub proof fn lemma_spawn_and_stair(level: DungeonMap)
    requires
        level.wf(),
    ensures
        level.walkable_at(level.player_spawn.0 as int, level.player_spawn.1 as int),
        level.walkable_at(level.stair.0 as int, level.stair.1 as int),
        level.tile_at(level.stair.0 as int, level.stair.1 as int) == TileType::Stair,
        level.player_spawn != level.stair,
{
    let first = level.rooms@.first();
    let last = level.rooms@.last();
    assert(room_valid(level.rooms@[0]));
    assert(room_valid(level.rooms@[MAX_ROOMS - 1]));
    assert(!level.rooms@[0].intersects_spec(&level.rooms@[MAX_ROOMS - 1]));
    lemma_center_covered(first);
    lemma_center_covered(last);
    lemma_rooms_walkable(level, 0, first.center_spec().0, first.center_spec().1);
    lemma_rooms_walkable(level, MAX_ROOMS - 1, last.center_spec().0, last.center_spec().1);
    let bends = choose|bends: Seq<bool>| #[trigger] laid_out(level.map, level.rooms@, bends);
    assert(level.tile_at(last.center_spec().0, last.center_spec().1) == layout_tile(
        level.rooms@,
        bends,
        last.center_spec().0,
        last.center_spec().1,
    ));
}

} // verus!
