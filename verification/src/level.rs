//! A level with what is in view on it and what has been discovered.

use vstd::prelude::*;
use rltk::RandomNumberGenerator;
use crate::fov::{field_of_view, opacity, seen_from, tiles_of};
use crate::grid::{cell_at, filled_grid, grid_wf, has_grid_shape, set_cell};
use crate::map::{generated, DungeonMap, GenerationError, MAX_PLACEMENT_ATTEMPTS};
use crate::util::{in_bounds, Coord};

verus! {

/// How far the player sees, in tiles.
pub const VIEW_RADIUS: i32 = 8;

/// How a tile is drawn.
#[derive(PartialEq, Eq, Structural, Copy, Clone, Debug)]
pub enum Visibility {
    /// In view now: drawn as it is.
    Visible,
    /// Seen before and out of view now: drawn dimmed.
    Remembered,
    /// Never seen: not drawn.
    Unseen,
}

/// The map of the level that was made, or the error where none was.
pub open spec fn map_made(made: Result<Level, GenerationError>) -> Result<DungeonMap, GenerationError> {
    match made {
        Ok(level) => Ok(level.map),
        Err(e) => Err(e),
    }
}

/// One level of the dungeon with what the player sees and has seen of it.
pub struct Level {
    pub map: DungeonMap,
    pub visible: Vec<Vec<bool>>,
    pub discovered: Vec<Vec<bool>>,
    pub stair: (i32, i32),
}

impl Level {
    /// The tile `(x, y)` is in view.
    pub open spec fn is_visible(&self, x: int, y: int) -> bool {
        cell_at(self.visible, x, y)
    }

    /// The tile `(x, y)` has been in view at some time on this level.
    pub open spec fn is_discovered(&self, x: int, y: int) -> bool {
        cell_at(self.discovered, x, y)
    }

    /// The map and both grids of flags have the size of a level.
    pub open spec fn shaped(&self) -> bool {
        &&& grid_wf(self.map.map)
        &&& grid_wf(self.visible)
        &&& grid_wf(self.discovered)
    }

    /// The level is a finished one, both grids of flags have the size of
    /// the map, the stair is that of the map, and every tile in view has
    /// been discovered.
    pub open spec fn wf(&self) -> bool {
        &&& self.map.wf()
        &&& self.shaped()
        &&& self.stair == self.map.stair
        &&& forall|x: int, y: int|
            in_bounds(x, y) && #[trigger] self.is_visible(x, y) ==> self.is_discovered(x, y)
    }

    /// Nothing is in view and nothing has been discovered.
    pub open spec fn unexplored(&self) -> bool {
        forall|x: int, y: int|
            in_bounds(x, y) ==> !(#[trigger] self.is_visible(x, y)) && !self.is_discovered(x, y)
    }

    /// Every tile that `earlier` has discovered, `self` has discovered too.
    pub open spec fn remembers(&self, earlier: &Level) -> bool {
        forall|x: int, y: int|
            in_bounds(x, y) && #[trigger] earlier.is_discovered(x, y) ==> self.is_discovered(x, y)
    }

    /// `self` is `before` after the tiles `seen` have come into view: the
    /// map and the stair are the same, the tiles in view are exactly those
    /// of `seen`, and the tiles discovered are those discovered before and
    /// those of `seen`.
    pub open spec fn shows(&self, before: &Level, seen: Set<(int, int)>) -> bool {
        &&& self.map == before.map
        &&& self.stair == before.stair
        &&& grid_wf(self.visible)
        &&& grid_wf(self.discovered)
        &&& forall|x: int, y: int|
            in_bounds(x, y) ==> #[trigger] self.is_visible(x, y) == seen.contains((x, y))
        &&& forall|x: int, y: int|
            in_bounds(x, y) ==> #[trigger] self.is_discovered(x, y) == (before.is_discovered(x, y)
                || seen.contains((x, y)))
    }

    /// How the tile `(x, y)` is to be drawn: as it is while in view, dimmed
    /// once it has been discovered and is out of view, and not at all before.
    pub open spec fn visibility_of(&self, x: int, y: int) -> Visibility {
        if self.is_visible(x, y) {
            Visibility::Visible
        } else if self.is_discovered(x, y) {
            Visibility::Remembered
        } else {
            Visibility::Unseen
        }
    }

    /// Executable form of [`Level::shaped`].
    pub fn is_shaped(&self) -> (b: bool)
        ensures
            b == self.shaped(),
    {
        has_grid_shape(&self.map.map) && has_grid_shape(&self.visible) && has_grid_shape(
            &self.discovered,
        )
    }

    /// The level with the map `map` on which nothing has been seen yet.
    pub fn unexplored_on(map: DungeonMap) -> (level: Level)
        ensures
            level.map == map,
            level.stair == map.stair,
            grid_wf(level.visible),
            grid_wf(level.discovered),
            level.unexplored(),
            map.wf() ==> level.wf(),
    {
        let visible = filled_grid(false);
        let discovered = filled_grid(false);
        Level { stair: map.stair, map, visible, discovered }
    }

    /// Generates a level on which nothing has been seen yet: the level
    /// that [`Level::unexplored_on`] makes of the map that
    /// [`DungeonMap::new`] generates, or the error with which that gives up.
    pub fn new(random: &mut RandomNumberGenerator) -> (made: Result<Level, GenerationError>)
        ensures
            generated(MAX_PLACEMENT_ATTEMPTS, map_made(made)),
            made matches Ok(level) ==> level.wf() && level.unexplored(),
            made matches Err(e) ==> e == GenerationError::OutOfAttempts,
    {
        match DungeonMap::new(random) {
            Ok(map) => Ok(Level::unexplored_on(map)),
            Err(e) => Err(e),
        }
    }

    /// Takes everything out of view, then brings the tiles of `seen` into
    /// view and marks them discovered.
    pub fn show(&mut self, seen: &Vec<Coord>)
        requires
            old(self).shaped(),
            forall|i: int|
                0 <= i < seen@.len() ==> in_bounds((#[trigger] seen@[i]).x as int, seen@[i].y as int),
        ensures
            final(self).shows(old(self), tiles_of(seen@)),
            old(self).wf() ==> final(self).wf(),
    {
        self.visible = filled_grid(false);
        let mut i: usize = 0;
        while i < seen.len()
            invariant
                0 <= i <= seen@.len(),
                forall|k: int|
                    0 <= k < seen@.len() ==> in_bounds(
                        (#[trigger] seen@[k]).x as int,
                        seen@[k].y as int,
                    ),
                self.shows(old(self), tiles_of(seen@.take(i as int))),
            decreases seen@.len() - i,
        {
            let p = seen[i];
            let ghost before = *self;
            set_cell(&mut self.visible, p.x, p.y, true);
            set_cell(&mut self.discovered, p.x, p.y, true);
            proof {
                let earlier = tiles_of(seen@.take(i as int));
                let now = tiles_of(seen@.take(i + 1));
                assert forall|x: int, y: int| now.contains((x, y)) == (earlier.contains((x, y)) || (x
                    == p.x && y == p.y)) by {
                    lemma_tiles_of_take(seen@, i as int, x, y);
                }
                assert forall|x: int, y: int| in_bounds(x, y) implies #[trigger] self.is_visible(
                    x,
                    y,
                ) == now.contains((x, y)) by {
                    assert(before.is_visible(x, y) == earlier.contains((x, y)));
                }
                assert forall|x: int, y: int| in_bounds(x, y) implies #[trigger] self.is_discovered(
                    x,
                    y,
                ) == (old(self).is_discovered(x, y) || now.contains((x, y))) by {
                    assert(before.is_discovered(x, y) == (old(self).is_discovered(x, y)
                        || earlier.contains((x, y))));
                }
            }
            i += 1;
        }
        assert(seen@.take(seen@.len() as int) == seen@);
    }

    /// Works out anew what is in view from `(x, y)`: everything goes out of
    /// view, then the tiles that the field of view returns for a viewer at
    /// `(x, y)` with radius `VIEW_RADIUS` come into view and are marked
    /// discovered. The viewer's own tile is always among them.
    pub fn update_visibility(&mut self, x: i32, y: i32)
        requires
            old(self).shaped(),
            in_bounds(x as int, y as int),
        ensures
            old(self).wf() ==> final(self).wf(),
            final(self).shows(
                old(self),
                seen_from(x as int, y as int, VIEW_RADIUS as int, opacity(old(self).map.map)),
            ),
            final(self).is_visible(x as int, y as int),
            final(self).remembers(old(self)),
    {
        let seen = field_of_view(&self.map, x, y, VIEW_RADIUS);
        self.show(&seen);
    }

    /// How the tile `(x, y)` is to be drawn.
    pub fn visibility_at(&self, x: i32, y: i32) -> (v: Visibility)
        requires
            self.shaped(),
            in_bounds(x as int, y as int),
        ensures
            v == self.visibility_of(x as int, y as int),
    {
        if self.visible[y as usize][x as usize] {
            Visibility::Visible
        } else if self.discovered[y as usize][x as usize] {
            Visibility::Remembered
        } else {
            Visibility::Unseen
        }
    }
}

/// Between state `k` of `trace` and the next, nothing changed, or the
/// player looked around: some set of tiles came into view.
pub open spec fn looks_on(trace: Seq<Level>, k: int) -> bool {
    ||| trace[k + 1] == trace[k]
    ||| exists|seen: Set<(int, int)>| #[trigger] trace[k + 1].shows(&trace[k], seen)
}

/// `trace` holds the states that one level goes through, tick after tick,
/// while the player stays on it.
pub open spec fn is_exploration(trace: Seq<Level>) -> bool {
    forall|k: int| 0 <= k < trace.len() - 1 ==> #[trigger] looks_on(trace, k)
}

/// Over any number of ticks on one level the map stays what it was, no
/// tile that has been discovered is forgotten, and every tile in view is
/// a discovered one.
pub proof fn lemma_discoveries_kept(trace: Seq<Level>, i: int, j: int)
    requires
        is_exploration(trace),
        0 <= i <= j < trace.len(),
        trace[0].wf(),
    ensures
        trace[j].wf(),
        trace[j].map == trace[i].map,
        trace[j].remembers(&trace[i]),
        forall|x: int, y: int|
            in_bounds(x, y) && #[trigger] trace[j].is_visible(x, y) ==> trace[j].is_discovered(x, y),
    decreases j,
{
    if j > 0 {
        assert(looks_on(trace, j - 1));
        if i < j {
            lemma_discoveries_kept(trace, i, j - 1);
        } else {
            lemma_discoveries_kept(trace, 0, j - 1);
        }
    }
}

/// The tiles named by the first `i + 1` points are those named by the first
/// `i` points and the tile of point `i`.
pub proof fn lemma_tiles_of_take(points: Seq<Coord>, i: int, x: int, y: int)
    requires
        0 <= i < points.len(),
    ensures
        tiles_of(points.take(i + 1)).contains((x, y)) == (tiles_of(points.take(i)).contains((x, y))
            || (points[i].x == x && points[i].y == y)),
{
    let shorter = points.take(i);
    let longer = points.take(i + 1);
    if tiles_of(shorter).contains((x, y)) {
        let k = choose|k: int|
            0 <= k < shorter.len() && (#[trigger] shorter[k]).x == x && shorter[k].y == y;
        assert(longer[k].x == x && longer[k].y == y);
    }
    if points[i].x == x && points[i].y == y {
        assert(longer[i].x == x && longer[i].y == y);
    }
    if tiles_of(longer).contains((x, y)) {
        let k = choose|k: int|
            0 <= k < longer.len() && (#[trigger] longer[k]).x == x && longer[k].y == y;
        if k < i {
            assert(shorter[k].x == x && shorter[k].y == y);
        }
    }
}

} // verus!
