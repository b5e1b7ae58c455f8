//! Walks over floor, and why every room of a level can be reached.

use vstd::prelude::*;
use crate::layout::{
    corridor_covers, laid_out, layout_tile, lower, on_corridor, on_h_run, on_v_run, room_valid,
    upper,
};
use crate::map::{lemma_rooms_walkable, DungeonMap, MAX_ROOMS};
use crate::player::Player;
use crate::rect::lemma_center_covered;
use crate::util::in_bounds;

verus! {

/// Two tiles share an edge: one step up, down, left or right leads from one
/// to the other.
pub open spec fn adjacent(a: (int, int), b: (int, int)) -> bool {
    ||| a.0 == b.0 && (a.1 == b.1 + 1 || b.1 == a.1 + 1)
    ||| a.1 == b.1 && (a.0 == b.0 + 1 || b.0 == a.0 + 1)
}

/// Tile `k + 1` of `path` is adjacent to tile `k`.
pub open spec fn steps_on(path: Seq<(int, int)>, k: int) -> bool {
    adjacent(path[k], path[k + 1])
}

impl DungeonMap {
    /// `path` is a walk: it has a tile, each of its tiles can be walked on,
    /// and each but the first is adjacent to the one before.
    pub open spec fn is_walk(&self, path: Seq<(int, int)>) -> bool {
        &&& path.len() > 0
        &&& forall|k: int|
            0 <= k < path.len() ==> self.walkable_at((#[trigger] path[k]).0, path[k].1)
        &&& forall|k: int| 0 <= k < path.len() - 1 ==> #[trigger] steps_on(path, k)
    }

    /// `path` is a walk from `from` to `to`.
    pub open spec fn walks(&self, path: Seq<(int, int)>, from: (int, int), to: (int, int)) -> bool {
        self.is_walk(path) && path.first() == from && path.last() == to
    }

    /// Some walk leads from `from` to `to`: the player can get from one to
    /// the other by steps along rows and columns over floor and stair.
    pub open spec fn reachable(&self, from: (int, int), to: (int, int)) -> bool {
        exists|path: Seq<(int, int)>| #[trigger] self.walks(path, from, to)
    }
}

/// Each step of a walk is one that the player can take: a player on tile
/// `k` of a walk who steps toward tile `k + 1` arrives there.
pub proof fn lemma_player_follows_walk(level: DungeonMap, path: Seq<(int, int)>, k: int, player: Player)
    requires
        level.is_walk(path),
        0 <= k < path.len() - 1,
        (player.position.0 as int, player.position.1 as int) == path[k],
    ensures
        ({
            let dx = path[k + 1].0 - path[k].0;
            let dy = path[k + 1].1 - path[k].1;
            let moved = player.stepped(dx, dy, &level);
            &&& -1 <= dx <= 1
            &&& -1 <= dy <= 1
            &&& (moved.position.0 as int, moved.position.1 as int) == path[k + 1]
            &&& moved.has_moved
        }),
{
    assert(steps_on(path, k));
    assert(level.walkable_at(path[k + 1].0, path[k + 1].1));
}

/// A tile that can be walked on is reachable from itself.
pub proof fn lemma_reachable_here(level: DungeonMap, at: (int, int))
    requires
        level.walkable_at(at.0, at.1),
    ensures
        level.reachable(at, at),
{
    assert(level.walks(seq![at], at, at));
}

/// A walk to a tile and a walk on from it make a walk.
pub proof fn lemma_reachable_via(level: DungeonMap, from: (int, int), via: (int, int), to: (int, int))
    requires
        level.reachable(from, via),
        level.reachable(via, to),
    ensures
        level.reachable(from, to),
{
    let first = choose|path: Seq<(int, int)>| #[trigger] level.walks(path, from, via);
    let second = choose|path: Seq<(int, int)>| #[trigger] level.walks(path, via, to);
    let whole = first + second.drop_first();
    assert forall|k: int| 0 <= k < whole.len() implies level.walkable_at(
        (#[trigger] whole[k]).0,
        whole[k].1,
    ) by {
        if k >= first.len() {
            assert(whole[k] == second[k - first.len() + 1]);
        }
    }
    assert forall|k: int| 0 <= k < whole.len() - 1 implies #[trigger] steps_on(whole, k) by {
        if k + 1 < first.len() {
            assert(steps_on(first, k));
        } else {
            let j = k - first.len() + 1;
            assert(steps_on(second, j));
            assert(whole[k + 1] == second[j + 1]);
            if j == 0 {
                assert(whole[k] == first.last());
            } else {
                assert(whole[k] == second[j]);
            }
        }
    }
    assert(level.walks(whole, from, to));
}

/// Where every tile of a row between two columns can be walked on, the one
/// end is reachable from the other.
pub proof fn lemma_h_run_reachable(level: DungeonMap, xa: int, xb: int, row: int)
    requires
        forall|x: int, y: int| on_h_run(xa, xb, row, x, y) ==> level.walkable_at(x, y),
    ensures
        level.reachable((xa, row), (xb, row)),
    decreases upper(xa, xb) - lower(xa, xb),
{
    assert(on_h_run(xa, xb, row, xa, row));
    if xa == xb {
        lemma_reachable_here(level, (xa, row));
    } else {
        let next = if xa < xb {
            xa + 1
        } else {
            xa - 1
        };
        assert(on_h_run(xa, xb, row, next, row));
        assert forall|x: int, y: int| on_h_run(next, xb, row, x, y) implies level.walkable_at(
            x,
            y,
        ) by {
            assert(on_h_run(xa, xb, row, x, y));
        }
        lemma_h_run_reachable(level, next, xb, row);
        let hop = seq![(xa, row), (next, row)];
        assert(steps_on(hop, 0));
        assert(level.walks(hop, (xa, row), (next, row)));
        lemma_reachable_via(level, (xa, row), (next, row), (xb, row));
    }
}

/// Where every tile of a column between two rows can be walked on, the one
/// end is reachable from the other.
pub proof fn lemma_v_run_reachable(level: DungeonMap, ya: int, yb: int, col: int)
    requires
        forall|x: int, y: int| on_v_run(ya, yb, col, x, y) ==> level.walkable_at(x, y),
    ensures
        level.reachable((col, ya), (col, yb)),
    decreases upper(ya, yb) - lower(ya, yb),
{
    assert(on_v_run(ya, yb, col, col, ya));
    if ya == yb {
        lemma_reachable_here(level, (col, ya));
    } else {
        let next = if ya < yb {
            ya + 1
        } else {
            ya - 1
        };
        assert(on_v_run(ya, yb, col, col, next));
        assert forall|x: int, y: int| on_v_run(next, yb, col, x, y) implies level.walkable_at(
            x,
            y,
        ) by {
            assert(on_v_run(ya, yb, col, x, y));
        }
        lemma_v_run_reachable(level, next, yb, col);
        let hop = seq![(col, ya), (col, next)];
        assert(steps_on(hop, 0));
        assert(level.walks(hop, (col, ya), (col, next)));
        lemma_reachable_via(level, (col, ya), (col, next), (col, yb));
    }
}

/// Where every tile of a corridor can be walked on, its far end is
/// reachable from its near end.
pub proof fn lemma_corridor_reachable(
    level: DungeonMap,
    from: (int, int),
    to: (int, int),
    horizontal_first: bool,
)
    requires
        forall|x: int, y: int|
            on_corridor(from, to, horizontal_first, x, y) ==> level.walkable_at(x, y),
    ensures
        level.reachable(from, to),
{
    if horizontal_first {
        assert forall|x: int, y: int| on_h_run(from.0, to.0, from.1, x, y) implies level.walkable_at(
            x,
            y,
        ) by {
            assert(on_corridor(from, to, horizontal_first, x, y));
        }
        assert forall|x: int, y: int| on_v_run(from.1, to.1, to.0, x, y) implies level.walkable_at(
            x,
            y,
        ) by {
            assert(on_corridor(from, to, horizontal_first, x, y));
        }
        lemma_h_run_reachable(level, from.0, to.0, from.1);
        lemma_v_run_reachable(level, from.1, to.1, to.0);
        lemma_reachable_via(level, from, (to.0, from.1), to);
    } else {
        assert forall|x: int, y: int| on_v_run(from.1, to.1, from.0, x, y) implies level.walkable_at(
            x,
            y,
        ) by {
            assert(on_corridor(from, to, horizontal_first, x, y));
        }
        assert forall|x: int, y: int| on_h_run(from.0, to.0, to.1, x, y) implies level.walkable_at(
            x,
            y,
        ) by {
            assert(on_corridor(from, to, horizontal_first, x, y));
        }
        lemma_v_run_reachable(level, from.1, to.1, from.0);
        lemma_h_run_reachable(level, from.0, to.0, to.1);
        lemma_reachable_via(level, from, (from.0, to.1), to);
    }
}

/// On a finished level the center of each room but the first is reachable
/// from the center of the room placed before it: the corridor between the
/// two is floor, or the stair, all along.
pub proof fn lemma_next_room_reachable(level: DungeonMap, i: int)
    requires
        level.wf(),
        1 <= i < level.rooms@.len(),
    ensures
        level.reachable(level.rooms@[i - 1].center_spec(), level.rooms@[i].center_spec()),
{
    let rooms = level.rooms@;
    let bends = choose|bends: Seq<bool>| #[trigger] laid_out(level.map, rooms, bends);
    let from = rooms[i - 1].center_spec();
    let to = rooms[i].center_spec();
    assert(room_valid(rooms[i - 1]));
    assert(room_valid(rooms[i]));
    lemma_center_covered(rooms[i - 1]);
    lemma_center_covered(rooms[i]);
    assert forall|x: int, y: int| on_corridor(from, to, bends[i], x, y) implies level.walkable_at(
        x,
        y,
    ) by {
        assert(in_bounds(x, y));
        assert(corridor_covers(rooms, bends, i, x, y));
        assert(level.tile_at(x, y) == layout_tile(rooms, bends, x, y));
    }
    lemma_corridor_reachable(level, from, to, bends[i]);
}

/// On a finished level the center of every room is reachable from the
/// spawn tile.
pub proof fn lemma_room_reachable(level: DungeonMap, i: int)
    requires
        level.wf(),
        0 <= i < level.rooms@.len(),
    ensures
        level.reachable(
            (level.player_spawn.0 as int, level.player_spawn.1 as int),
            level.rooms@[i].center_spec(),
        ),
    decreases i,
{
    let spawn = (level.player_spawn.0 as int, level.player_spawn.1 as int);
    if i == 0 {
        assert(room_valid(level.rooms@[0]));
        lemma_center_covered(level.rooms@[0]);
        lemma_rooms_walkable(level, 0, spawn.0, spawn.1);
        lemma_reachable_here(level, spawn);
    } else {
        lemma_room_reachable(level, i - 1);
        lemma_next_room_reachable(level, i);
        lemma_reachable_via(
            level,
            spawn,
            level.rooms@[i - 1].center_spec(),
            level.rooms@[i].center_spec(),
        );
    }
}

/// On a finished level the stair is reachable from the spawn tile.
pub proof fn lemma_stair_reachable(level: DungeonMap)
    requires
        level.wf(),
    ensures
        level.reachable(
            (level.player_spawn.0 as int, level.player_spawn.1 as int),
            (level.stair.0 as int, level.stair.1 as int),
        ),
{
    lemma_room_reachable(level, MAX_ROOMS - 1);
}

} // verus!
