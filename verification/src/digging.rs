//! The course of a generation, told from the candidates that were drawn.

use vstd::prelude::*;
use crate::layout::{fits_among, room_valid, rooms_valid};
use crate::map::MAX_ROOMS;
use crate::rect::Rect;

verus! {

/// A room as it was drawn, with the turn that the coin picked for its
/// corridor. Where no coin was flipped for the room, the turn is `false`.
pub struct Candidate {
    pub room: Rect,
    pub horizontal_first: bool,
}

/// Where a generation stands between two candidates: the rooms placed so
/// far, the turn of the corridor that leads to each, and the number of
/// candidates dropped since the last room was placed.
pub struct Digging {
    pub rooms: Seq<Rect>,
    pub bends: Seq<bool>,
    pub dropped: nat,
}

impl Digging {
    /// No room placed and no candidate dropped.
    pub open spec fn start() -> Digging {
        Digging { rooms: Seq::empty(), bends: Seq::empty(), dropped: 0 }
    }

    /// Another candidate is drawn: rooms are still missing, and fewer than
    /// `max_attempts` candidates have been dropped in a row.
    pub open spec fn goes_on(self, max_attempts: nat) -> bool {
        self.rooms.len() < MAX_ROOMS && self.dropped < max_attempts
    }

    /// A coin is flipped for `room`: it fits, and it is not the first room.
    pub open spec fn flips_for(self, room: Rect) -> bool {
        self.rooms.len() > 0 && fits_among(self.rooms, room)
    }

    /// `candidate` can be the next one drawn: its room is one that the
    /// draws allow, and its turn is `false` unless a coin is flipped for it.
    pub open spec fn admits(self, candidate: Candidate) -> bool {
        &&& room_valid(candidate.room)
        &&& candidate.horizontal_first ==> self.flips_for(candidate.room)
    }

    /// What comes of `candidate`: a room that fits is placed and the count
    /// starts again at 0; one that does not is dropped and counted.
    pub open spec fn offered(self, candidate: Candidate) -> Digging {
        if fits_among(self.rooms, candidate.room) {
            Digging {
                rooms: self.rooms.push(candidate.room),
                bends: self.bends.push(candidate.horizontal_first),
                dropped: 0,
            }
        } else {
            Digging { dropped: self.dropped + 1, ..self }
        }
    }
}

/// Where the generation stands once every candidate of `tried` has been
/// offered, in order.
pub open spec fn after_all(tried: Seq<Candidate>) -> Digging
    decreases tried.len(),
{
    if tried.len() == 0 {
        Digging::start()
    } else {
        after_all(tried.drop_last()).offered(tried.last())
    }
}

/// `tried` is what one generation can draw: before each candidate the
/// generation goes on, and the candidate is one that it admits.
pub open spec fn is_run(tried: Seq<Candidate>, max_attempts: nat) -> bool
    decreases tried.len(),
{
    tried.len() > 0 ==> {
        &&& is_run(tried.drop_last(), max_attempts)
        &&& after_all(tried.drop_last()).goes_on(max_attempts)
        &&& after_all(tried.drop_last()).admits(tried.last())
    }
}

/// The generation has come to its end after `tried`: with all its rooms,
/// or with too many candidates dropped in a row.
pub open spec fn is_whole_run(tried: Seq<Candidate>, max_attempts: nat) -> bool {
    is_run(tried, max_attempts) && !after_all(tried).goes_on(max_attempts)
}

/// One more candidate, drawn while the generation goes on, makes a run of
/// a run, and the generation then stands where the candidate leaves it.
pub proof fn lemma_run_push(tried: Seq<Candidate>, max_attempts: nat, candidate: Candidate)
    requires
        is_run(tried, max_attempts),
        after_all(tried).goes_on(max_attempts),
        after_all(tried).admits(candidate),
    ensures
        is_run(tried.push(candidate), max_attempts),
        after_all(tried.push(candidate)) == after_all(tried).offered(candidate),
{
    assert(tried.push(candidate).drop_last() =~= tried);
}

/// At every point of a run the rooms placed are valid and do not
/// intersect, each has its turn, there are no more than `MAX_ROOMS` of them,
/// and no more than `max_attempts` candidates have been dropped in a row.
pub proof fn lemma_run_keeps_rooms_valid(tried: Seq<Candidate>, max_attempts: nat)
    requires
        is_run(tried, max_attempts),
    ensures
        rooms_valid(after_all(tried).rooms),
        after_all(tried).bends.len() == after_all(tried).rooms.len(),
        after_all(tried).rooms.len() <= MAX_ROOMS,
        after_all(tried).dropped <= max_attempts,
    decreases tried.len(),
{
    if tried.len() > 0 {
        lemma_run_keeps_rooms_valid(tried.drop_last(), max_attempts);
        let before = after_all(tried.drop_last());
        let room = tried.last().room;
        if fits_among(before.rooms, room) {
            let rooms = before.rooms.push(room);
            assert forall|i: int| 0 <= i < rooms.len() implies room_valid(#[trigger] rooms[i]) by {
                if i < before.rooms.len() {
                    assert(room_valid(before.rooms[i]));
                }
            }
            assert forall|i: int, j: int|
                #![trigger rooms[i], rooms[j]]
                0 <= i < j < rooms.len() implies !rooms[i].intersects_spec(&rooms[j]) by {
                if j < before.rooms.len() {
                    assert(!before.rooms[i].intersects_spec(&before.rooms[j]));
                } else {
                    assert(!before.rooms[i].intersects_spec(&room));
                }
            }
        }
    }
}

/// Every start of a run is a run, after which the generation goes on and
/// admits the candidate that comes next.
pub proof fn lemma_run_prefix(tried: Seq<Candidate>, max_attempts: nat, k: int)
    requires
        is_run(tried, max_attempts),
        0 <= k < tried.len(),
    ensures
        is_run(tried.take(k), max_attempts),
        after_all(tried.take(k)).goes_on(max_attempts),
        after_all(tried.take(k)).admits(tried[k]),
    decreases tried.len(),
{
    if k == tried.len() - 1 {
        assert(tried.take(k) =~= tried.drop_last());
    } else {
        lemma_run_prefix(tried.drop_last(), max_attempts, k);
        assert(tried.drop_last().take(k) =~= tried.take(k));
    }
}

/// The rooms of the candidates of `tried`, in order.
pub open spec fn rooms_of(tried: Seq<Candidate>) -> Seq<Rect> {
    Seq::new(tried.len(), |i: int| tried[i].room)
}

/// No candidate of `tried` intersects one drawn before it.
pub open spec fn all_fit(tried: Seq<Candidate>) -> bool {
    forall|i: int, j: int|
        #![trigger tried[i], tried[j]]
        0 <= i < j < tried.len() ==> !tried[i].room.intersects_spec(&tried[j].room)
}

/// In a run of which no candidate intersects one drawn before it, every
/// candidate is placed: the rooms are those of the candidates, in the order
/// in which they were drawn, and none has been dropped.
pub proof fn lemma_run_places_all_that_fit(tried: Seq<Candidate>, max_attempts: nat)
    requires
        is_run(tried, max_attempts),
        all_fit(tried),
    ensures
        after_all(tried).rooms == rooms_of(tried),
        after_all(tried).dropped == 0,
        tried.len() <= MAX_ROOMS,
    decreases tried.len(),
{
    if tried.len() > 0 {
        let shorter = tried.drop_last();
        assert forall|i: int, j: int|
            #![trigger shorter[i], shorter[j]]
            0 <= i < j < shorter.len() implies !shorter[i].room.intersects_spec(
            &shorter[j].room,
        ) by {
            assert(!tried[i].room.intersects_spec(&tried[j].room));
        }
        lemma_run_places_all_that_fit(shorter, max_attempts);
        let before = after_all(shorter);
        let last = tried.last();
        assert forall|i: int| 0 <= i < before.rooms.len() implies !(#[trigger] before.rooms[i]).intersects_spec(
            &last.room,
        ) by {
            assert(before.rooms[i] == shorter[i].room);
            assert(!tried[i].room.intersects_spec(&tried[tried.len() - 1].room));
        }
        assert(before.rooms.push(last.room) =~= rooms_of(tried));
    } else {
        assert(Digging::start().rooms =~= rooms_of(tried));
    }
}

/// A whole run of which the first `MAX_ROOMS` candidates do not intersect
/// one another is `MAX_ROOMS` candidates long, where one attempt a room is
/// allowed at least: each of them is placed, and the rooms of the level are
/// theirs in the order in which they were drawn.
pub proof fn lemma_first_candidates_that_fit(tried: Seq<Candidate>, max_attempts: nat)
    requires
        is_whole_run(tried, max_attempts),
        max_attempts >= 1,
        forall|i: int, j: int|
            #![trigger tried[i], tried[j]]
            0 <= i < j < tried.len() && j < MAX_ROOMS ==> !tried[i].room.intersects_spec(
                &tried[j].room,
            ),
    ensures
        tried.len() == MAX_ROOMS,
        after_all(tried).rooms == rooms_of(tried),
        after_all(tried).dropped == 0,
{
    if tried.len() > MAX_ROOMS {
        let first = tried.take(MAX_ROOMS as int);
        lemma_run_prefix(tried, max_attempts, MAX_ROOMS as int);
        assert forall|i: int, j: int|
            #![trigger first[i], first[j]]
            0 <= i < j < first.len() implies !first[i].room.intersects_spec(&first[j].room) by {
            assert(!tried[i].room.intersects_spec(&tried[j].room));
        }
        lemma_run_places_all_that_fit(first, max_attempts);
        // all rooms are placed once the first `MAX_ROOMS` candidates are in,
        // so the run cannot go on to another candidate
        assert(after_all(first).rooms.len() == MAX_ROOMS);
        assert(!after_all(first).goes_on(max_attempts));
    } else {
        lemma_run_places_all_that_fit(tried, max_attempts);
    }
}

} // verus!
