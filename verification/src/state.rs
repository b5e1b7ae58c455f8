//! The game, tick by tick.

use vstd::prelude::*;
use rltk::RandomNumberGenerator;
use crate::fov::{opacity, seen_from};
use crate::level::{map_made, Level, VIEW_RADIUS};
use crate::map::{
    generated, lemma_spawn_and_stair, DungeonMap, GenerationError, MAX_PLACEMENT_ATTEMPTS,
};
use crate::player::{intent_of, lemma_player_stays_on_walkable, Intent, Key, Player};
use crate::rng::fresh_generator;
use crate::util::{in_bounds, is_in_bounds};

verus! {

/// The whole game: the player, the level it is on, and the random source
/// that the next level will be drawn from.
pub struct State {
    pub player: Player,
    pub level: Level,
    pub random: RandomNumberGenerator,
}

/// The level of the game that was made, or the error where none was.
pub open spec fn level_made(made: Result<State, GenerationError>) -> Result<Level, GenerationError> {
    match made {
        Ok(state) => Ok(state.level),
        Err(e) => Err(e),
    }
}

/// `after` is `before` once a player in the state `player` has looked
/// around: where the player has moved, what is in view has been worked out
/// anew from its position; where it has not, nothing has changed.
pub open spec fn looked_around(before: &Level, player: Player, after: &Level) -> bool {
    if player.has_moved {
        after.shows(
            before,
            seen_from(
                player.position.0 as int,
                player.position.1 as int,
                VIEW_RADIUS as int,
                opacity(before.map.map),
            ),
        )
    } else {
        *after == *before
    }
}

impl State {
    /// The grids have the size of a level, the player stands on a tile of
    /// the grid, and no request to descend is left over: a tick takes such a
    /// request back before it ends, so that one is never pending when the
    /// next tick begins. This is all that a tick needs.
    pub open spec fn sound(&self) -> bool {
        &&& self.level.shaped()
        &&& in_bounds(self.player.position.0 as int, self.player.position.1 as int)
        &&& !self.player.new_level
    }

    /// Executable form of [`State::sound`].
    pub fn is_sound(&self) -> (b: bool)
        ensures
            b == self.sound(),
    {
        self.level.is_shaped() && is_in_bounds(self.player.position.0, self.player.position.1)
            && !self.player.new_level
    }

    /// The level is well formed and the player stands on a tile of it that
    /// can be walked on.
    pub open spec fn wf(&self) -> bool {
        &&& self.level.wf()
        &&& self.level.map.walkable_at(
            self.player.position.0 as int,
            self.player.position.1 as int,
        )
    }

    /// The state at the start of a level: nothing seen, and the player
    /// newly arrived on the spawn tile.
    pub open spec fn at_start(&self) -> bool {
        &&& self.level.unexplored()
        &&& self.player == Player::arrived_at(self.level.map.player_spawn)
    }

    /// The game in which the player has just arrived on the spawn tile of
    /// `level`, with `random` to draw the levels below from.
    pub fn begin(level: Level, random: RandomNumberGenerator) -> (state: State)
        ensures
            state.level == level,
            state.random == random,
            state.player == Player::arrived_at(level.map.player_spawn),
            level.wf() ==> state.wf(),
            level.unexplored() ==> state.at_start(),
    {
        proof {
            if level.wf() {
                lemma_spawn_and_stair(level.map);
            }
        }
        let player = Player::arrive(level.map.player_spawn);
        State { player, level, random }
    }

    /// A new game on a level drawn from `random`: the game that
    /// [`State::begin`] makes of the level that [`Level::new`] generates, or
    /// the error with which that gives up.
    pub fn start(random: RandomNumberGenerator) -> (made: Result<State, GenerationError>)
        ensures
            generated(MAX_PLACEMENT_ATTEMPTS, map_made(level_made(made))),
            made matches Ok(state) ==> state.wf() && state.at_start(),
            made matches Err(e) ==> e == GenerationError::OutOfAttempts,
    {
        let mut random = random;
        match Level::new(&mut random) {
            Ok(level) => Ok(State::begin(level, random)),
            Err(e) => Err(e),
        }
    }

    /// A new game with a random source seeded by the operating system:
    /// what [`State::start`] makes of that source.
    pub fn new() -> (made: Result<State, GenerationError>)
        ensures
            generated(MAX_PLACEMENT_ATTEMPTS, map_made(level_made(made))),
            made matches Ok(state) ==> state.wf() && state.at_start(),
            made matches Err(e) ==> e == GenerationError::OutOfAttempts,
    {
        State::start(fresh_generator())
    }

    /// The player of `self` once it has carried out what `keycode` asks
    /// for: the first step of a tick.
    pub open spec fn acted(&self, keycode: Option<Key>) -> Player {
        self.player.after(intent_of(keycode), &self.level.map)
    }

    /// A tick with `keycode` may turn `self` into `after` and end with
    /// `outcome`.
    ///
    /// Where the player has asked to descend, a level is generated as
    /// [`Level::new`] generates it. Where one came out, `after` is at the start
    /// of it; only the request to quit is carried over. Everywhere else the
    /// level of `after` is that of `self` once the player has looked around,
    /// the player's own tile being in view if it has, and the player is the
    /// one that has acted, with both the mark for having moved and the request
    /// to descend taken back. A tick fails only where a new level was asked
    /// for, and where none was the random source is left alone.
    pub open spec fn ticks_to(
        &self,
        keycode: Option<Key>,
        outcome: Result<(), GenerationError>,
        after: &State,
    ) -> bool {
        let acted = self.acted(keycode);
        &&& after.sound()
        &&& self.wf() ==> after.wf()
        &&& if acted.new_level && outcome is Ok {
            &&& after.wf()
            &&& after.level.unexplored()
            &&& after.player == (Player {
                quit: acted.quit,
                ..Player::arrived_at(after.level.map.player_spawn)
            })
        } else {
            &&& looked_around(&self.level, acted, &after.level)
            &&& after.player == (Player { has_moved: false, new_level: false, ..acted })
            &&& acted.has_moved ==> after.level.is_visible(
                acted.position.0 as int,
                acted.position.1 as int,
            )
        }
        &&& !acted.new_level ==> outcome is Ok && after.random == self.random
        &&& acted.new_level ==> generated(
            MAX_PLACEMENT_ATTEMPTS,
            match outcome {
                Ok(_) => Ok(after.level.map),
                Err(e) => Err(e),
            },
        )
        &&& outcome matches Err(e) ==> e == GenerationError::OutOfAttempts
    }

    /// One tick of the game, in three steps.
    ///
    /// First the player carries out what `keycode` asks for. Then, where the
    /// player has moved since the last look, what is in view is worked out
    /// anew and the player counts as not moved. Last, where the player has
    /// asked to descend, a new level is drawn: the player arrives on its spawn
    /// tile with nothing of the new level seen. If no level comes out, the
    /// error is returned, the old level stays, and the request is dropped.
    pub fn tick(&mut self, keycode: Option<Key>) -> (outcome: Result<(), GenerationError>)
        requires
            old(self).sound(),
        ensures
            old(self).ticks_to(keycode, outcome, final(self)),
    {
        proof {
            if self.wf() {
                lemma_player_stays_on_walkable(
                    self.player,
                    intent_of(keycode),
                    &self.level.map,
                );
            }
        }
        self.player.handle_input(&self.level.map, keycode);

        if self.player.has_moved {
            self.level.update_visibility(self.player.position.0, self.player.position.1);
            self.player.has_moved = false;
        }
        if self.player.new_level {
            self.player.new_level = false;
            match Level::new(&mut self.random) {
                Ok(level) => {
                    proof {
                        lemma_spawn_and_stair(level.map);
                    }
                    let quit = self.player.quit;
                    self.player = Player::arrive(level.map.player_spawn);
                    self.player.quit = quit;
                    self.level = level;
                },
                Err(e) => {
                    return Err(e);
                },
            }
        }
        Ok(())
    }
}

/// What `keycode` asks for changes nothing for `player` on `map`: it asks
/// for nothing, for a step onto a wall or off the grid, or for a descent
/// away from the stair.
pub open spec fn idle(player: Player, keycode: Option<Key>, map: &DungeonMap) -> bool {
    match intent_of(keycode) {
        Intent::Wait => true,
        Intent::Move { dx, dy } => !map.walkable_at(
            player.target(dx as int, dy as int).0,
            player.target(dx as int, dy as int).1,
        ),
        Intent::Descend => !player.on_stair(map),
        Intent::Quit => false,
    }
}

/// A tick that changes nothing for a player who has not moved since the
/// last look leaves the whole game as it was: the position, the map, what is
/// in view and what has been discovered. Nothing is worked out anew. So it is
/// with a step into a wall.
pub proof fn lemma_idle_tick_changes_nothing(
    before: State,
    keycode: Option<Key>,
    outcome: Result<(), GenerationError>,
    after: State,
)
    requires
        before.sound(),
        before.ticks_to(keycode, outcome, &after),
        !before.player.has_moved,
        idle(before.player, keycode, &before.level.map),
    ensures
        outcome is Ok,
        after.player == before.player,
        after.level == before.level,
        after.random == before.random,
{
}

/// Of two ticks in a row that change nothing for the player, the second
/// leaves the level and the player as the first left them: what is in view
/// and what has been discovered are the same, cell for cell.
pub proof fn lemma_two_idle_ticks(
    start: State,
    first: Option<Key>,
    first_outcome: Result<(), GenerationError>,
    between: State,
    second: Option<Key>,
    second_outcome: Result<(), GenerationError>,
    last: State,
)
    requires
        start.sound(),
        start.ticks_to(first, first_outcome, &between),
        idle(start.player, first, &start.level.map),
        between.ticks_to(second, second_outcome, &last),
        idle(between.player, second, &between.level.map),
    ensures
        first_outcome is Ok,
        second_outcome is Ok,
        between.player.position == start.player.position,
        last.level == between.level,
        last.player == between.player,
{
    lemma_idle_tick_changes_nothing(between, second, second_outcome, last);
}

/// After any tick on which the player did not descend, a tick that changes
/// nothing for the player leaves the level and the player as that tick left
/// them.
pub proof fn lemma_idle_tick_after_a_tick(
    start: State,
    first: Option<Key>,
    first_outcome: Result<(), GenerationError>,
    between: State,
    second: Option<Key>,
    second_outcome: Result<(), GenerationError>,
    last: State,
)
    requires
        start.ticks_to(first, first_outcome, &between),
        !start.acted(first).new_level,
        between.ticks_to(second, second_outcome, &last),
        idle(between.player, second, &between.level.map),
    ensures
        second_outcome is Ok,
        last.level == between.level,
        last.player == between.player,
{
    lemma_idle_tick_changes_nothing(between, second, second_outcome, last);
}

/// The first tick of a game brings the spawn tile into view, whatever the
/// key, unless the player descends at once: what is in view is not empty.
pub proof fn lemma_first_tick_shows_spawn(
    before: State,
    keycode: Option<Key>,
    outcome: Result<(), GenerationError>,
    after: State,
)
    requires
        before.wf(),
        before.at_start(),
        before.ticks_to(keycode, outcome, &after),
        idle(before.player, keycode, &before.level.map),
    ensures
        outcome is Ok,
        after.level.map == before.level.map,
        after.player.position == before.level.map.player_spawn,
        after.level.is_visible(
            before.level.map.player_spawn.0 as int,
            before.level.map.player_spawn.1 as int,
        ),
        after.level.is_discovered(
            before.level.map.player_spawn.0 as int,
            before.level.map.player_spawn.1 as int,
        ),
{
}

/// A descent from the stair that succeeds leaves the player on the spawn
/// tile of a well-formed level of which nothing is in view and nothing has
/// been discovered, and marked as moved, so that the next tick looks around.
pub proof fn lemma_descent_starts_afresh(
    before: State,
    outcome: Result<(), GenerationError>,
    after: State,
)
    requires
        before.sound(),
        before.player.on_stair(&before.level.map),
        before.ticks_to(Some(Key::Q), outcome, &after),
        outcome is Ok,
    ensures
        after.wf(),
        after.level.unexplored(),
        after.player.position == after.level.map.player_spawn,
        after.player.has_moved,
        !after.player.new_level,
{
}

} // verus!
