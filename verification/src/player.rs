//! The player, the keys it listens to, and what they ask for.

use vstd::prelude::*;
use crate::grid::grid_wf;
use crate::map::{DungeonMap, TileType};
use crate::{MAP_HEIGHT, MAP_WIDTH};
use crate::util::{in_bounds, is_in_bounds};

verus! {

/// The keys that the game tells apart. Any other key is `Other`.
#[derive(PartialEq, Eq, Structural, Copy, Clone, Debug)]
pub enum Key {
    Numpad1,
    Numpad2,
    Numpad3,
    Numpad4,
    Numpad6,
    Numpad7,
    Numpad8,
    Numpad9,
    Up,
    Down,
    Left,
    Right,
    Q,
    Escape,
    Other,
}

/// What the player asks for in one tick.
#[derive(PartialEq, Eq, Structural, Copy, Clone, Debug)]
pub enum Intent {
    /// One step: `dx` columns to the right and `dy` rows down.
    Move { dx: i32, dy: i32 },
    /// Take the stair down, if the player stands on it.
    Descend,
    /// Leave the game.
    Quit,
    /// Nothing.
    Wait,
}

/// A step by `(dx, dy)`.
pub open spec fn step(dx: int, dy: int) -> Intent {
    Intent::Move { dx: dx as i32, dy: dy as i32 }
}

/// What a key asks for. The numpad moves in eight directions, `8` being up
/// and `6` right; the cursor keys move in four; `Q` descends; `Escape`
/// quits. No key, or any other key, asks for nothing.
pub open spec fn intent_of(keycode: Option<Key>) -> Intent {
    match keycode {
        Some(Key::Numpad8) => step(0, -1),
        Some(Key::Numpad4) => step(-1, 0),
        Some(Key::Numpad6) => step(1, 0),
        Some(Key::Numpad2) => step(0, 1),
        Some(Key::Numpad7) => step(-1, -1),
        Some(Key::Numpad9) => step(1, -1),
        Some(Key::Numpad1) => step(-1, 1),
        Some(Key::Numpad3) => step(1, 1),
        Some(Key::Up) => step(0, -1),
        Some(Key::Down) => step(0, 1),
        Some(Key::Left) => step(-1, 0),
        Some(Key::Right) => step(1, 0),
        Some(Key::Q) => Intent::Descend,
        Some(Key::Escape) => Intent::Quit,
        Some(Key::Other) => Intent::Wait,
        None => Intent::Wait,
    }
}

/// Executable form of [`intent_of`].
pub fn decode(keycode: Option<Key>) -> (intent: Intent)
    ensures
        intent == intent_of(keycode),
{
    match keycode {
        Some(key) => {
            match key {
                // Numpad
                Key::Numpad8 => Intent::Move { dx: 0, dy: -1 },
                Key::Numpad4 => Intent::Move { dx: -1, dy: 0 },
                Key::Numpad6 => Intent::Move { dx: 1, dy: 0 },
                Key::Numpad2 => Intent::Move { dx: 0, dy: 1 },
                // Numpad diagonals
                Key::Numpad7 => Intent::Move { dx: -1, dy: -1 },
                Key::Numpad9 => Intent::Move { dx: 1, dy: -1 },
                Key::Numpad1 => Intent::Move { dx: -1, dy: 1 },
                Key::Numpad3 => Intent::Move { dx: 1, dy: 1 },
                // Cursors
                Key::Up => Intent::Move { dx: 0, dy: -1 },
                Key::Down => Intent::Move { dx: 0, dy: 1 },
                Key::Left => Intent::Move { dx: -1, dy: 0 },
                Key::Right => Intent::Move { dx: 1, dy: 0 },
                Key::Q => Intent::Descend,
                Key::Escape => Intent::Quit,
                Key::Other => Intent::Wait,
            }
        },
        None => Intent::Wait,
    }
}

/// The player: where it stands, whether it has moved since what is in view
/// was last worked out, and whether it has asked to quit or to descend.
#[derive(PartialEq, Eq, Copy, Clone, Debug)]
pub struct Player {
    pub position: (i32, i32),
    pub has_moved: bool,
    pub quit: bool,
    pub new_level: bool,
}

impl Player {
    /// The tile that a step by `(dx, dy)` leads to.
    pub open spec fn target(self, dx: int, dy: int) -> (int, int) {
        (self.position.0 + dx, self.position.1 + dy)
    }

    /// The player stands on the stair of `map`.
    pub open spec fn on_stair(self, map: &DungeonMap) -> bool {
        &&& in_bounds(self.position.0 as int, self.position.1 as int)
        &&& map.tile_at(self.position.0 as int, self.position.1 as int) == TileType::Stair
    }

    /// The player after a step by `(dx, dy)` has been tried: on the target
    /// tile and marked as moved where that tile is one of the grid and can be
    /// walked on, and unchanged where it is not.
    pub open spec fn stepped(self, dx: int, dy: int, map: &DungeonMap) -> Player {
        let to = self.target(dx, dy);
        if map.walkable_at(to.0, to.1) {
            Player { position: (to.0 as i32, to.1 as i32), has_moved: true, ..self }
        } else {
            self
        }
    }

    /// The player after `intent` has been carried out on `map`.
    pub open spec fn after(self, intent: Intent, map: &DungeonMap) -> Player {
        match intent {
            Intent::Move { dx, dy } => self.stepped(dx as int, dy as int, map),
            Intent::Descend => if self.on_stair(map) {
                Player { new_level: true, ..self }
            } else {
                self
            },
            Intent::Quit => Player { quit: true, ..self },
            Intent::Wait => self,
        }
    }

    /// A player who has just arrived at `position`: marked as moved, so
    /// that the next tick works out what is in view.
    pub open spec fn arrived_at(position: (i32, i32)) -> Player {
        Player { position, has_moved: true, quit: false, new_level: false }
    }

    /// Executable form of [`Player::arrived_at`].
    pub fn arrive(position: (i32, i32)) -> (player: Player)
        ensures
            player == Player::arrived_at(position),
    {
        Player { position, has_moved: true, quit: false, new_level: false }
    }

    /// Tries a step by `(delta_x, delta_y)`. A step onto a wall, or off the
    /// grid, changes nothing.
    pub fn move_player(&mut self, delta_x: i32, delta_y: i32, map: &DungeonMap)
        requires
            grid_wf(map.map),
        ensures
            *final(self) == old(self).stepped(delta_x as int, delta_y as int, map),
    {
        let current_position = self.position;
        let new_x = current_position.0 as i64 + delta_x as i64;
        let new_y = current_position.1 as i64 + delta_y as i64;
        if 0 <= new_x && new_x < MAP_WIDTH as i64 && 0 <= new_y && new_y < MAP_HEIGHT as i64 {
            let new_position = (new_x as i32, new_y as i32);
            if map[new_position.1 as usize][new_position.0 as usize] != TileType::Wall {
                self.position = new_position;
                self.has_moved = true;
            }
        }
    }

    /// Carries out `intent`: a step, a request to descend, which counts only
    /// on the stair, or a request to quit.
    pub fn act(&mut self, intent: Intent, map: &DungeonMap)
        requires
            grid_wf(map.map),
        ensures
            *final(self) == old(self).after(intent, map),
    {
        match intent {
            Intent::Move { dx, dy } => self.move_player(dx, dy, map),
            Intent::Descend => {
                if is_in_bounds(self.position.0, self.position.1)
                    && map[self.position.1 as usize][self.position.0 as usize] == TileType::Stair {
                    self.new_level = true
                }
            },
            Intent::Quit => self.quit = true,
            Intent::Wait => {},
        }
    }

    /// Carries out what the key `keycode` asks for, if a key was pressed.
    pub fn handle_input(&mut self, map: &DungeonMap, keycode: Option<Key>)
        requires
            grid_wf(map.map),
        ensures
            *final(self) == old(self).after(intent_of(keycode), map),
    {
        self.act(decode(keycode), map);
    }
}

/// A step onto a wall, or off the grid, leaves the player as it was, flags
/// and all: nothing marks it as moved.
pub proof fn lemma_blocked_step_changes_nothing(player: Player, dx: int, dy: int, map: &DungeonMap)
    requires
        !map.walkable_at(player.target(dx, dy).0, player.target(dx, dy).1),
    ensures
        player.stepped(dx, dy, map) == player,
{
}

/// A player who stands on a tile that can be walked on still does after any
/// intent.
pub proof fn lemma_player_stays_on_walkable(player: Player, intent: Intent, map: &DungeonMap)
    requires
        map.walkable_at(player.position.0 as int, player.position.1 as int),
    ensures
        map.walkable_at(
            player.after(intent, map).position.0 as int,
            player.after(intent, map).position.1 as int,
        ),
{
}

} // verus!
