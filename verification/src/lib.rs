//! A dungeon of rooms and corridors on a grid of tiles, and what a player
//! who walks through it sees and remembers.
//!
//! [`map::DungeonMap`] digs a level out of rock: rooms that do not touch,
//! each joined to the one before by a corridor, a spawn tile and a stair.
//! [`level::Level`] keeps what is in view and what has been discovered, and
//! [`state::State`] moves the player through the ticks of a game. What holds
//! of every level is proved in [`map`] and [`reach`], and how a generation
//! runs from one candidate room to the next is told in [`digging`].

use vstd::prelude::*;

pub mod digging;
pub mod fov;
pub mod grid;
pub mod layout;
pub mod level;
pub mod map;
pub mod player;
pub mod reach;
pub mod rect;
pub mod rng;
pub mod state;
pub mod util;

verus! {

/// Width of every level, in tiles.
pub const MAP_WIDTH: i32 = 80;

/// Height of every level, in tiles.
pub const MAP_HEIGHT: i32 = 50;

} // verus!
