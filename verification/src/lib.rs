//! Gameplay core of a tile-based overworld and combat role-playing game.
//!
//! Lengths are whole numbers of length units, [`TILESIZE`] of them to a tile
//! edge. Times are whole nanoseconds. Opacity is counted in millionths, up
//! to [`OPAQUE`].
use vstd::prelude::*;

pub mod combat;
pub mod fadeout;
pub mod game;
pub mod geometry;
pub mod player;
pub mod random;
pub mod tilemap;
pub mod timer;

verus! {

/// Edge length of a tile, in length units.
pub const TILESIZE: i64 = 1_000_000;

/// Edge length of the player's collision box: nine tenths of a tile.
pub const PLAYERSIZE: i64 = 900_000;

/// Walking speed of the player, in thousandths of a tile per second.
pub const PLAYERSPEED: u32 = 2_500;

/// Shortest time for which the player is protected from encounters.
pub const MINPROTECT: u64 = 1_000_000_000;

/// Longest time for which the player is protected from encounters.
pub const MAXPROTECT: u64 = 7_000_000_000;

/// Time that a fade takes from start to end.
pub const FADETIME: u64 = 1_000_000_000;

/// Time that has to pass between two attacks of the player.
pub const ATTACKPAUSE: u64 = 500_000_000;

/// Opacity of a fully opaque overlay.
pub const OPAQUE: u32 = 1_000_000;

/// The top-level mode of the game.
#[derive(Clone, Copy, Debug, PartialEq, Eq, Structural, Hash)]
pub enum GameState {
    Overworld,
    Combat,
}

} // verus!
