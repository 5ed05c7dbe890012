//! The player: base health and the gold wallet.

use vstd::prelude::*;

verus! {

/// Health the player starts a session with.
pub const PLAYER_START_HEALTH: i64 = 100;

/// Gold the player starts a session with.
pub const PLAYER_START_GOLD: u32 = 300;

/// The single player of a game session. Health decreases when a monster
/// reaches the base; gold increases on pickup and decreases on tower
/// placement.
#[derive(Clone, Copy, PartialEq, Eq, Structural, Debug)]
pub struct Player {
    pub health: i64,
    pub gold: u32,
}

impl Player {
    /// A fresh player with the starting health and gold.
    pub fn new() -> (p: Player)
        ensures
            p.health == PLAYER_START_HEALTH,
            p.gold == PLAYER_START_GOLD,
    {
        Player { health: PLAYER_START_HEALTH, gold: PLAYER_START_GOLD }
    }
}

} // verus!
