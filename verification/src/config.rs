//! Static description of the game's content.

use vstd::prelude::*;

verus! {

/// Milliseconds between two ticks of a session.
pub const TICK_MILLIS: u64 = 1000;

/// Seconds between two ticks of the countdown of a lobby.
pub const COUNTDOWN_STEP_SECS: u64 = 1;

/// Seconds from the opening of a lobby to the start of its game.
pub const COUNTDOWN_SECS: u64 = 30;

/// Seconds that a stalled turn is given before it is advanced.
pub const STALL_DELAY_SECS: u64 = 10;

/// One step of a card's animation on the board.
pub struct Animation {
    pub move_distance: u16,
    pub rotation: u8,
}

/// What a card does when it is played.
pub struct Card {
    pub disorient: bool,
    pub dmg: u8,
    pub actions: Vec<usize>,
}

/// Sizes of the card and action tables.
pub struct GameConfig {
    pub cards: usize,
    pub actions: usize,
}

impl GameConfig {
    /// The configuration the game ships with: 38 cards and no actions.
    pub fn default() -> (gc: Self)
        ensures
            gc.cards == 38,
            gc.actions == 0,
    {
        GameConfig { cards: 38, actions: 0 }
    }
}

} // verus!
