//! A round-based cooperative agent scheduler.
//!
//! A population of agents advances through synchronized rounds: every event
//! queued in one round is delivered to every ready agent in the next, the
//! replies become the events after that, and agents that died or can never be
//! woken again are swept away at each round boundary.

pub mod agents;
pub mod apps;
pub mod bundle;
pub mod cf;
pub mod event;
pub mod game;
pub mod input;
pub mod iosys;
pub mod output;
pub mod stress;
pub mod text_input;
pub mod util;
pub mod widgets;

use vstd::prelude::*;

verus! {

/// The current state of the game that the host renders: for now, who is
/// playing.
#[derive(PartialEq, Eq, Clone, Debug, Default)]
pub struct GameState {
    /// The player's name.
    pub player_name: String,
}

} // verus!
