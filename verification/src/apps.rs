//! The tabbed applications a host shows: each app is one tab of the game's
//! window, handling input and rendering part of the game state.

use vstd::prelude::*;
use crate::event::Event;
use crate::game::Replies;
use crate::input::Action;
use crate::output::Screen;
use crate::GameState;

verus! {

/// One tab in the game's window. Apps exclusively handle I/O: they take user
/// input and render part of the game state.
///
/// Apps are only given input and rendered while on screen, but they receive
/// every event, so an app can keep its state current in the background.
pub trait App: Send + Sync {
    /// The name of this app's tab in the header.
    fn name(&self) -> String;

    /// Take one input action, queueing any events it causes through
    /// `events`. Returns whether the tab needs to be redrawn.
    fn input(&mut self, a: Action, events: &mut Replies<Event>) -> bool;

    /// See one event, in case the app needs it to render later. Returns
    /// whether the tab needs to be redrawn.
    fn on_event(&mut self, ev: &Event) -> bool;

    /// How many notifications this app shows on its tab.
    fn notifs(&self) -> usize;

    /// Draw the game state onto the screen. Called only while this is the
    /// active tab.
    fn render(&mut self, state: &GameState, screen: &mut Screen);
}

} // verus!
