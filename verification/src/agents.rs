//! Agents: the polymorphic units of behavior the scheduler advances.

use vstd::prelude::*;
use crate::game::Message;

pub use crate::cf::ControlFlow;
pub use crate::cf::WaitHandle;
pub use crate::bundle::Bundle;
pub use crate::event::Event;

verus! {

/// A unit of behavior that reacts to events.
///
/// Events are processed in rounds: there is a list of current events, every
/// ready agent is fed each of them in turn, and the messages pushed into
/// `replies` along the way become the current events of the next round.
/// Events are ephemeral; none persists more than one round.
///
/// Both callbacks run inline in the scheduler's thread and must return
/// promptly. An agent affects future rounds only through the reply list it is
/// handed; new agents join at startup or at the host's request (see
/// [`crate::game::Replies::spawn`]).
pub trait Agent<M: Message>: Send + Sync {
    /// Called exactly once, before the agent's first [`Self::react`], to
    /// queue any starting events. The default does nothing and keeps the
    /// agent alive, on the assumption that the interesting code sits in
    /// `react`.
    fn start(&mut self, _replies: &mut Vec<M>) -> ControlFlow {
        ControlFlow::Continue
    }

    /// React to one event of the current round, queueing replies and saying
    /// how the agent wants to be scheduled next. The default dies at once, on
    /// the assumption that an agent without a custom `react` has no reason to
    /// keep living.
    fn react(&mut self, _event: &M, _replies: &mut Vec<M>) -> ControlFlow {
        ControlFlow::Kill
    }
}

/// An agent which does nothing and immediately dies: it answers `Kill` from
/// both callbacks and queues nothing.
pub struct NopAgent;

impl<M: Message> Agent<M> for NopAgent {
    fn start(&mut self, replies: &mut Vec<M>) -> (r: ControlFlow)
        ensures
            r is Kill,
            final(replies)@ == old(replies)@,
    {
        ControlFlow::Kill
    }

    fn react(&mut self, _event: &M, replies: &mut Vec<M>) -> (r: ControlFlow)
        ensures
            r is Kill,
            final(replies)@ == old(replies)@,
    {
        ControlFlow::Kill
    }
}

} // verus!
