//! The round scheduler: the reply buffer, the host interface, and the
//! `Runner` that advances rounds.
//!
//! The `Runner` keeps a ghost log of every `start` and `react` call it makes,
//! and its invariant pins the scheduling discipline down: each admitted agent
//! is started exactly once, strictly before any of its reactions, and an
//! agent whose call answered `Kill` is never called again.

use vstd::prelude::*;
use core::mem;
use crate::agents::Agent;
use crate::cf::ControlFlow;
use crate::event::Event;
use crate::event::Tool;
use crate::event::drain_installs;
use crate::event::install_payloads;
use crate::input::Action;
use crate::output::Screen;
use crate::util::seq_empty_facts;
use crate::util::seq_push_facts;
use crate::util::seq_remove_facts;
use crate::util::seq_subrange_facts;

verus! {

/// What an event must be: a value that can be copied into the round buffers
/// and crossed between threads.
pub trait Message: Clone + Send + Sync {

}

impl<T: Clone + Send + Sync> Message for T {

}

/// The per-round output sink handed to the host: the channel through which
/// input handling affects future rounds, by queueing messages and requesting
/// spawns. (Agents write into the same message list, handed to them as a
/// plain vector; only the host requests spawns.)
#[verifier::reject_recursive_types(M)]
pub struct Replies<M: Message> {
    agents: Vec<Box<dyn Agent<M>>>,
    messages: Vec<M>,
}

impl<M: Message> Replies<M> {
    /// The messages queued so far this round, oldest first.
    pub closed spec fn queued(&self) -> Seq<M> {
        self.messages@
    }

    /// The agents whose spawn was requested so far this round, oldest first.
    pub closed spec fn spawned(&self) -> Seq<Box<dyn Agent<M>>> {
        self.agents@
    }

    /// The queued messages, for checking what some code queued.
    pub fn messages(&self) -> (r: &[M])
        ensures
            r@ == self.queued(),
    {
        self.messages.as_slice()
    }

    /// The requested spawns, for checking what some code spawned.
    pub fn agents(&self) -> (r: &[Box<dyn Agent<M>>])
        ensures
            r@ == self.spawned(),
    {
        self.agents.as_slice()
    }

    /// Request that `agent` join the live set at the next round boundary.
    pub fn spawn<A: Agent<M> + 'static>(&mut self, agent: A)
        ensures
            final(self).spawned().len() == old(self).spawned().len() + 1,
            forall|i: int|
                0 <= i < old(self).spawned().len() ==> #[trigger] final(self).spawned()[i] == old(
                    self,
                ).spawned()[i],
            final(self).queued() == old(self).queued(),
    {
        let b: Box<dyn Agent<M>> = Box::new(agent);
        self.spawn_boxed(b);
    }

    /// Request that an already boxed `agent` join the live set at the next
    /// round boundary.
    pub fn spawn_boxed(&mut self, agent: Box<dyn Agent<M>>)
        ensures
            final(self).spawned().len() == old(self).spawned().len() + 1,
            forall|i: int|
                0 <= i < old(self).spawned().len() ==> #[trigger] final(self).spawned()[i] == old(
                    self,
                ).spawned()[i],
            final(self).spawned() == old(self).spawned().push(agent),
            final(self).queued() == old(self).queued(),
    {
        proof {
            seq_push_facts(self.agents@, agent);
        }
        self.agents.push(agent);
    }

    /// Queue one message for delivery next round.
    pub fn queue(&mut self, msg: M)
        ensures
            final(self).queued() == old(self).queued().push(msg),
            final(self).queued().len() == old(self).queued().len() + 1,
            forall|i: int|
                0 <= i < old(self).queued().len() ==> #[trigger] final(self).queued()[i] == old(
                    self,
                ).queued()[i],
            final(self).queued()[old(self).queued().len() as int] == msg,
            final(self).spawned() == old(self).spawned(),
    {
        self.messages.push(msg);
    }

    /// Queue a batch of messages for delivery next round, in order.
    pub fn queue_all(&mut self, msgs: Vec<M>)
        ensures
            final(self).queued() == old(self).queued() + msgs@,
            final(self).spawned() == old(self).spawned(),
    {
        let mut msgs = msgs;
        self.messages.append(&mut msgs);
    }

    /// How many spawns were requested this round.
    pub fn spawn_len(&self) -> (r: usize)
        ensures
            r == self.spawned().len(),
    {
        self.agents.len()
    }

    /// How many messages were queued this round.
    pub fn queue_len(&self) -> (r: usize)
        ensures
            r == self.queued().len(),
    {
        self.messages.len()
    }
}

impl<M: Message> Default for Replies<M> {
    /// An empty buffer: nothing queued, nothing spawned.
    fn default() -> (r: Replies<M>)
        ensures
            r.queued().len() == 0,
            r.spawned().len() == 0,
    {
        proof {
            seq_empty_facts::<M>();
            seq_empty_facts::<Box<dyn Agent<M>>>();
        }
        Replies { agents: Vec::new(), messages: Vec::new() }
    }
}

/// What the host asks of the engine after input or an event.
#[derive(Clone, Copy, PartialEq, Eq, Structural, Debug)]
pub enum Response {
    /// Nothing in particular needs to be done.
    Nothing,
    /// The visual state changed; the screen needs a redraw.
    Redraw,
    /// The game should exit.
    Quit,
}

/// The host boundary: where user input and rendering happen.
///
/// A `Game` never reacts to events with more events — that is an agent's job.
/// On input it may queue messages or spawns and update render-relevant state;
/// on an event it may only update render-relevant state; come render time it
/// already has everything it needs.
pub trait Game: Send {
    type Message: Message;

    /// The user did something; update the UI and inform agents through
    /// `replies` as needed.
    fn input(&mut self, input: Action, replies: &mut Replies<Self::Message>) -> Response;

    /// An event happened; update render-relevant state only.
    fn event(&mut self, event: &Self::Message) -> Response;

    /// Draw onto the provided screen.
    fn render(&mut self, onto: &mut Screen);
}

/// One entry of the scheduler's ghost call log: which agent was called, and
/// whether the call answered `Kill`.
pub enum AgentCall {
    /// The agent's one `start` call.
    Started { agent: nat, killed: bool },
    /// One `react` call.
    Reacted { agent: nat, killed: bool },
}

/// The agent a log entry is about.
pub open spec fn call_id(c: AgentCall) -> nat {
    match c {
        AgentCall::Started { agent, .. } => agent,
        AgentCall::Reacted { agent, .. } => agent,
    }
}

/// Whether the logged call answered `Kill`.
pub open spec fn call_killed(c: AgentCall) -> bool {
    match c {
        AgentCall::Started { killed, .. } => killed,
        AgentCall::Reacted { killed, .. } => killed,
    }
}

/// Some `start` call for `id` stands in the log.
pub open spec fn started_in(log: Seq<AgentCall>, id: nat) -> bool {
    exists|i: int| 0 <= i < log.len() && (#[trigger] log[i]) is Started && call_id(log[i]) == id
}

/// No call for `id` in the log answered `Kill`.
pub open spec fn no_kill_record(log: Seq<AgentCall>, id: nat) -> bool {
    forall|i: int| 0 <= i < log.len() && call_id(#[trigger] log[i]) == id ==> !call_killed(log[i])
}

/// Each agent is started at most once.
pub open spec fn starts_unique(log: Seq<AgentCall>) -> bool {
    forall|i: int, j: int|
        0 <= i < log.len() && 0 <= j < log.len() && (#[trigger] log[i]) is Started && (#[trigger]
        log[j]) is Started && call_id(log[i]) == call_id(log[j]) ==> i == j
}

/// Each reaction comes strictly after the agent's start.
pub open spec fn reacts_follow_starts(log: Seq<AgentCall>) -> bool {
    forall|j: int|
        0 <= j < log.len() && (#[trigger] log[j]) is Reacted ==> exists|i: int|
            0 <= i < j && (#[trigger] log[i]) is Started && call_id(log[i]) == call_id(log[j])
}

/// Once a call answered `Kill`, the agent is never called again.
pub open spec fn silent_after_kill(log: Seq<AgentCall>) -> bool {
    forall|i: int, j: int|
        0 <= i < j < log.len() && call_killed(#[trigger] log[i]) ==> call_id(#[trigger] log[j])
            != call_id(log[i])
}

/// The scheduling discipline, as visible in the call log.
pub open spec fn log_wf(log: Seq<AgentCall>) -> bool {
    starts_unique(log) && reacts_follow_starts(log) && silent_after_kill(log)
}

/// The coarse kind of a readiness state: always ready, waiting on a handle,
/// or dead.
#[derive(PartialEq, Eq, Structural, Clone, Copy, Debug)]
pub enum CfKind {
    Always,
    Waiting,
    Dead,
}

/// The kind of a given state.
pub open spec fn cf_kind(cf: ControlFlow) -> CfKind {
    match cf {
        ControlFlow::Continue => CfKind::Always,
        ControlFlow::Handle(_) => CfKind::Waiting,
        ControlFlow::Kill => CfKind::Dead,
    }
}

/// One live agent's treatment during the delivery of one event.
pub enum Visit {
    /// The readiness check answered false — possible only for a state that
    /// was not `Continue` at that moment, whose kind is recorded here — and
    /// the agent was not called.
    Skipped { was: CfKind },
    /// `react` was called on the agent of this identity, and it answered a
    /// state of the recorded kind, which overwrote its stored one.
    Called { agent: nat, became: CfKind },
}

/// What delivering one event did: what the host answered, and how each live
/// agent, in live-list order, was treated.
pub struct EventTrace {
    /// The host answered `Quit`, stopping the round at this event before any
    /// agent saw it.
    pub host_quit: bool,
    /// One record per live agent, in live-list order (empty on a quit).
    pub visits: Seq<Visit>,
}

/// The `Reacted` log entries one event's visits produce, in visit order.
pub open spec fn visit_reacts(vs: Seq<Visit>) -> Seq<AgentCall>
    decreases vs.len(),
{
    if vs.len() == 0 {
        Seq::empty()
    } else {
        visit_reacts(vs.drop_last()) + (match vs.last() {
            Visit::Skipped { .. } => Seq::empty(),
            Visit::Called { agent, became } => seq![
                AgentCall::Reacted { agent, killed: became is Dead },
            ],
        })
    }
}

/// The `Reacted` log entries a whole trace produces, event-major.
pub open spec fn trace_reacts(tr: Seq<EventTrace>) -> Seq<AgentCall>
    decreases tr.len(),
{
    if tr.len() == 0 {
        Seq::empty()
    } else {
        trace_reacts(tr.drop_last()) + visit_reacts(tr.last().visits)
    }
}

/// The kind the state of the agent at position `k` has after the recorded
/// events, starting from `init`: each `Called` visit overwrites it with the
/// answer, each `Skipped` visit leaves it.
pub open spec fn kind_after(tr: Seq<EventTrace>, k: int, init: CfKind) -> CfKind
    decreases tr.len(),
{
    if tr.len() == 0 {
        init
    } else {
        let before = kind_after(tr.drop_last(), k, init);
        if 0 <= k < tr.last().visits.len() {
            match tr.last().visits[k] {
                Visit::Called { became, .. } => became,
                Visit::Skipped { .. } => before,
            }
        } else {
            before
        }
    }
}

/// The kind at position `k` once the (possibly partial) visits of one more
/// event are taken into account.
pub open spec fn kind_with(vs: Seq<Visit>, k: int, before: CfKind) -> CfKind {
    if 0 <= k < vs.len() {
        match vs[k] {
            Visit::Called { became, .. } => became,
            Visit::Skipped { .. } => before,
        }
    } else {
        before
    }
}

/// Appending the one `Started` entry of a fresh agent keeps the log
/// well-formed, and touches no other agent's record.
proof fn lemma_log_push_started(prev: Seq<AgentCall>, id: nat, killed: bool)
    requires
        log_wf(prev),
        forall|i: int| 0 <= i < prev.len() ==> call_id(#[trigger] prev[i]) < id,
    ensures
        log_wf(prev.push(AgentCall::Started { agent: id, killed })),
        prev.push(AgentCall::Started { agent: id, killed }).len() == prev.len() + 1,
        forall|i: int|
            0 <= i < prev.len() ==> #[trigger] prev.push(AgentCall::Started { agent: id, killed })[i]
                == prev[i],
        prev.push(AgentCall::Started { agent: id, killed })[prev.len() as int]
            == (AgentCall::Started { agent: id, killed }),
        started_in(prev.push(AgentCall::Started { agent: id, killed }), id),
        forall|i: int|
            0 <= i < prev.len() + 1 ==> call_id(
                #[trigger] prev.push(AgentCall::Started { agent: id, killed })[i],
            ) < id + 1,
        forall|id2: nat|
            #[trigger] started_in(prev, id2) ==> started_in(
                prev.push(AgentCall::Started { agent: id, killed }),
                id2,
            ),
        forall|id2: nat|
            #[trigger] no_kill_record(prev, id2) && id2 != id ==> no_kill_record(
                prev.push(AgentCall::Started { agent: id, killed }),
                id2,
            ),
        !killed ==> no_kill_record(prev.push(AgentCall::Started { agent: id, killed }), id),
{
    let rec = AgentCall::Started { agent: id, killed };
    let log = prev.push(rec);
    assert(log[prev.len() as int] == rec);
    assert forall|j: int|
        0 <= j < log.len() && (#[trigger] log[j]) is Reacted implies exists|i: int|
        0 <= i < j && (#[trigger] log[i]) is Started && call_id(log[i]) == call_id(log[j]) by {
        assert(log[j] == prev[j]);
        let i = choose|i: int|
            0 <= i < j && (#[trigger] prev[i]) is Started && call_id(prev[i]) == call_id(prev[j]);
        assert(log[i] == prev[i]);
    }
    assert forall|id2: nat| #[trigger] started_in(prev, id2) implies started_in(log, id2) by {
        let i = choose|i: int|
            0 <= i < prev.len() && (#[trigger] prev[i]) is Started && call_id(prev[i]) == id2;
        assert(log[i] == prev[i]);
    }
}

/// Appending one `Reacted` entry for a started, never-killed agent keeps the
/// log well-formed, and touches no other agent's record.
proof fn lemma_log_push_reacted(prev: Seq<AgentCall>, id: nat, killed: bool, bound: nat)
    requires
        log_wf(prev),
        started_in(prev, id),
        no_kill_record(prev, id),
        id < bound,
        forall|i: int| 0 <= i < prev.len() ==> call_id(#[trigger] prev[i]) < bound,
    ensures
        log_wf(prev.push(AgentCall::Reacted { agent: id, killed })),
        prev.push(AgentCall::Reacted { agent: id, killed }).len() == prev.len() + 1,
        forall|i: int|
            0 <= i < prev.len() ==> #[trigger] prev.push(AgentCall::Reacted { agent: id, killed })[i]
                == prev[i],
        prev.push(AgentCall::Reacted { agent: id, killed })[prev.len() as int]
            == (AgentCall::Reacted { agent: id, killed }),
        forall|i: int|
            0 <= i < prev.len() + 1 ==> call_id(
                #[trigger] prev.push(AgentCall::Reacted { agent: id, killed })[i],
            ) < bound,
        forall|id2: nat|
            #[trigger] started_in(prev, id2) ==> started_in(
                prev.push(AgentCall::Reacted { agent: id, killed }),
                id2,
            ),
        forall|id2: nat|
            #[trigger] no_kill_record(prev, id2) && id2 != id ==> no_kill_record(
                prev.push(AgentCall::Reacted { agent: id, killed }),
                id2,
            ),
        !killed ==> no_kill_record(prev.push(AgentCall::Reacted { agent: id, killed }), id),
{
    let rec = AgentCall::Reacted { agent: id, killed };
    let log = prev.push(rec);
    assert(log[prev.len() as int] == rec);
    assert forall|j: int|
        0 <= j < log.len() && (#[trigger] log[j]) is Reacted implies exists|i: int|
        0 <= i < j && (#[trigger] log[i]) is Started && call_id(log[i]) == call_id(log[j]) by {
        if j < prev.len() {
            assert(log[j] == prev[j]);
            let i = choose|i: int|
                0 <= i < j && (#[trigger] prev[i]) is Started && call_id(prev[i]) == call_id(
                    prev[j],
                );
            assert(log[i] == prev[i]);
        } else {
            let i = choose|i: int|
                0 <= i < prev.len() && (#[trigger] prev[i]) is Started && call_id(prev[i]) == id;
            assert(log[i] == prev[i]);
            assert(log[i] is Started && call_id(log[i]) == call_id(log[j]));
        }
    }
    assert forall|i: int, j: int|
        0 <= i < j < log.len() && call_killed(#[trigger] log[i]) implies call_id(#[trigger] log[j])
        != call_id(log[i]) by {
        if j < prev.len() {
        } else {
            assert(log[i] == prev[i]);
            if call_id(prev[i]) == id {
                assert(!call_killed(prev[i]));
            }
        }
    }
    assert forall|id2: nat| #[trigger] started_in(prev, id2) implies started_in(log, id2) by {
        let i = choose|i: int|
            0 <= i < prev.len() && (#[trigger] prev[i]) is Started && call_id(prev[i]) == id2;
        assert(log[i] == prev[i]);
    }
}

/// One live agent: its current readiness, the agent itself, and the ghost
/// identity the call log tracks it by.
#[verifier::reject_recursive_types(M)]
struct Slot<M: Message> {
    cf: ControlFlow,
    agent: Box<dyn Agent<M>>,
    id: Ghost<nat>,
}

/// What one round reports back to the loop that drives it.
#[derive(Clone, Copy, PartialEq, Eq, Structural, Debug)]
pub struct RoundOutcome {
    /// The screen needs a redraw.
    pub tainted: bool,
    /// The game asked to exit; the loop should stop.
    pub quit: bool,
}

/// Whether the sweep keeps an agent in the given state, `external_refs` being
/// the strong-reference count its wait handle reported (meaningless unless
/// the state is `Handle`). A `Kill` state is always dropped; a sleeping agent
/// is dropped exactly when its handle's only reference is the agent's own, so
/// that nobody is left who could ever wake it.
pub open spec fn retain_decision(cf: ControlFlow, external_refs: usize) -> bool {
    match cf {
        ControlFlow::Kill => false,
        ControlFlow::Handle(_) => external_refs > 1,
        ControlFlow::Continue => true,
    }
}

/// The sweep's retention rule on plain values; the sweep applies it to each
/// live agent, handing it the reference count the agent's handle reported.
pub fn should_retain(cf: &ControlFlow, external_refs: usize) -> (r: bool)
    ensures
        r == retain_decision(*cf, external_refs),
{
    match cf {
        ControlFlow::Kill => false,
        ControlFlow::Handle(_) => external_refs > 1,
        ControlFlow::Continue => true,
    }
}

/// An agent asleep on a handle nobody else holds can never be woken, and the
/// sweep removes it even though it never answered `Kill`.
pub proof fn lemma_orphan_swept(cf: ControlFlow, external_refs: usize)
    requires
        cf is Handle,
        external_refs <= 1,
    ensures
        !retain_decision(cf, external_refs),
{
}

/// Drives a [`Game`] and its agents through rounds.
#[verifier::reject_recursive_types(G)]
pub struct Runner<G: Game> {
    game: G,
    events: Vec<G::Message>,
    live: Vec<Slot<G::Message>>,
    pending: Vec<Box<dyn Agent<G::Message>>>,
    replies: Replies<G::Message>,
    next_id: Ghost<nat>,
    log: Ghost<Seq<AgentCall>>,
}

impl<G: Game> Runner<G> {
    /// Every `start` and `react` call made so far, in order.
    pub closed spec fn call_log(&self) -> Seq<AgentCall> {
        self.log@
    }

    /// The events of the current round, in delivery order.
    pub closed spec fn current_events(&self) -> Seq<G::Message> {
        self.events@
    }

    /// The messages queued so far this round; they become the next round's
    /// events at the swap.
    pub closed spec fn queued_messages(&self) -> Seq<G::Message> {
        self.replies.queued()
    }

    /// The spawns the host requested so far this round.
    pub closed spec fn spawn_requests(&self) -> Seq<Box<dyn Agent<G::Message>>> {
        self.replies.spawned()
    }

    /// The agents waiting to be admitted at the next round boundary, in
    /// request order.
    pub closed spec fn pending_agents(&self) -> Seq<Box<dyn Agent<G::Message>>> {
        self.pending@
    }

    /// How many agents wait to be admitted at the next round boundary.
    pub closed spec fn pending_count(&self) -> nat {
        self.pending@.len()
    }

    /// The identity the next admitted agent will get; identities are handed
    /// out consecutively, in admission order, and never reused.
    pub closed spec fn next_identity(&self) -> nat {
        self.next_id@
    }

    /// How many agents are live.
    pub closed spec fn live_count(&self) -> nat {
        self.live@.len()
    }

    /// The ghost identity of the live agent at position `k`.
    pub closed spec fn live_id_at(&self, k: int) -> nat {
        self.live@[k].id@
    }

    /// The readiness state of the live agent at position `k`.
    pub closed spec fn live_cf_at(&self, k: int) -> ControlFlow {
        self.live@[k].cf
    }


    /// The scheduler's invariant: the call log shows the scheduling
    /// discipline, every live agent has been started, identities are unique
    /// and never reused, and an agent whose state is not `Kill` has no `Kill`
    /// answer on record.
    pub closed spec fn inv(&self) -> bool {
        &&& log_wf(self.log@)
        &&& forall|i: int|
            0 <= i < self.log@.len() ==> call_id(#[trigger] self.log@[i]) < self.next_id@
        &&& forall|k: int| 0 <= k < self.live@.len() ==> (#[trigger] self.live@[k]).id@ < self.next_id@
        &&& forall|k1: int, k2: int|
            0 <= k1 < self.live@.len() && 0 <= k2 < self.live@.len() && k1 != k2 ==> (
            #[trigger] self.live@[k1]).id@ != (#[trigger] self.live@[k2]).id@
        &&& forall|k: int|
            0 <= k < self.live@.len() ==> started_in(self.log@, (#[trigger] self.live@[k]).id@)
        &&& forall|k: int|
            0 <= k < self.live@.len() && !((#[trigger] self.live@[k]).cf is Kill)
                ==> no_kill_record(self.log@, self.live@[k].id@)
    }

    /// Prepare a game to be run, with no events, no agents, and an empty log.
    pub fn new(game: G) -> (r: Runner<G>)
        ensures
            r.inv(),
            r.call_log().len() == 0,
            r.current_events().len() == 0,
            r.live_count() == 0,
            r.pending_count() == 0,
            r.queued_messages().len() == 0,
            r.spawn_requests().len() == 0,
    {
        proof {
            seq_empty_facts::<G::Message>();
            seq_empty_facts::<Slot<G::Message>>();
            seq_empty_facts::<Box<dyn Agent<G::Message>>>();
            seq_empty_facts::<AgentCall>();
        }
        Runner {
            game,
            events: Vec::new(),
            live: Vec::new(),
            pending: Vec::new(),
            replies: Replies::default(),
            next_id: Ghost(0),
            log: Ghost(Seq::empty()),
        }
    }

    /// Set an agent to be running at game startup, to process the first
    /// round of events: it goes to the end of the admission list.
    pub fn spawn<A: Agent<G::Message> + 'static>(self, agent: A) -> (r: Runner<G>)
        requires
            self.inv(),
        ensures
            r.inv(),
            r.pending_count() == self.pending_count() + 1,
            forall|j: int|
                0 <= j < self.pending_count() ==> #[trigger] r.pending_agents()[j]
                    == self.pending_agents()[j],
            r.call_log() == self.call_log(),
            r.current_events() == self.current_events(),
            r.live_count() == self.live_count(),
            r.queued_messages() == self.queued_messages(),
            r.spawn_requests() == self.spawn_requests(),
            r.next_identity() == self.next_identity(),
    {
        let b: Box<dyn Agent<G::Message>> = Box::new(agent);
        self.spawn_boxed(b)
    }

    /// Set an already boxed agent to be running at game startup: exactly this
    /// agent is appended to the admission list.
    pub fn spawn_boxed(self, agent: Box<dyn Agent<G::Message>>) -> (r: Runner<G>)
        requires
            self.inv(),
        ensures
            r.inv(),
            r.pending_agents() == self.pending_agents().push(agent),
            r.pending_count() == self.pending_count() + 1,
            forall|j: int|
                0 <= j < self.pending_count() ==> #[trigger] r.pending_agents()[j]
                    == self.pending_agents()[j],
            r.call_log() == self.call_log(),
            r.current_events() == self.current_events(),
            r.live_count() == self.live_count(),
            r.queued_messages() == self.queued_messages(),
            r.spawn_requests() == self.spawn_requests(),
            r.next_identity() == self.next_identity(),
    {
        let mut this = self;
        proof {
            seq_push_facts(this.pending@, agent);
        }
        this.pending.push(agent);
        this
    }

    /// Put an agent on the admission list mid-run — the channel a driver uses
    /// when it extracts a newcomer from a payload of its own (a bundle its
    /// event type carries, say) and hands it to the scheduler. The agent is
    /// started at the next round boundary, after those already waiting.
    pub fn enlist(&mut self, agent: Box<dyn Agent<G::Message>>)
        requires
            old(self).inv(),
        ensures
            final(self).inv(),
            final(self).pending_agents() == old(self).pending_agents().push(agent),
            final(self).pending_count() == old(self).pending_count() + 1,
            forall|j: int|
                0 <= j < old(self).pending_count() ==> #[trigger] final(self).pending_agents()[j]
                    == old(self).pending_agents()[j],
            final(self).call_log() == old(self).call_log(),
            final(self).current_events() == old(self).current_events(),
            final(self).live_count() == old(self).live_count(),
            final(self).queued_messages() == old(self).queued_messages(),
            final(self).spawn_requests() == old(self).spawn_requests(),
            final(self).next_identity() == old(self).next_identity(),
    {
        proof {
            seq_push_facts(self.pending@, agent);
        }
        self.pending.push(agent);
    }

    /// Add a message to be handled in the first round, by the first crop of
    /// spawned agents.
    pub fn queue(self, event: G::Message) -> (r: Runner<G>)
        requires
            self.inv(),
        ensures
            r.inv(),
            r.current_events() == self.current_events().push(event),
            r.call_log() == self.call_log(),
            r.pending_count() == self.pending_count(),
            r.live_count() == self.live_count(),
            r.queued_messages() == self.queued_messages(),
    {
        let mut this = self;
        this.events.push(event);
        this
    }

    /// Hand the game back, once the loop is over.
    pub fn into_game(self) -> G {
        self.game
    }

    /// How many agents are currently live.
    pub fn agent_count(&self) -> (r: usize)
        ensures
            r == self.live_count(),
    {
        self.live.len()
    }

    /// How many events the current round delivers.
    pub fn event_count(&self) -> (r: usize)
        ensures
            r == self.current_events().len(),
    {
        self.events.len()
    }

    /// Hand the current round's events out, leaving none behind: the seam
    /// through which a driver consumes payloads the scheduler's message type
    /// keeps opaque — a bundled agent its own event variant carries, say —
    /// before returning them with [`Self::give_events`] and admitting the
    /// extracted newcomers with [`Self::enlist`].
    pub fn take_events(&mut self) -> (evs: Vec<G::Message>)
        requires
            old(self).inv(),
        ensures
            final(self).inv(),
            evs@ == old(self).current_events(),
            final(self).current_events().len() == 0,
            final(self).call_log() == old(self).call_log(),
            final(self).queued_messages() == old(self).queued_messages(),
            final(self).spawn_requests() == old(self).spawn_requests(),
            final(self).pending_agents() == old(self).pending_agents(),
            final(self).next_identity() == old(self).next_identity(),
            final(self).live_count() == old(self).live_count(),
            forall|k: int|
                0 <= k < old(self).live_count() ==> final(self).live_id_at(k) == old(
                    self,
                ).live_id_at(k) && final(self).live_cf_at(k) == old(self).live_cf_at(k),
    {
        proof {
            seq_empty_facts::<G::Message>();
        }
        let mut evs: Vec<G::Message> = Vec::new();
        mem::swap(&mut evs, &mut self.events);
        evs
    }

    /// Put the current round's events back, exactly as given.
    pub fn give_events(&mut self, evs: Vec<G::Message>)
        requires
            old(self).inv(),
        ensures
            final(self).inv(),
            final(self).current_events() == evs@,
            final(self).call_log() == old(self).call_log(),
            final(self).queued_messages() == old(self).queued_messages(),
            final(self).spawn_requests() == old(self).spawn_requests(),
            final(self).pending_agents() == old(self).pending_agents(),
            final(self).next_identity() == old(self).next_identity(),
            final(self).live_count() == old(self).live_count(),
            forall|k: int|
                0 <= k < old(self).live_count() ==> final(self).live_id_at(k) == old(
                    self,
                ).live_id_at(k) && final(self).live_cf_at(k) == old(self).live_cf_at(k),
    {
        self.events = evs;
    }

    /// Admit every pending agent to the live list, in request order, calling
    /// each one's `start` exactly once as it joins. Agents already live are
    /// untouched; the newcomers take the following positions in request
    /// order, each under a fresh consecutive identity; the log grows by
    /// exactly one `Started` entry per admission, in the same order.
    pub fn intake(&mut self)
        requires
            old(self).inv(),
        ensures
            final(self).inv(),
            final(self).pending_count() == 0,
            final(self).live_count() == old(self).live_count() + old(self).pending_count(),
            final(self).current_events() == old(self).current_events(),
            final(self).spawn_requests() == old(self).spawn_requests(),
            final(self).next_identity() == old(self).next_identity() + old(self).pending_count(),
            // the agents already live are untouched
            forall|k: int|
                0 <= k < old(self).live_count() ==> #[trigger] final(self).live_id_at(k) == old(
                    self,
                ).live_id_at(k) && final(self).live_cf_at(k) == old(self).live_cf_at(k),
            // newcomers stand in request order: the j-th requested agent at
            // position live_count + j, under identity next_identity + j
            forall|j: int|
                0 <= j < old(self).pending_count() ==> #[trigger] final(self).live_id_at(
                    old(self).live_count() + j,
                ) == old(self).next_identity() + j,
            final(self).call_log().len() == old(self).call_log().len() + old(self).pending_count(),
            forall|i: int|
                0 <= i < old(self).call_log().len() ==> #[trigger] final(self).call_log()[i] == old(
                    self,
                ).call_log()[i],
            forall|i: int|
                old(self).call_log().len() <= i < final(self).call_log().len() ==> (
                #[trigger] final(self).call_log()[i]) is Started && call_id(
                    final(self).call_log()[i],
                ) == old(self).next_identity() + (i - old(self).call_log().len()),
    {
        while self.pending.len() > 0
            invariant
                self.inv(),
                self.events@ == old(self).events@,
                self.replies.spawned() == old(self).replies.spawned(),
                self.pending@.len() <= old(self).pending@.len(),
                self.live@.len() == old(self).live@.len() + (old(self).pending@.len()
                    - self.pending@.len()),
                self.next_id@ == old(self).next_id@ + (old(self).pending@.len()
                    - self.pending@.len()),
                self.log@.len() == old(self).log@.len() + (old(self).pending@.len()
                    - self.pending@.len()),
                forall|k: int|
                    0 <= k < old(self).live@.len() ==> #[trigger] self.live@[k] == old(
                        self,
                    ).live@[k],
                forall|j: int|
                    0 <= j < old(self).pending@.len() - self.pending@.len() ==> (
                    #[trigger] self.live@[old(self).live@.len() + j]).id@ == old(self).next_id@
                        + j,
                forall|j: int|
                    0 <= j < self.pending@.len() ==> #[trigger] self.pending@[j] == old(
                        self,
                    ).pending@[old(self).pending@.len() - self.pending@.len() + j],
                forall|i: int|
                    0 <= i < old(self).log@.len() ==> #[trigger] self.log@[i] == old(self).log@[i],
                forall|i: int|
                    old(self).log@.len() <= i < self.log@.len() ==> (#[trigger] self.log@[i])
                        is Started && call_id(self.log@[i]) == old(self).next_id@ + (i - old(
                        self,
                    ).log@.len()),
            decreases self.pending@.len(),
        {
            let ghost prev_pending = self.pending@;
            let ghost prev_log = self.log@;
            let ghost prev_live = self.live@;
            let mut agent = self.pending.remove(0);
            proof {
                seq_remove_facts(prev_pending, 0);
            }
            let cf = agent.start(&mut self.replies.messages);
            let ghost id = self.next_id@;
            let ghost killed = cf is Kill;
            let slot = Slot { cf, agent, id: Ghost(id) };
            let ghost slotg = slot;
            proof {
                seq_push_facts(prev_live, slotg);
                lemma_log_push_started(prev_log, id, killed);
            }
            self.live.push(slot);
            self.log = Ghost(prev_log.push(AgentCall::Started { agent: id, killed }));
            self.next_id = Ghost(id + 1);
            proof {
                let log = self.log@;
                let live = self.live@;
                assert forall|k: int| 0 <= k < prev_live.len() implies #[trigger] live[k]
                    == prev_live[k] by {
                }
                assert(live[live.len() - 1].id@ == slotg.id@);
                assert(live[live.len() - 1].cf == slotg.cf);
                assert forall|k: int| 0 <= k < live.len() implies (#[trigger] live[k]).id@
                    < self.next_id@ by {
                    if k < prev_live.len() {
                        assert(live[k] == prev_live[k]);
                    } else {
                        assert(live[k].id@ == id);
                    }
                }
                assert forall|k1: int, k2: int|
                    0 <= k1 < live.len() && 0 <= k2 < live.len() && k1 != k2 implies (
                #[trigger] live[k1]).id@ != (#[trigger] live[k2]).id@ by {
                    if k1 < prev_live.len() && k2 < prev_live.len() {
                        assert(live[k1] == prev_live[k1]);
                        assert(live[k2] == prev_live[k2]);
                    } else if k1 < prev_live.len() {
                        assert(live[k1] == prev_live[k1]);
                        assert(prev_live[k1].id@ < id);
                        assert(live[k2].id@ == id);
                    } else {
                        assert(live[k2] == prev_live[k2]);
                        assert(prev_live[k2].id@ < id);
                        assert(live[k1].id@ == id);
                    }
                }
                assert forall|k: int| 0 <= k < live.len() implies started_in(
                    log,
                    (#[trigger] live[k]).id@,
                ) by {
                    if k < prev_live.len() {
                        assert(live[k] == prev_live[k]);
                        assert(started_in(prev_log, prev_live[k].id@));
                    } else {
                        assert(live[k].id@ == id);
                    }
                }
                assert forall|k: int|
                    0 <= k < live.len() && !((#[trigger] live[k]).cf is Kill) implies
                    no_kill_record(log, live[k].id@) by {
                    if k < prev_live.len() {
                        assert(live[k] == prev_live[k]);
                        assert(no_kill_record(prev_log, prev_live[k].id@));
                        assert(prev_live[k].id@ != id);
                    } else {
                        assert(live[k].id@ == id);
                        assert(live[k].cf == slotg.cf);
                        assert(!killed);
                    }
                }
                assert forall|j: int|
                    0 <= j < old(self).pending@.len() - self.pending@.len() implies (
                #[trigger] live[old(self).live@.len() + j]).id@ == old(self).next_id@ + j by {
                    if old(self).live@.len() + j < prev_live.len() {
                        assert(live[old(self).live@.len() + j] == prev_live[old(self).live@.len()
                            + j]);
                    } else {
                        assert(live[old(self).live@.len() + j].id@ == id);
                    }
                }
            }
        }
    }

    /// Deliver every current event, in list order, to every live agent in
    /// live-list order. The host sees each event once, before the agents do;
    /// if it answers `Quit` the round stops there. An agent is called exactly
    /// when its state reports ready at that moment, and each answer
    /// overwrites its state, so an agent that answers `Kill` (or goes to
    /// sleep) mid-round receives no later event of the round. The returned
    /// ghost trace records, per event and per agent, whether the agent was
    /// called and what its answer became, and the call log grows by exactly
    /// the recorded calls, in order.
    pub fn dispatch(&mut self) -> (r: (RoundOutcome, Ghost<Seq<EventTrace>>))
        requires
            old(self).inv(),
        ensures
            final(self).inv(),
            final(self).current_events() == old(self).current_events(),
            final(self).pending_agents() == old(self).pending_agents(),
            final(self).spawn_requests() == old(self).spawn_requests(),
            final(self).next_identity() == old(self).next_identity(),
            final(self).live_count() == old(self).live_count(),
            forall|k: int|
                0 <= k < old(self).live_count() ==> final(self).live_id_at(k) == old(
                    self,
                ).live_id_at(k),
            // one trace entry per event shown to the host, in list order; the
            // round covers every event unless the host quit at the last entry
            r.1@.len() <= old(self).current_events().len(),
            !r.0.quit ==> r.1@.len() == old(self).current_events().len(),
            r.0.quit ==> r.1@.len() >= 1 && r.1@.last().host_quit && r.1@.last().visits.len() == 0,
            forall|e: int|
                0 <= e < r.1@.len() ==> ((#[trigger] r.1@[e]).host_quit <==> (r.0.quit && e
                    == r.1@.len() - 1)),
            forall|e: int|
                0 <= e < r.1@.len() && !(#[trigger] r.1@[e]).host_quit ==> r.1@[e].visits.len()
                    == old(self).live_count(),
            // every visit is a call under the visited agent's identity, or a
            // skip of an agent whose state was not `Continue` at that moment
            forall|e: int, k: int|
                0 <= e < r.1@.len() && 0 <= k < r.1@[e].visits.len() ==> (match (
                #[trigger] r.1@[e].visits[k]) {
                    Visit::Called { agent, .. } => agent == old(self).live_id_at(k),
                    Visit::Skipped { was } => !(was is Always) && was == kind_after(
                        r.1@.subrange(0, e),
                        k,
                        cf_kind(old(self).live_cf_at(k)),
                    ),
                }),
            // each agent ends in the kind of its last answer (or its old kind
            // if it was never called)
            forall|k: int|
                0 <= k < old(self).live_count() ==> cf_kind(#[trigger] final(self).live_cf_at(k))
                    == kind_after(r.1@, k, cf_kind(old(self).live_cf_at(k))),
            // the log records exactly the calls made, in the order made
            final(self).call_log() == old(self).call_log() + trace_reacts(r.1@),
            final(self).call_log().len() >= old(self).call_log().len(),
            forall|i: int|
                0 <= i < old(self).call_log().len() ==> #[trigger] final(self).call_log()[i] == old(
                    self,
                ).call_log()[i],
            forall|i: int|
                old(self).call_log().len() <= i < final(self).call_log().len() ==> (
                #[trigger] final(self).call_log()[i]) is Reacted,
    {
        let mut tainted = false;
        let mut trace: Ghost<Seq<EventTrace>> = Ghost(Seq::empty());
        proof {
            assert(self.log@ =~= old(self).log@ + trace_reacts(trace@));
        }
        let mut e: usize = 0;
        let n_events = self.events.len();
        while e < n_events
            invariant
                self.inv(),
                n_events == self.events@.len(),
                e <= n_events,
                self.events@ == old(self).events@,
                self.pending@ == old(self).pending@,
                self.replies.spawned() == old(self).replies.spawned(),
                self.next_id@ == old(self).next_id@,
                self.live@.len() == old(self).live@.len(),
                forall|k: int|
                    0 <= k < old(self).live@.len() ==> (#[trigger] self.live@[k]).id@ == old(
                        self,
                    ).live@[k].id@,
                self.log@.len() >= old(self).log@.len(),
                forall|i: int|
                    0 <= i < old(self).log@.len() ==> #[trigger] self.log@[i] == old(self).log@[i],
                forall|i: int|
                    old(self).log@.len() <= i < self.log@.len() ==> (#[trigger] self.log@[i])
                        is Reacted,
                trace@.len() == e,
                forall|e2: int| 0 <= e2 < e ==> !(#[trigger] trace@[e2]).host_quit,
                forall|e2: int|
                    0 <= e2 < e ==> (#[trigger] trace@[e2]).visits.len() == old(self).live@.len(),
                forall|e2: int, k: int|
                    0 <= e2 < e && 0 <= k < trace@[e2].visits.len() ==> (match (
                    #[trigger] trace@[e2].visits[k]) {
                        Visit::Called { agent, .. } => agent == old(self).live@[k].id@,
                        Visit::Skipped { was } => !(was is Always) && was == kind_after(
                            trace@.subrange(0, e2),
                            k,
                            cf_kind(old(self).live@[k].cf),
                        ),
                    }),
                forall|k: int|
                    0 <= k < old(self).live@.len() ==> cf_kind((#[trigger] self.live@[k]).cf)
                        == kind_after(trace@, k, cf_kind(old(self).live@[k].cf)),
                self.log@ == old(self).log@ + trace_reacts(trace@),
            decreases n_events - e,
        {
            match self.game.event(&self.events[e]) {
                Response::Nothing => (),
                Response::Redraw => {
                    tainted = true;
                },
                Response::Quit => {
                    let ghost pre_trace = trace@;
                    proof {
                        seq_empty_facts::<Visit>();
                    }
                    trace = Ghost(
                        trace@.push(EventTrace { host_quit: true, visits: Seq::empty() }),
                    );
                    proof {
                        assert(trace@.drop_last() == pre_trace);
                        assert(trace@.last() == (EventTrace {
                            host_quit: true,
                            visits: Seq::<Visit>::empty(),
                        }));
                        assert(visit_reacts(Seq::<Visit>::empty()) =~= Seq::<AgentCall>::empty());
                        assert(trace_reacts(trace@) =~= trace_reacts(pre_trace));
                        assert(self.log@ == old(self).log@ + trace_reacts(trace@));
                        assert forall|k: int| 0 <= k < old(self).live@.len() implies cf_kind(
                            (#[trigger] self.live@[k]).cf,
                        ) == kind_after(trace@, k, cf_kind(old(self).live@[k].cf)) by {
                            assert(kind_after(trace@, k, cf_kind(old(self).live@[k].cf))
                                == kind_after(pre_trace, k, cf_kind(old(self).live@[k].cf)));
                        }
                        assert forall|e2: int, k2: int|
                            0 <= e2 < trace@.len() && 0 <= k2 < trace@[e2].visits.len() implies (
                        match (#[trigger] trace@[e2].visits[k2]) {
                            Visit::Called { agent, .. } => agent == old(self).live@[k2].id@,
                            Visit::Skipped { was } => !(was is Always) && was == kind_after(
                                trace@.subrange(0, e2),
                                k2,
                                cf_kind(old(self).live@[k2].cf),
                            ),
                        }) by {
                            assert(e2 < pre_trace.len());
                            assert(trace@[e2] == pre_trace[e2]);
                            assert(trace@.subrange(0, e2) =~= pre_trace.subrange(0, e2));
                        }
                    }
                    return (RoundOutcome { tainted, quit: true }, trace);
                },
            }
            let ghost pre_trace = trace@;
            let mut visits: Ghost<Seq<Visit>> = Ghost(Seq::empty());
            proof {
                assert(visit_reacts(visits@) =~= Seq::<AgentCall>::empty());
                assert(self.log@ =~= old(self).log@ + trace_reacts(pre_trace) + visit_reacts(
                    visits@,
                ));
            }
            let n_live = self.live.len();
            let mut k: usize = 0;
            while k < n_live
                invariant
                    self.inv(),
                    n_events == self.events@.len(),
                    e < n_events,
                    n_live == self.live@.len(),
                    k <= n_live,
                    self.events@ == old(self).events@,
                    self.pending@ == old(self).pending@,
                    self.replies.spawned() == old(self).replies.spawned(),
                    self.next_id@ == old(self).next_id@,
                    self.live@.len() == old(self).live@.len(),
                    forall|j: int|
                        0 <= j < old(self).live@.len() ==> (#[trigger] self.live@[j]).id@ == old(
                            self,
                        ).live@[j].id@,
                    self.log@.len() >= old(self).log@.len(),
                    forall|i: int|
                        0 <= i < old(self).log@.len() ==> #[trigger] self.log@[i] == old(
                            self,
                        ).log@[i],
                    forall|i: int|
                        old(self).log@.len() <= i < self.log@.len() ==> (#[trigger] self.log@[i])
                            is Reacted,
                    pre_trace == trace@,
                    trace@.len() == e,
                    forall|e2: int| 0 <= e2 < e ==> !(#[trigger] trace@[e2]).host_quit,
                    forall|e2: int|
                        0 <= e2 < e ==> (#[trigger] trace@[e2]).visits.len() == old(
                            self,
                        ).live@.len(),
                    forall|e2: int, k2: int|
                        0 <= e2 < e && 0 <= k2 < trace@[e2].visits.len() ==> (match (
                        #[trigger] trace@[e2].visits[k2]) {
                            Visit::Called { agent, .. } => agent == old(self).live@[k2].id@,
                            Visit::Skipped { was } => !(was is Always) && was == kind_after(
                                trace@.subrange(0, e2),
                                k2,
                                cf_kind(old(self).live@[k2].cf),
                            ),
                        }),
                    visits@.len() == k,
                    forall|k2: int|
                        0 <= k2 < k ==> (match (#[trigger] visits@[k2]) {
                            Visit::Called { agent, .. } => agent == old(self).live@[k2].id@,
                            Visit::Skipped { was } => !(was is Always) && was == kind_after(
                                trace@,
                                k2,
                                cf_kind(old(self).live@[k2].cf),
                            ),
                        }),
                    forall|k2: int|
                        0 <= k2 < old(self).live@.len() ==> cf_kind((#[trigger] self.live@[k2]).cf)
                            == kind_with(
                            visits@,
                            k2,
                            kind_after(trace@, k2, cf_kind(old(self).live@[k2].cf)),
                        ),
                    self.log@ == old(self).log@ + trace_reacts(trace@) + visit_reacts(visits@),
                decreases n_live - k,
            {
                let ghost prev_live = self.live@;
                let ghost prev_log = self.log@;
                let ghost prev_visits = visits@;
                let ghost id = self.live@[k as int].id@;
                let ghost was = cf_kind(self.live@[k as int].cf);
                let slot = &mut self.live[k];
                let ready = slot.cf.is_ready();
                if ready {
                    proof {
                        assert(!(prev_live[k as int].cf is Kill));
                        assert(no_kill_record(prev_log, id));
                        assert(started_in(prev_log, id));
                    }
                    let cf = slot.agent.react(&self.events[e], &mut self.replies.messages);
                    let ghost killed = cf is Kill;
                    let ghost became = cf_kind(cf);
                    slot.cf = cf;
                    proof {
                        lemma_log_push_reacted(prev_log, id, killed, self.next_id@);
                    }
                    self.log = Ghost(prev_log.push(AgentCall::Reacted { agent: id, killed }));
                    visits = Ghost(prev_visits.push(Visit::Called { agent: id, became }));
                    proof {
                        let log = self.log@;
                        let live = self.live@;
                        assert(live.len() == prev_live.len());
                        assert(live[k as int].id@ == id);
                        assert(forall|j: int|
                            0 <= j < prev_live.len() && j != k ==> live[j] == prev_live[j]);
                        assert(live[k as int].cf is Kill == killed);
                        assert(cf_kind(live[k as int].cf) == became);
                        assert(became is Dead <==> killed);
                        assert forall|j: int| 0 <= j < live.len() implies started_in(
                            log,
                            (#[trigger] live[j]).id@,
                        ) by {
                            if j != k {
                                assert(live[j] == prev_live[j]);
                            }
                            assert(started_in(prev_log, prev_live[j].id@));
                            assert(live[j].id@ == prev_live[j].id@);
                        }
                        assert forall|j: int|
                            0 <= j < live.len() && !((#[trigger] live[j]).cf is Kill) implies
                            no_kill_record(log, live[j].id@) by {
                            if j == k {
                                assert(!killed);
                                assert(no_kill_record(log, id));
                            } else {
                                assert(live[j] == prev_live[j]);
                                assert(no_kill_record(prev_log, prev_live[j].id@));
                                assert(prev_live[j].id@ != id);
                            }
                        }
                        assert forall|k1: int, k2: int|
                            0 <= k1 < live.len() && 0 <= k2 < live.len() && k1 != k2 implies (
                        #[trigger] live[k1]).id@ != (#[trigger] live[k2]).id@ by {
                            assert(live[k1].id@ == prev_live[k1].id@);
                            assert(live[k2].id@ == prev_live[k2].id@);
                        }
                        assert forall|j: int| 0 <= j < live.len() implies (#[trigger] live[j]).id@
                            < self.next_id@ by {
                            assert(live[j].id@ == prev_live[j].id@);
                        }
                        // the new visit extends the event's recorded calls
                        assert(visits@.drop_last() == prev_visits);
                        assert(visits@.last() == (Visit::Called { agent: id, became }));
                        assert(visit_reacts(visits@) =~= visit_reacts(prev_visits).push(
                            AgentCall::Reacted { agent: id, killed },
                        ));
                        assert(log =~= old(self).log@ + trace_reacts(trace@) + visit_reacts(
                            visits@,
                        ));
                        assert forall|k2: int|
                            0 <= k2 < old(self).live@.len() implies cf_kind(
                            (#[trigger] self.live@[k2]).cf,
                        ) == kind_with(
                            visits@,
                            k2,
                            kind_after(trace@, k2, cf_kind(old(self).live@[k2].cf)),
                        ) by {
                            if k2 < prev_visits.len() {
                                assert(visits@[k2] == prev_visits[k2]);
                                assert(self.live@[k2] == prev_live[k2]);
                            } else if k2 == k {
                                assert(visits@[k2] == (Visit::Called { agent: id, became }));
                            } else {
                                assert(self.live@[k2] == prev_live[k2]);
                            }
                        }
                    }
                } else {
                    proof {
                        assert(!(prev_live[k as int].cf is Continue));
                        assert(!(was is Always));
                        assert(kind_with(
                            prev_visits,
                            k as int,
                            kind_after(trace@, k as int, cf_kind(old(self).live@[k as int].cf)),
                        ) == kind_after(trace@, k as int, cf_kind(old(self).live@[k as int].cf)));
                        assert(was == kind_after(
                            trace@,
                            k as int,
                            cf_kind(old(self).live@[k as int].cf),
                        ));
                    }
                    visits = Ghost(prev_visits.push(Visit::Skipped { was }));
                    proof {
                        assert(visits@.drop_last() == prev_visits);
                        assert(visits@.last() == (Visit::Skipped { was }));
                        assert(visit_reacts(visits@) =~= visit_reacts(prev_visits));
                        assert(self.log@ =~= old(self).log@ + trace_reacts(trace@) + visit_reacts(
                            visits@,
                        ));
                        assert forall|k2: int|
                            0 <= k2 < old(self).live@.len() implies cf_kind(
                            (#[trigger] self.live@[k2]).cf,
                        ) == kind_with(
                            visits@,
                            k2,
                            kind_after(trace@, k2, cf_kind(old(self).live@[k2].cf)),
                        ) by {
                            if k2 < prev_visits.len() {
                                assert(visits@[k2] == prev_visits[k2]);
                            } else if k2 == k {
                                assert(visits@[k2] == (Visit::Skipped { was }));
                            }
                        }
                    }
                }
                k = k + 1;
            }
            trace = Ghost(trace@.push(EventTrace { host_quit: false, visits: visits@ }));
            proof {
                assert(trace@.drop_last() == pre_trace);
                assert(trace@.last() == (EventTrace { host_quit: false, visits: visits@ }));
                assert(trace_reacts(trace@) =~= trace_reacts(pre_trace) + visit_reacts(visits@));
                assert(self.log@ =~= old(self).log@ + trace_reacts(trace@));
                assert forall|k2: int| 0 <= k2 < old(self).live@.len() implies cf_kind(
                    (#[trigger] self.live@[k2]).cf,
                ) == kind_after(trace@, k2, cf_kind(old(self).live@[k2].cf)) by {
                    assert(kind_after(trace@, k2, cf_kind(old(self).live@[k2].cf)) == kind_with(
                        visits@,
                        k2,
                        kind_after(pre_trace, k2, cf_kind(old(self).live@[k2].cf)),
                    ));
                }
                assert forall|e2: int, k2: int|
                    0 <= e2 < trace@.len() && 0 <= k2 < trace@[e2].visits.len() implies (match (
                #[trigger] trace@[e2].visits[k2]) {
                    Visit::Called { agent, .. } => agent == old(self).live@[k2].id@,
                    Visit::Skipped { was } => !(was is Always) && was == kind_after(
                        trace@.subrange(0, e2),
                        k2,
                        cf_kind(old(self).live@[k2].cf),
                    ),
                }) by {
                    assert(trace@.subrange(0, e2) =~= pre_trace.subrange(0, e2));
                    if e2 < pre_trace.len() {
                        assert(trace@[e2] == pre_trace[e2]);
                    } else {
                        assert(trace@[e2].visits == visits@);
                        assert(trace@.subrange(0, e2) =~= pre_trace);
                    }
                }
            }
            e = e + 1;
        }
        (RoundOutcome { tainted, quit: false }, trace)
    }

    /// The round boundary's double-buffer swap: the messages queued this
    /// round become — exactly and in order — the next round's events, the
    /// queue is left empty, and the host's requested spawns move to the
    /// admission list. Nothing else changes: the events just delivered are
    /// discarded, so an event reappears later only if someone queued it
    /// again.
    pub fn swap_buffers(&mut self)
        requires
            old(self).inv(),
        ensures
            final(self).inv(),
            final(self).current_events() == old(self).queued_messages(),
            final(self).queued_messages().len() == 0,
            // the requested spawns become — exactly and in order — the
            // admission list, and the old admission list goes back into the
            // (normally empty) request buffer
            final(self).pending_agents() == old(self).spawn_requests(),
            final(self).spawn_requests() == old(self).pending_agents(),
            final(self).pending_count() == old(self).spawn_requests().len(),
            final(self).next_identity() == old(self).next_identity(),
            final(self).call_log() == old(self).call_log(),
            final(self).live_count() == old(self).live_count(),
            forall|k: int|
                0 <= k < old(self).live_count() ==> final(self).live_id_at(k) == old(
                    self,
                ).live_id_at(k) && final(self).live_cf_at(k) == old(self).live_cf_at(k),
    {
        proof {
            seq_empty_facts::<G::Message>();
        }
        mem::swap(&mut self.replies.messages, &mut self.events);
        self.replies.messages.clear();
        mem::swap(&mut self.replies.agents, &mut self.pending);
    }

    /// Remove from the live list every agent whose state is `Kill`, and every
    /// sleeper whose handle reported that no other strong reference remains —
    /// an orphan nobody could ever wake (see [`retain_decision`]). Every
    /// other agent survives, though the sweep may reorder them; callers must
    /// not rely on agent positions across rounds.
    pub fn sweep(&mut self) -> (evidence: (Ghost<Seq<int>>, Ghost<Seq<usize>>, Ghost<Seq<int>>))
        requires
            old(self).inv(),
        ensures
            final(self).inv(),
            final(self).call_log() == old(self).call_log(),
            final(self).current_events() == old(self).current_events(),
            final(self).queued_messages() == old(self).queued_messages(),
            final(self).spawn_requests() == old(self).spawn_requests(),
            final(self).pending_count() == old(self).pending_count(),
            final(self).next_identity() == old(self).next_identity(),
            final(self).live_count() <= old(self).live_count(),
            // no survivor answered Kill
            forall|k: int|
                0 <= k < final(self).live_count() ==> !((#[trigger] final(self).live_cf_at(k))
                    is Kill),
            // evidence.0 maps each survivor to the old position of the same
            // agent, unchanged in identity and state: nothing is invented
            evidence.0@.len() == final(self).live_count(),
            forall|k: int|
                0 <= k < evidence.0@.len() ==> 0 <= #[trigger] evidence.0@[k] < old(
                    self,
                ).live_count() && final(self).live_id_at(k) == old(self).live_id_at(evidence.0@[k])
                    && final(self).live_cf_at(k) == old(self).live_cf_at(evidence.0@[k]),
            // evidence.1 holds, per old position, the strong-reference count
            // the agent's handle reported (0 where the state carried none);
            // evidence.2 maps each old position to the agent's new position,
            // or below zero where it was dropped. Retention is exactly the
            // decision rule applied to the reported count.
            evidence.1@.len() == old(self).live_count(),
            evidence.2@.len() == old(self).live_count(),
            forall|j: int|
                0 <= j < old(self).live_count() ==> (retain_decision(
                    old(self).live_cf_at(j),
                    #[trigger] evidence.1@[j],
                ) <==> evidence.2@[j] >= 0),
            forall|j: int|
                0 <= j < old(self).live_count() && #[trigger] evidence.2@[j] >= 0 ==> evidence.2@[j]
                    < final(self).live_count() && final(self).live_id_at(evidence.2@[j]) == old(
                    self,
                ).live_id_at(j) && final(self).live_cf_at(evidence.2@[j]) == old(self).live_cf_at(
                    j,
                ),
            // in particular an always-ready agent is always retained
            forall|j: int|
                0 <= j < old(self).live_count() && (#[trigger] old(self).live_cf_at(j))
                    is Continue ==> evidence.2@[j] >= 0,
    {
        let ghost orig = self.live@;
        let mut kept: Vec<Slot<G::Message>> = Vec::new();
        let mut origins: Ghost<Seq<int>> = Ghost(Seq::empty());
        let mut refs_log: Ghost<Seq<usize>> = Ghost(Seq::new(orig.len(), |j: int| 0usize));
        let mut fate: Ghost<Seq<int>> = Ghost(Seq::new(orig.len(), |j: int| -1));
        proof {
            seq_empty_facts::<Slot<G::Message>>();
        }
        while self.live.len() > 0
            invariant
                self.inv(),
                orig == old(self).live@,
                self.live@.len() <= orig.len(),
                forall|j: int| 0 <= j < self.live@.len() ==> #[trigger] self.live@[j] == orig[j],
                forall|j1: int, j2: int|
                    0 <= j1 < orig.len() && 0 <= j2 < orig.len() && j1 != j2 ==> (
                    #[trigger] orig[j1]).id@ != (#[trigger] orig[j2]).id@,
                self.events@ == old(self).events@,
                self.pending@ == old(self).pending@,
                self.log@ == old(self).log@,
                self.next_id@ == old(self).next_id@,
                self.replies.queued() == old(self).replies.queued(),
                self.replies.spawned() == old(self).replies.spawned(),
                kept@.len() <= orig.len() - self.live@.len(),
                forall|k: int| 0 <= k < kept@.len() ==> !((#[trigger] kept@[k]).cf is Kill),
                origins@.len() == kept@.len(),
                forall|k: int|
                    0 <= k < origins@.len() ==> self.live@.len() <= #[trigger] origins@[k]
                        < orig.len() && kept@[k] == orig[origins@[k]],
                refs_log@.len() == orig.len(),
                fate@.len() == orig.len(),
                forall|j: int| 0 <= j < self.live@.len() ==> #[trigger] fate@[j] == -1,
                forall|j: int|
                    self.live@.len() <= j < orig.len() ==> (retain_decision(
                        (#[trigger] orig[j]).cf,
                        refs_log@[j],
                    ) <==> fate@[j] >= 0),
                forall|j: int|
                    self.live@.len() <= j < orig.len() && #[trigger] fate@[j] >= 0 ==> fate@[j]
                        < kept@.len() && kept@[fate@[j]] == orig[j],
                forall|k: int, j: int|
                    0 <= k < kept@.len() && 0 <= j < self.live@.len() ==> (#[trigger] kept@[k]).id@
                        != (#[trigger] self.live@[j]).id@,
                forall|k1: int, k2: int|
                    0 <= k1 < kept@.len() && 0 <= k2 < kept@.len() && k1 != k2 ==> (
                    #[trigger] kept@[k1]).id@ != (#[trigger] kept@[k2]).id@,
            decreases self.live@.len(),
        {
            let ghost prev_live = self.live@;
            let ghost prev_kept = kept@;
            let ghost m = prev_live.len() - 1;
            let slot = self.live.pop().unwrap();
            let ghost slotg = slot;
            proof {
                seq_subrange_facts(prev_live, 0, m);
                assert(slotg == prev_live[m]);
                assert(slotg == orig[m]);
                assert(forall|j: int| 0 <= j < m ==> #[trigger] self.live@[j] == prev_live[j]);
            }
            let refs = match &slot.cf {
                ControlFlow::Handle(h) => h.references(),
                _ => 0,
            };
            let keep = should_retain(&slot.cf, refs);
            if keep {
                proof {
                    seq_push_facts(prev_kept, slotg);
                }
                kept.push(slot);
                let ghost prev_origins = origins@;
                let ghost prev_fate = fate@;
                origins = Ghost(origins@.push(m));
                refs_log = Ghost(refs_log@.update(m, refs));
                fate = Ghost(fate@.update(m, prev_kept.len() as int));
                proof {
                    assert forall|k: int|
                        0 <= k < origins@.len() implies self.live@.len() <= #[trigger] origins@[k]
                        < orig.len() && kept@[k] == orig[origins@[k]] by {
                        if k < prev_origins.len() {
                            assert(origins@[k] == prev_origins[k]);
                            assert(kept@[k] == prev_kept[k]);
                        } else {
                            assert(origins@[k] == m);
                            assert(kept@[k] == slotg);
                        }
                    }
                    assert forall|j: int|
                        self.live@.len() <= j < orig.len() implies (retain_decision(
                        (#[trigger] orig[j]).cf,
                        refs_log@[j],
                    ) <==> fate@[j] >= 0) by {
                        if j == m {
                            assert(fate@[m] == prev_kept.len() as int);
                            assert(retain_decision(orig[m].cf, refs));
                        } else {
                            assert(fate@[j] == prev_fate[j]);
                        }
                    }
                    assert forall|j: int|
                        self.live@.len() <= j < orig.len() && #[trigger] fate@[j]
                            >= 0 implies fate@[j] < kept@.len() && kept@[fate@[j]] == orig[j] by {
                        if j == m {
                            assert(kept@[prev_kept.len() as int] == slotg);
                        } else {
                            assert(fate@[j] == prev_fate[j]);
                            assert(kept@[prev_fate[j]] == prev_kept[prev_fate[j]]);
                        }
                    }
                    assert forall|k: int, j: int|
                        0 <= k < kept@.len() && 0 <= j < self.live@.len() implies (
                    #[trigger] kept@[k]).id@ != (#[trigger] self.live@[j]).id@ by {
                        assert(self.live@[j] == orig[j]);
                        if k < prev_kept.len() {
                            assert(kept@[k] == prev_kept[k]);
                        } else {
                            assert(kept@[k] == orig[m]);
                            assert(orig[m].id@ != orig[j].id@);
                        }
                    }
                    assert forall|k1: int, k2: int|
                        0 <= k1 < kept@.len() && 0 <= k2 < kept@.len() && k1 != k2 implies (
                    #[trigger] kept@[k1]).id@ != (#[trigger] kept@[k2]).id@ by {
                        if k1 < prev_kept.len() && k2 < prev_kept.len() {
                            assert(kept@[k1] == prev_kept[k1]);
                            assert(kept@[k2] == prev_kept[k2]);
                        } else if k1 < prev_kept.len() {
                            assert(kept@[k1] == prev_kept[k1]);
                            assert(kept@[k2] == slotg);
                            assert(prev_kept[k1].id@ != prev_live[m].id@);
                        } else {
                            assert(kept@[k2] == prev_kept[k2]);
                            assert(kept@[k1] == slotg);
                            assert(prev_kept[k2].id@ != prev_live[m].id@);
                        }
                    }
                }
            } else {
                let ghost prev_fate = fate@;
                refs_log = Ghost(refs_log@.update(m, refs));
                proof {
                    assert(!(retain_decision(slotg.cf, refs)));
                    assert(!(slotg.cf is Continue));
                    assert(fate@[m] == -1);
                    assert forall|j: int|
                        self.live@.len() <= j < orig.len() implies (retain_decision(
                        (#[trigger] orig[j]).cf,
                        refs_log@[j],
                    ) <==> fate@[j] >= 0) by {
                        if j == m {
                            assert(refs_log@[m] == refs);
                        }
                    }
                    assert forall|j: int|
                        self.live@.len() <= j < orig.len() && #[trigger] fate@[j]
                            >= 0 implies fate@[j] < kept@.len() && kept@[fate@[j]] == orig[j] by {
                        assert(j != m);
                    }
                }
            }
        }
        self.live = kept;
        proof {
            let live = self.live@;
            let log = self.log@;
            assert forall|k: int| 0 <= k < live.len() implies (#[trigger] live[k]).id@
                < self.next_id@ by {
                assert(live[k] == orig[origins@[k]]);
                assert(orig[origins@[k]].id@ < old(self).next_id@);
            }
            assert forall|k: int| 0 <= k < live.len() implies started_in(
                log,
                (#[trigger] live[k]).id@,
            ) by {
                assert(live[k] == orig[origins@[k]]);
                assert(started_in(old(self).log@, orig[origins@[k]].id@));
            }
            assert forall|k: int|
                0 <= k < live.len() && !((#[trigger] live[k]).cf is Kill) implies no_kill_record(
                log,
                live[k].id@,
            ) by {
                assert(live[k] == orig[origins@[k]]);
                assert(no_kill_record(old(self).log@, orig[origins@[k]].id@));
            }
            assert forall|k: int|
                0 <= k < origins@.len() implies 0 <= #[trigger] origins@[k] < orig.len()
                && self.live_id_at(k) == orig[origins@[k]].id@ && self.live_cf_at(k)
                == orig[origins@[k]].cf by {
                assert(live[k] == orig[origins@[k]]);
            }
            assert forall|j: int|
                0 <= j < orig.len() && #[trigger] fate@[j] >= 0 implies fate@[j] < live.len()
                && self.live_id_at(fate@[j]) == orig[j].id@ && self.live_cf_at(fate@[j])
                == orig[j].cf by {
                assert(live[fate@[j]] == orig[j]);
            }
            assert forall|j: int|
                0 <= j < orig.len() && (#[trigger] orig[j]).cf is Continue implies fate@[j]
                >= 0 by {
                assert(retain_decision(orig[j].cf, refs_log@[j]));
            }
        }
        (origins, refs_log, fate)
    }

    /// Run one full round: admit pending agents, handle one piece of input if
    /// any arrived, dispatch the current events, then swap the buffers and
    /// sweep the dead. On a quit — the window closed, or the game answered
    /// `Quit` to the input or to an event — the round stops where it stands
    /// and reports it; a quit is never reported for any other reason, so a
    /// round fed no input and no events does not quit.
    pub fn round(&mut self, input: Option<Action>) -> (r: RoundOutcome)
        requires
            old(self).inv(),
        ensures
            final(self).inv(),
            final(self).call_log().len() >= old(self).call_log().len(),
            forall|i: int|
                0 <= i < old(self).call_log().len() ==> #[trigger] final(self).call_log()[i] == old(
                    self,
                ).call_log()[i],
            // a quit needs a source: the input, or an event shown to the host
            r.quit ==> input is Some || old(self).current_events().len() >= 1,
            input is None && old(self).current_events().len() == 0 ==> !r.quit,
            !r.quit ==> final(self).queued_messages().len() == 0,
            !r.quit ==> forall|k: int|
                0 <= k < final(self).live_count() ==> !((#[trigger] final(self).live_cf_at(k))
                    is Kill),
            !r.quit && input is None ==> final(self).pending_count() == old(
                self,
            ).spawn_requests().len(),
    {
        self.intake();
        let mut tainted = false;
        match input {
            None => (),
            Some(a) => match a {
                Action::Closed => {
                    return RoundOutcome { tainted, quit: true };
                },
                Action::Redraw => {
                    tainted = true;
                },
                other => match self.game.input(other, &mut self.replies) {
                    Response::Nothing => (),
                    Response::Redraw => {
                        tainted = true;
                    },
                    Response::Quit => {
                        return RoundOutcome { tainted, quit: true };
                    },
                },
            },
        }
        let (d, _trace) = self.dispatch();
        if d.quit {
            return RoundOutcome { tainted: tainted || d.tainted, quit: true };
        }
        self.swap_buffers();
        let _ = self.sweep();
        RoundOutcome { tainted: tainted || d.tainted, quit: false }
    }

    /// Run headless rounds, with no input, until the game asks to quit or
    /// `max_rounds` rounds have passed. Returns whether the game quit, with a
    /// ghost record of every round's outcome: the rounds before the last
    /// reported no quit, the last reports exactly the returned flag, and
    /// without a quit all `max_rounds` rounds ran.
    pub fn run_rounds(&mut self, max_rounds: usize) -> (r: (bool, Ghost<Seq<RoundOutcome>>))
        requires
            old(self).inv(),
        ensures
            final(self).inv(),
            final(self).call_log().len() >= old(self).call_log().len(),
            forall|i: int|
                0 <= i < old(self).call_log().len() ==> #[trigger] final(self).call_log()[i] == old(
                    self,
                ).call_log()[i],
            r.1@.len() <= max_rounds,
            forall|i: int| 0 <= i < r.1@.len() - 1 ==> !(#[trigger] r.1@[i]).quit,
            r.0 <==> r.1@.len() >= 1 && r.1@.last().quit,
            !r.0 ==> r.1@.len() == max_rounds,
            !r.0 && max_rounds >= 1 ==> final(self).queued_messages().len() == 0 && (forall|k: int|
                0 <= k < final(self).live_count() ==> !((#[trigger] final(self).live_cf_at(k))
                    is Kill)),
    {
        let mut outcomes: Ghost<Seq<RoundOutcome>> = Ghost(Seq::empty());
        let mut n: usize = 0;
        while n < max_rounds
            invariant
                self.inv(),
                n <= max_rounds,
                self.log@.len() >= old(self).log@.len(),
                forall|i: int|
                    0 <= i < old(self).log@.len() ==> #[trigger] self.log@[i] == old(self).log@[i],
                outcomes@.len() == n,
                forall|i: int| 0 <= i < outcomes@.len() ==> !(#[trigger] outcomes@[i]).quit,
                n >= 1 ==> self.queued_messages().len() == 0 && (forall|k: int|
                    0 <= k < self.live_count() ==> !((#[trigger] self.live_cf_at(k)) is Kill)),
            decreases max_rounds - n,
        {
            let out = self.round(None);
            outcomes = Ghost(outcomes@.push(out));
            if out.quit {
                return (true, outcomes);
            }
            n = n + 1;
        }
        (false, outcomes)
    }

    /// Let the game draw itself.
    pub fn render(&mut self, onto: &mut Screen)
        requires
            old(self).inv(),
        ensures
            final(self).inv(),
            final(self).call_log() == old(self).call_log(),
            final(self).current_events() == old(self).current_events(),
            final(self).queued_messages() == old(self).queued_messages(),
            final(self).live_count() == old(self).live_count(),
            final(self).pending_count() == old(self).pending_count(),
    {
        self.game.render(onto);
    }
}

impl<G: Game<Message = Event>> Runner<G> {
    /// Consume every `Install` bundle among the current events and hand the
    /// carried tools out, in event order, for the host to register. The
    /// emptied events stay in place, so agents still see that an
    /// installation happened; a second consumer that tries to take the same
    /// bundle gets nothing.
    pub fn take_tools(&mut self) -> (tools: Vec<Box<dyn Tool>>)
        requires
            old(self).inv(),
        ensures
            final(self).inv(),
            final(self).call_log() == old(self).call_log(),
            final(self).live_count() == old(self).live_count(),
            final(self).pending_count() == old(self).pending_count(),
            final(self).current_events().len() == old(self).current_events().len(),
            final(self).queued_messages() == old(self).queued_messages(),
            tools@ == install_payloads(old(self).current_events()),
            // the consumed bundles stay in place, emptied: a second consumer
            // of the same events gets nothing
            forall|i: int|
                0 <= i < old(self).current_events().len() && old(self).current_events()[i]
                    is Install ==> ((#[trigger] final(self).current_events()[i]) matches
                    Event::Install(b) && b.payload() is None),
            forall|i: int|
                0 <= i < old(self).current_events().len() && !(old(self).current_events()[i]
                    is Install) ==> #[trigger] final(self).current_events()[i] == old(
                    self,
                ).current_events()[i],
    {
        drain_installs(&mut self.events)
    }
}

/// Every reaction in a well-formed call log comes strictly after the one
/// start of the same agent: agents are started exactly once, before any
/// react. A runner's log is well-formed whenever its invariant holds (see
/// [`lemma_runner_log_wf`]).
pub proof fn lemma_start_before_react(log: Seq<AgentCall>, j: int)
    requires
        log_wf(log),
        0 <= j < log.len(),
        log[j] is Reacted,
    ensures
        exists|i: int|
            0 <= i < j && (#[trigger] log[i]) is Started && call_id(log[i]) == call_id(log[j]),
{
}

/// In a well-formed call log no agent is started twice: two starts of the
/// same agent are the same log entry.
pub proof fn lemma_started_once(log: Seq<AgentCall>, i: int, j: int)
    requires
        log_wf(log),
        0 <= i < log.len(),
        0 <= j < log.len(),
        log[i] is Started,
        log[j] is Started,
        call_id(log[i]) == call_id(log[j]),
    ensures
        i == j,
{
}

/// In a well-formed call log an agent that answered `Kill` from any call is
/// never called again, in that round or any later one.
pub proof fn lemma_no_call_after_kill(log: Seq<AgentCall>, i: int, j: int)
    requires
        log_wf(log),
        0 <= i < j < log.len(),
        call_killed(log[i]),
    ensures
        call_id(log[j]) != call_id(log[i]),
{
}

/// The scheduler's call log is well-formed whenever its invariant holds —
/// the hook that lets the three log laws above be applied to a live runner.
pub proof fn lemma_runner_log_wf<G: Game>(r: &Runner<G>)
    requires
        r.inv(),
    ensures
        log_wf(r.call_log()),
{
}

/// Every live agent has been started, and one that does not stand in the
/// `Kill` state — in particular every sweep survivor, which is never in that
/// state — has no `Kill` answer anywhere on record.
pub proof fn lemma_live_agent_record<G: Game>(r: &Runner<G>, k: int)
    requires
        r.inv(),
        0 <= k < r.live_count(),
    ensures
        started_in(r.call_log(), r.live_id_at(k)),
        !(r.live_cf_at(k) is Kill) ==> no_kill_record(r.call_log(), r.live_id_at(k)),
{
}

} // verus!
