//! The game's concrete event type, including the installation events that
//! carry a [`Bundle`] across the round boundary.

use vstd::prelude::*;
use crate::bundle::Bundle;

verus! {

/// An extension a running game can install: a command the player gains.
/// Delivered inside an [`Event::Install`] bundle; the host that owns the
/// command line is its sole consumer.
pub trait Tool: Send + Sync {
    /// The name the command is invoked by.
    fn name(&self) -> String;
}

/// A bundled tool, as carried by [`Event::Install`].
pub type BundledTool = Bundle<Box<dyn Tool>>;

/// One fact delivered to every ready agent during a round.
///
/// An event lives exactly one round: queued in round N, delivered in round
/// N+1, gone afterwards unless someone queues it again.
pub enum Event {
    /// Ask the host to install the bundled tool. The host is the bundle's
    /// sole designated consumer; taking it moves the tool out exactly once.
    Install(BundledTool),
    /// A character said `text`, offering the player `options` to answer with.
    NPCChatMessage { from: String, text: String, options: Vec<String> },
    /// The player answered `to` with `text`.
    PlayerChatMessage { to: String, text: String },
    /// A command the player ran has finished.
    CommandDone,
}

impl Event {
    /// An event asking the host to install `tool`.
    pub fn install<T: Tool + 'static>(tool: T) -> (e: Event)
        ensures
            e matches Event::Install(b) && b.payload() is Some,
    {
        Event::Install(Bundle::new(Box::new(tool)))
    }

    /// A chat line from the character `from`, with the given reply options.
    pub fn npc_chat(from: &str, text: &str, options: &[&str]) -> (e: Event)
        ensures
            e matches Event::NPCChatMessage { from: f, text: t, options: o } && f@ == from@ && t@
                == text@ && o@.len() == options@.len() && (forall|i: int|
                0 <= i < options@.len() ==> (#[trigger] o@[i])@ == (options@[i])@),
    {
        let mut opts: Vec<String> = Vec::new();
        let mut i: usize = 0;
        while i < options.len()
            invariant
                i <= options@.len(),
                opts@.len() == i,
                forall|j: int| 0 <= j < i ==> (#[trigger] opts@[j])@ == (options@[j])@,
            decreases options@.len() - i,
        {
            let s: &str = options[i];
            opts.push(s.to_owned());
            i = i + 1;
        }
        Event::NPCChatMessage { from: from.to_owned(), text: text.to_owned(), options: opts }
    }

    /// A chat line from the player to the character `to`.
    pub fn player_chat(to: &str, text: &str) -> (e: Event)
        ensures
            e matches Event::PlayerChatMessage { to: d, text: t } && d@ == to@ && t@ == text@,
    {
        Event::PlayerChatMessage { to: to.to_owned(), text: text.to_owned() }
    }
}

impl Clone for Event {
    /// Copy the event. A copy of an installation event is the same variant
    /// with an empty bundle: cloning never duplicates ownership of a payload,
    /// which stays with the event it was put in.
    fn clone(&self) -> (r: Event)
        ensures
            self is Install ==> (r matches Event::Install(b) && b.payload() is None),
            (self matches Event::NPCChatMessage { from, text, options } ==> (r
                matches Event::NPCChatMessage { from: f2, text: t2, options: o2 } && f2@ == from@
                && t2@ == text@ && o2@.len() == options@.len() && (forall|i: int|
                0 <= i < options@.len() ==> ((#[trigger] o2@[i])@ == (options@[i])@)))),
            (self matches Event::PlayerChatMessage { to, text } ==> (r
                matches Event::PlayerChatMessage { to: d2, text: t2 } && d2@ == to@ && t2@
                == text@)),
            self is CommandDone ==> r is CommandDone,
    {
        match self {
            Event::Install(_) => Event::Install(Bundle::empty()),
            Event::NPCChatMessage { from, text, options } => {
                let mut opts: Vec<String> = Vec::new();
                let mut i: usize = 0;
                while i < options.len()
                    invariant
                        i <= options@.len(),
                        opts@.len() == i,
                        forall|j: int| 0 <= j < i ==> (#[trigger] opts@[j])@ == (options@[j])@,
                    decreases options@.len() - i,
                {
                    let s: String = options[i].clone();
                    opts.push(s);
                    i = i + 1;
                }
                Event::NPCChatMessage { from: from.clone(), text: text.clone(), options: opts }
            },
            Event::PlayerChatMessage { to, text } => Event::PlayerChatMessage {
                to: to.clone(),
                text: text.clone(),
            },
            Event::CommandDone => Event::CommandDone,
        }
    }
}

/// The bundled tools still waiting inside `Install` events, in order.
pub open spec fn install_payloads(s: Seq<Event>) -> Seq<Box<dyn Tool>>
    decreases s.len(),
{
    if s.len() == 0 {
        Seq::empty()
    } else {
        let rest = install_payloads(s.drop_last());
        match s.last() {
            Event::Install(b) => match b.payload() {
                Some(t) => rest.push(t),
                None => rest,
            },
            _ => rest,
        }
    }
}

/// Empty every `Install` bundle in `events` and hand the carried tools out,
/// in event order, for the host to register. Every other event is left
/// exactly as it was; the emptied events stay in place so later consumers
/// still see them.
pub fn drain_installs(events: &mut Vec<Event>) -> (tools: Vec<Box<dyn Tool>>)
    ensures
        tools@ == install_payloads(old(events)@),
        final(events)@.len() == old(events)@.len(),
        forall|i: int|
            0 <= i < old(events)@.len() && !(old(events)@[i] is Install) ==> final(events)@[i]
                == old(events)@[i],
        forall|i: int|
            0 <= i < old(events)@.len() && old(events)@[i] is Install ==> ((#[trigger] final(events)@[i]) matches Event::Install(b) && b.payload() is None),
{
    let ghost orig = events@;
    let n = events.len();
    let mut rebuilt: Vec<Event> = Vec::new();
    let mut out: Vec<Box<dyn Tool>> = Vec::new();
    let mut i: usize = 0;
    while i < n
        invariant
            n == orig.len(),
            events@ == orig.subrange(i as int, n as int),
            i <= n,
            rebuilt@.len() == i,
            out@ == install_payloads(orig.subrange(0, i as int)),
            forall|j: int| 0 <= j < i && !(orig[j] is Install) ==> rebuilt@[j] == orig[j],
            forall|j: int|
                0 <= j < i && orig[j] is Install ==> ((#[trigger] rebuilt@[j]) matches
                    Event::Install(b) && b.payload() is None),
        decreases n - i,
    {
        let ev = events.remove(0);
        proof {
            assert(ev == orig[i as int]);
            assert(orig.subrange(i as int, n as int).drop_first() == orig.subrange(
                i as int + 1,
                n as int,
            ));
        }
        match ev {
            Event::Install(mut b) => {
                match b.take() {
                    Some(t) => out.push(t),
                    None => (),
                }
                rebuilt.push(Event::Install(b));
            },
            other => rebuilt.push(other),
        }
        proof {
            assert(orig.subrange(0, i + 1 as int).drop_last() == orig.subrange(0, i as int));
            assert(orig.subrange(0, i + 1 as int).last() == orig[i as int]);
        }
        i = i + 1;
    }
    proof {
        assert(orig.subrange(0, n as int) == orig);
    }
    *events = rebuilt;
    out
}

} // verus!
