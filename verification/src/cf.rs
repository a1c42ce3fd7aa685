//! Readiness control for agents: the `ControlFlow` an agent returns after each
//! call, and the shared `WaitHandle` it can sleep on.

use vstd::prelude::*;
use core::sync::atomic::AtomicBool;
use core::sync::atomic::Ordering;
use std::sync::Arc;

verus! {

/// The shared core of a [`WaitHandle`]: a wake flag, and an optional deadline
/// in milliseconds on the system clock after which the handle counts as ready
/// even if nobody woke it.
#[derive(Debug)]
struct WaitInner {
    ready: AtomicBool,
    deadline: Option<u64>,
}

/// Milliseconds since the Unix epoch.
///
/// Relies on `std::time::SystemTime::now`; the result depends on the wall
/// clock, so nothing is promised of it.
#[verifier::external_body]
fn clock_millis() -> u64 {
    match std::time::SystemTime::now().duration_since(std::time::UNIX_EPOCH) {
        Ok(d) => d.as_millis() as u64,
        Err(_) => 0,
    }
}

/// The number of strong references to the shared core of a handle, the one
/// held by `h` included.
///
/// Relies on `std::sync::Arc::strong_count`; the count can change under other
/// threads' hands, so nothing is promised of it.
#[verifier::external_body]
fn strong_refs(h: &Arc<WaitInner>) -> usize {
    Arc::strong_count(h)
}

/// A reference-counted wake flag an agent can sleep on. Cloning the handle
/// shares the flag; waking any clone makes every clone ready. A handle made
/// with a deadline also becomes ready once the deadline has passed.
#[derive(Clone, Debug)]
pub struct WaitHandle {
    inner: Arc<WaitInner>,
}

impl WaitHandle {
    /// The deadline in clock milliseconds after which the handle counts as
    /// ready on its own, if it was given one.
    pub closed spec fn deadline(&self) -> Option<u64> {
        self.inner.deadline
    }

    /// A handle that is ready only once some holder calls [`Self::wake`].
    pub fn new() -> (r: WaitHandle)
        ensures
            r.deadline() is None,
    {
        WaitHandle { inner: Arc::new(WaitInner { ready: AtomicBool::new(false), deadline: None }) }
    }

    /// A handle that becomes ready on its own once `millis` milliseconds have
    /// elapsed from its construction (or earlier, if someone wakes it). The
    /// second component is the clock reading the deadline was computed from.
    pub fn with_timeout(millis: u64) -> (r: (WaitHandle, Ghost<u64>))
        ensures
            r.0.deadline() == Some(
                if r.1@ <= u64::MAX - millis {
                    (r.1@ + millis) as u64
                } else {
                    u64::MAX
                },
            ),
    {
        let now = clock_millis();
        let deadline = if now <= u64::MAX - millis {
            now + millis
        } else {
            u64::MAX
        };
        (
            WaitHandle {
                inner: Arc::new(
                    WaitInner { ready: AtomicBool::new(false), deadline: Some(deadline) },
                ),
            },
            Ghost(now),
        )
    }

    /// Whether the handle is ready: woken by some holder, or past its
    /// deadline. The flag is shared and the clock moves, so the result can
    /// differ between two calls on one handle.
    pub fn is_ready(&self) -> bool {
        if self.inner.ready.load(Ordering::SeqCst) {
            true
        } else {
            match self.inner.deadline {
                Some(d) => clock_millis() >= d,
                None => false,
            }
        }
    }

    /// Make the handle (and every clone of it) ready from now on.
    pub fn wake(&self) {
        self.inner.ready.store(true, Ordering::SeqCst);
    }

    /// How many strong references to the shared flag exist, this handle's own
    /// included. A result of 1 means no other holder is left to wake it.
    pub fn references(&self) -> usize {
        strong_refs(&self.inner)
    }
}

/// What an agent answers when asked how it wants to be scheduled next:
/// keep going, die, or sleep until a shared handle reports ready.
#[derive(Debug)]
pub enum ControlFlow {
    /// Ready every round.
    Continue,
    /// Never ready again; the agent is removed at the end of the round.
    Kill,
    /// Ready exactly when the carried [`WaitHandle`] reports ready.
    Handle(WaitHandle),
}

impl ControlFlow {
    /// Whether an agent in this state receives events this round:
    /// `Continue` always does, `Kill` never does, and `Handle(h)` follows
    /// what `h` reports right now.
    pub fn is_ready(&self) -> (r: bool)
        ensures
            self is Continue ==> r,
            self is Kill ==> !r,
    {
        match self {
            ControlFlow::Continue => true,
            ControlFlow::Kill => false,
            ControlFlow::Handle(h) => h.is_ready(),
        }
    }

    /// A `Handle` state whose handle becomes ready no earlier than `millis`
    /// milliseconds from now: it carries a deadline computed as the clock
    /// reading plus `millis` (saturated), so at least `millis` itself.
    pub fn sleep_for(millis: u64) -> (r: ControlFlow)
        ensures
            r matches ControlFlow::Handle(h) && h.deadline() matches Some(d) && d >= millis,
    {
        let (h, _now) = WaitHandle::with_timeout(millis);
        ControlFlow::Handle(h)
    }
}

impl PartialEq for ControlFlow {
    /// States compare by constructor alone: two `Handle` states are equal
    /// whatever their handles hold.
    fn eq(&self, other: &ControlFlow) -> (r: bool) {
        match (self, other) {
            (ControlFlow::Continue, ControlFlow::Continue) => true,
            (ControlFlow::Kill, ControlFlow::Kill) => true,
            (ControlFlow::Handle(_), ControlFlow::Handle(_)) => true,
            _ => false,
        }
    }
}

impl vstd::std_specs::cmp::PartialEqSpecImpl for ControlFlow {
    open spec fn obeys_eq_spec() -> bool {
        true
    }

    open spec fn eq_spec(&self, other: &ControlFlow) -> bool {
        (self is Continue && other is Continue)
        || (self is Kill && other is Kill)
        || (self is Handle && other is Handle)
    }
}

} // verus!
