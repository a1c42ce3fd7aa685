//! Single-use ownership transfer: a cell that hands its payload to exactly
//! one consumer.

use vstd::prelude::*;

verus! {

/// A single-use cell that carries a payload across an event boundary.
///
/// Exactly one consumer may [`take`](Bundle::take) the payload; the first call
/// moves it out, and every later call returns `None`. A clone of a bundle is
/// empty: cloning an event never duplicates ownership of the payload.
pub struct Bundle<T> {
    cell: Option<T>,
}

impl<T> Bundle<T> {
    /// What the bundle still carries.
    pub closed spec fn payload(&self) -> Option<T> {
        self.cell
    }

    /// Wrap a payload for a single hand-off.
    pub fn new(value: T) -> (b: Bundle<T>)
        ensures
            b.payload() == Some(value),
    {
        Bundle { cell: Some(value) }
    }

    /// A bundle that was never filled (or has already been emptied).
    pub fn empty() -> (b: Bundle<T>)
        ensures
            b.payload() is None,
    {
        Bundle { cell: None }
    }

    /// Whether the payload is still here to be taken.
    pub fn is_full(&self) -> (r: bool)
        ensures
            r == (self.payload() is Some),
    {
        self.cell.is_some()
    }

    /// Move the payload out. The first call on a full bundle returns it;
    /// every call after that (and any call on an empty bundle) fails with
    /// `None`, which a consumer must treat as a broken hand-off.
    pub fn take(&mut self) -> (r: Option<T>)
        ensures
            r == old(self).payload(),
            final(self).payload() is None,
    {
        self.cell.take()
    }
}

impl<T> Clone for Bundle<T> {
    /// The copy is empty: the payload stays with the bundle it was put in.
    fn clone(&self) -> (r: Bundle<T>) {
        Bundle { cell: None }
    }
}

/// A payload is handed over at most once: after any `take`, a second `take`
/// on the same bundle comes back empty, whatever the first returned.
pub proof fn lemma_take_at_most_once<T>(b0: Bundle<T>, b1: Bundle<T>, b2: Bundle<T>, r1: Option<T>, r2: Option<T>)
    requires
        // first call: b0 --take--> b1 returning r1
        r1 == b0.payload(),
        b1.payload() is None,
        // second call on the same bundle: b1 --take--> b2 returning r2
        r2 == b1.payload(),
        b2.payload() is None,
    ensures
        r2 is None,
        b0.payload() is Some ==> r1 == b0.payload(),
{
}

} // verus!
