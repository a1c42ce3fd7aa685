//! The relay population used to stress the scheduler: agents that pass
//! Collatz chains to each other by factor, and the tally a host keeps.

use vstd::prelude::*;
use crate::game::Response;

verus! {

/// What the stress agent with the given factor answers to one event: the
/// Collatz successor of `event`, when the event is above one and addressed to
/// this factor (equal residues modulo the population size); nothing
/// otherwise.
pub open spec fn collatz_reply(factor: u64, event: u64, population: u64) -> Option<u64> {
    if event > 1 && event % population == factor % population {
        Some(
            if event % 2 == 0 {
                (event / 2) as u64
            } else {
                (3 * event + 1) as u64
            },
        )
    } else {
        None
    }
}

/// One relay step: the reply the agent with `factor` queues for `event`, as
/// [`collatz_reply`] defines it.
pub fn collatz_step(factor: u64, event: u64, population: u64) -> (r: Option<u64>)
    requires
        population > 0,
        event <= (u64::MAX - 1) / 3,
    ensures
        r == collatz_reply(factor, event, population),
{
    if event > 1 && event % population == factor % population {
        let next = if event % 2 == 0 {
            event / 2
        } else {
            3 * event + 1
        };
        Some(next)
    } else {
        None
    }
}

/// The running totals a stress host keeps over the events it is shown.
#[derive(PartialEq, Eq, Structural, Clone, Copy, Debug, Default)]
pub struct Tally {
    /// How many non-zero events were seen.
    pub count: u64,
    /// The largest event seen.
    pub max: u64,
    /// How many chains have finished (events equal to one).
    pub complete: u64,
}

impl Tally {
    /// Count one event and answer what the host should do: quit once every
    /// chain of the population has finished, ask for a redraw on a finished
    /// chain, a new maximum, or every hundredth of the population's events,
    /// and nothing otherwise.
    pub fn observe(&mut self, event: u64, population: u64) -> (r: Response)
        requires
            population >= 100,
            old(self).count < u64::MAX,
            old(self).complete < u64::MAX,
        ensures
            final(self).count == old(self).count + (if event != 0 {
                1int
            } else {
                0int
            }),
            final(self).complete == old(self).complete + (if event == 1 {
                1int
            } else {
                0int
            }),
            final(self).max == if event != 1 && event > old(self).max {
                event
            } else {
                old(self).max
            },
            r == (if event == 1 {
                if final(self).complete == population {
                    Response::Quit
                } else {
                    Response::Redraw
                }
            } else if event > old(self).max {
                Response::Redraw
            } else if final(self).count % (population / 100) == 0 {
                Response::Redraw
            } else {
                Response::Nothing
            }),
    {
        if event != 0 {
            self.count = self.count + 1;
        }
        if event == 1 {
            self.complete = self.complete + 1;
            if self.complete == population {
                Response::Quit
            } else {
                Response::Redraw
            }
        } else if event > self.max {
            self.max = event;
            Response::Redraw
        } else if self.count % (population / 100) == 0 {
            Response::Redraw
        } else {
            Response::Nothing
        }
    }
}

} // verus!
