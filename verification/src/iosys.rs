//! The seam between the scheduler and a display backend's main-thread loop.

use vstd::prelude::*;
use std::sync::Arc;
use std::sync::Barrier;

verus! {

#[verifier::external_type_specification]
#[verifier::external_body]
pub struct ExBarrier(Barrier);

/// The half of a display backend that must run on the main thread: the
/// scheduler's thread drives rounds while this loop runs until the backend is
/// told to stop.
pub trait IoRunner {
    /// Execute one quick, non-blocking step. Returns whether a stop has been
    /// requested since the last step.
    fn step(&mut self) -> bool;

    /// Run until the paired backend says to stop.
    fn run(&mut self);
}

/// Relies on `std::sync::Barrier::new`: a fresh barrier for `n` waiters.
#[verifier::external_body]
fn barrier_new(n: usize) -> Barrier {
    Barrier::new(n)
}

/// Relies on `std::sync::Barrier::wait`: blocks until as many threads wait
/// as the barrier was made for. Nothing is promised of it; when it returns
/// depends on the other threads.
#[verifier::external_body]
fn barrier_wait(b: &Barrier) {
    let _ = b.wait();
}

/// An [`IoRunner`] for backends that need nothing done on the main thread:
/// its run blocks on a two-party rendezvous until [`NopIoRunner::stop`] is
/// called from the other side.
#[derive(Clone)]
pub struct NopIoRunner(Arc<Barrier>);

impl NopIoRunner {
    /// A fresh rendezvous: keep one clone and hand the other to the main
    /// thread.
    pub fn new() -> NopIoRunner {
        NopIoRunner(Arc::new(barrier_new(2)))
    }

    /// Release the waiting runner.
    pub fn stop(&mut self) {
        barrier_wait(&self.0);
    }
}

impl IoRunner for NopIoRunner {
    fn step(&mut self) -> bool {
        barrier_wait(&self.0);
        true
    }

    fn run(&mut self) {
        barrier_wait(&self.0);
    }
}

} // verus!
