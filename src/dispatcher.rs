//! Task dispatch on the single-threaded web platform: every task runs at
//! once, on the one thread there is.
use std::time::Duration;
use vstd::prelude::*;

verus! {

/// Runs dispatched work immediately on the calling thread.
#[derive(Clone, Copy, Debug, PartialEq, Eq, Structural)]
pub struct WebDispatcher;

impl WebDispatcher {
    pub fn new() -> (r: WebDispatcher) {
        WebDispatcher
    }

    /// Everything runs on the main thread.
    pub fn is_main_thread(&self) -> (r: bool)
        ensures
            r,
    {
        true
    }

    /// Runs background work; there is no other thread to run it on.
    pub fn dispatch<F: FnOnce()>(&self, runnable: F)
        requires
            runnable.requires(()),
        ensures
            runnable.ensures((), ()),
    {
        runnable()
    }

    /// Runs work meant for the main thread.
    pub fn dispatch_on_main_thread<F: FnOnce()>(&self, runnable: F)
        requires
            runnable.requires(()),
        ensures
            runnable.ensures((), ()),
    {
        runnable()
    }

    /// Runs delayed work; without timers it runs at once.
    pub fn dispatch_after<F: FnOnce()>(&self, _duration: Duration, runnable: F)
        requires
            runnable.requires(()),
        ensures
            runnable.ensures((), ()),
    {
        runnable()
    }
}

} // verus!
