//! The cancellation signal of a run.

use vstd::prelude::*;

verus! {

/// The run goes on.
pub const RUNNING: usize = 0;

/// The controller has asked the run to stop.
pub const STOP_REQUESTED: usize = 1;

/// The run has stopped.
pub const STOPPED: usize = 2;

/// A flag with three states: running, stop requested, stopped.
#[derive(Debug, Clone, Copy, PartialEq, Eq)]
pub struct Signal {
    state: usize,
}

impl View for Signal {
    type V = usize;

    closed spec fn view(&self) -> usize {
        self.state
    }
}

impl Signal {
    /// A signal of a run that goes on.
    pub fn new() -> (s: Signal)
        ensures
            s@ == RUNNING,
    {
        Signal { state: RUNNING }
    }

    /// The state.
    pub fn get(&self) -> (state: usize)
        ensures
            state == self@,
    {
        self.state
    }

    /// Sets the state.
    pub fn set(&mut self, state: usize)
        ensures
            final(self)@ == state,
    {
        self.state = state;
    }

    /// Notes that the run has stopped: its workers have left.
    pub fn acknowledge(&mut self)
        ensures
            final(self)@ == STOPPED,
    {
        self.state = STOPPED;
    }

    /// Asks a run that goes on to stop; a run that was asked to stop or has
    /// stopped stays as it is.
    pub fn request_stop(&mut self)
        ensures
            final(self)@ == if old(self)@ == RUNNING {
                STOP_REQUESTED
            } else {
                old(self)@
            },
    {
        if self.state == RUNNING {
            self.state = STOP_REQUESTED;
        }
    }
}

} // verus!
