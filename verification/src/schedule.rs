//! The guard that keeps ingestion passes from overlapping. Two passes at
//! once would race on the same checkpoints, so a pass begins only while no
//! other is under way.

use vstd::prelude::*;

verus! {

/// Whether a pass is under way.
#[derive(Debug)]
pub struct SingleFlight {
    running: bool,
}

impl View for SingleFlight {
    type V = bool;

    closed spec fn view(&self) -> bool {
        self.running
    }
}

impl SingleFlight {
    /// A guard under which no pass is under way.
    pub fn new() -> (guard: SingleFlight)
        ensures
            !guard@,
    {
        SingleFlight { running: false }
    }

    /// Whether a pass is under way.
    pub fn is_running(&self) -> (running: bool)
        ensures
            running == self@,
    {
        self.running
    }

    /// Begins a pass unless one is under way. Says whether the pass may
    /// begin; either way a pass is under way afterwards.
    pub fn try_begin(&mut self) -> (begun: bool)
        ensures
            begun == !old(self)@,
            final(self)@,
    {
        let begun = !self.running;
        self.running = true;
        begun
    }

    /// Marks the pass under way as over.
    pub fn finish(&mut self)
        ensures
            !final(self)@,
    {
        self.running = false;
    }
}

} // verus!
