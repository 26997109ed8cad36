//! File-level orchestration state: one run processes a fixed set of input
//! files, each moving from pending to running and then to completed or
//! failed, with at most `budget` files running at any instant.

use vstd::prelude::*;

verus! {

/// Bookkeeping for one run over `total()` input files.
///
/// The admission budget is the only shared resource of a run: a file may
/// enter the running state only while fewer than `budget` files are running,
/// and a slot is given back exactly when a running file completes or fails.
pub struct Scheduler {
    pub budget: usize,
    pub pending: usize,
    pub running: usize,
    pub completed: usize,
    pub failed: usize,
}

impl Scheduler {
    /// The budget is positive, the bound on running files holds, and the
    /// file counts cannot overflow when one file changes state.
    pub open spec fn wf(self) -> bool {
        &&& 1 <= self.budget
        &&& self.running <= self.budget
        &&& self.total() <= usize::MAX
    }

    /// How many files the run was started with.
    pub open spec fn total(self) -> int {
        self.pending + self.running + self.completed + self.failed
    }

    /// All files have left the pending and running states.
    pub open spec fn spec_done(self) -> bool {
        self.pending == 0 && self.running == 0
    }

    pub fn new(n_files: usize, budget: usize) -> (s: Scheduler)
        requires
            1 <= budget,
        ensures
            s.wf(),
            s.pending == n_files,
            s.running == 0,
            s.completed == 0,
            s.failed == 0,
    {
        Scheduler { budget, pending: n_files, running: 0, completed: 0, failed: 0 }
    }

    /// Admit one pending file into the running state if a slot is free.
    pub fn try_start(&mut self) -> (started: bool)
        requires
            old(self).wf(),
        ensures
            final(self).wf(),
            started == (old(self).pending > 0 && old(self).running < old(self).budget),
            started ==> final(self).pending == old(self).pending - 1
                && final(self).running == old(self).running + 1,
            !started ==> *final(self) == *old(self),
            final(self).budget == old(self).budget,
            final(self).completed == old(self).completed,
            final(self).failed == old(self).failed,
            final(self).total() == old(self).total(),
    {
        if self.pending > 0 && self.running < self.budget {
            self.pending = self.pending - 1;
            self.running = self.running + 1;
            true
        } else {
            false
        }
    }

    /// Release the slot of one running file, recording its outcome.
    /// A failed file only moves itself to the failed state; the other
    /// files of the run are untouched.
    pub fn finish_one(&mut self, success: bool)
        requires
            old(self).wf(),
            old(self).running > 0,
        ensures
            final(self).wf(),
            final(self).running == old(self).running - 1,
            final(self).pending == old(self).pending,
            final(self).budget == old(self).budget,
            success ==> final(self).completed == old(self).completed + 1
                && final(self).failed == old(self).failed,
            !success ==> final(self).failed == old(self).failed + 1
                && final(self).completed == old(self).completed,
            final(self).total() == old(self).total(),
    {
        self.running = self.running - 1;
        if success {
            self.completed = self.completed + 1;
        } else {
            self.failed = self.failed + 1;
        }
    }

    /// The run ends when every file, failed ones included, is finished.
    pub fn done(&self) -> (r: bool)
        ensures
            r == self.spec_done(),
    {
        self.pending == 0 && self.running == 0
    }

    /// The run must be reported as failed exactly when some file failed.
    pub fn any_failed(&self) -> (r: bool)
        ensures
            r == (self.failed > 0),
    {
        self.failed > 0
    }
}

/// Law: in every well-formed scheduler state — and every state reached
/// through `new`, `try_start` and `finish_one` is well-formed — no more
/// files are running than the admission budget allows.
pub proof fn lemma_running_bounded(s: Scheduler)
    requires
        s.wf(),
    ensures
        s.running <= s.budget,
{
}

} // verus!
