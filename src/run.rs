//! The bookkeeping of a whole run: workers spawned and finished, the
//! summary of outcomes, and when the coordinator may be shut down.
use vstd::prelude::*;
use crate::worker::Outcome;

verus! {

/// What a run reports at its end.
#[derive(Debug)]
pub struct Summary {
    /// Files copied.
    pub copied: usize,
    /// Files skipped for want of an extension.
    pub skipped: usize,
    /// The outcome of each file that failed, in the order they finished.
    pub failed: Vec<Outcome>,
}

/// The orchestrator's account of a run.
pub struct Orchestrator {
    spawned: usize,
    finished: usize,
    closed: bool,
    summary: Summary,
}

impl Orchestrator {
    pub closed spec fn spawned_count(&self) -> nat {
        self.spawned as nat
    }

    pub closed spec fn finished_count(&self) -> nat {
        self.finished as nat
    }

    /// Whether the shutdown of the coordinator has been allowed.
    pub closed spec fn is_closed(&self) -> bool {
        self.closed
    }

    pub closed spec fn summary_spec(&self) -> &Summary {
        &self.summary
    }

    /// No more workers finish than were spawned, and each finished one is
    /// counted once in the summary.
    pub closed spec fn wf(&self) -> bool {
        &&& self.finished <= self.spawned
        &&& self.summary.copied + self.summary.failed@.len() == self.finished
    }

    /// A run that skipped `skipped` files and has spawned no worker yet.
    pub fn new(skipped: usize) -> (r: Self)
        ensures
            r.wf(),
            r.spawned_count() == 0,
            r.finished_count() == 0,
            !r.is_closed(),
            r.summary_spec().copied == 0,
            r.summary_spec().skipped == skipped,
            r.summary_spec().failed@.len() == 0,
    {
        Orchestrator {
            spawned: 0,
            finished: 0,
            closed: false,
            summary: Summary { copied: 0, skipped, failed: Vec::new() },
        }
    }

    /// Whether another worker may be spawned: not after shutdown, and not
    /// past the counter's range.
    pub fn can_spawn(&self) -> (r: bool)
        ensures
            r == (!self.is_closed() && self.spawned_count() < usize::MAX),
    {
        !self.closed && self.spawned < usize::MAX
    }

    /// Records that one more worker was spawned.
    pub fn worker_spawned(&mut self)
        requires
            old(self).wf(),
            !old(self).is_closed(),
            old(self).spawned_count() < usize::MAX,
        ensures
            final(self).wf(),
            final(self).spawned_count() == old(self).spawned_count() + 1,
            final(self).finished_count() == old(self).finished_count(),
            !final(self).is_closed(),
            final(self).summary_spec() == old(self).summary_spec(),
    {
        self.spawned = self.spawned + 1;
    }

    /// Whether a worker is still running.
    pub fn has_running(&self) -> (r: bool)
        ensures
            r == (self.finished_count() < self.spawned_count()),
    {
        self.finished < self.spawned
    }

    /// Records the outcome of a worker that has finished: a copy counts as
    /// copied, anything else is kept among the failures.
    pub fn worker_finished(&mut self, outcome: Outcome)
        requires
            old(self).wf(),
            old(self).finished_count() < old(self).spawned_count(),
        ensures
            final(self).wf(),
            final(self).spawned_count() == old(self).spawned_count(),
            final(self).finished_count() == old(self).finished_count() + 1,
            final(self).is_closed() == old(self).is_closed(),
            final(self).summary_spec().skipped == old(self).summary_spec().skipped,
            outcome.is_success() ==> final(self).summary_spec().copied == old(
                self,
            ).summary_spec().copied + 1 && final(self).summary_spec().failed@ == old(
                self,
            ).summary_spec().failed@,
            !outcome.is_success() ==> final(self).summary_spec().copied == old(
                self,
            ).summary_spec().copied && final(self).summary_spec().failed@ == old(
                self,
            ).summary_spec().failed@.push(outcome),
    {
        self.finished = self.finished + 1;
        if outcome.succeeded() {
            self.summary.copied = self.summary.copied + 1;
        } else {
            self.summary.failed.push(outcome);
        }
    }

    /// Allows the shutdown of the coordinator, which is granted only once
    /// every spawned worker has finished.
    pub fn close(&mut self) -> (r: bool)
        requires
            old(self).wf(),
        ensures
            final(self).wf(),
            r == (old(self).finished_count() == old(self).spawned_count()),
            final(self).is_closed() == (old(self).is_closed() || r),
            final(self).spawned_count() == old(self).spawned_count(),
            final(self).finished_count() == old(self).finished_count(),
            final(self).summary_spec() == old(self).summary_spec(),
    {
        if self.finished == self.spawned {
            self.closed = true;
            true
        } else {
            false
        }
    }

    /// The summary so far.
    pub fn summary(&self) -> (r: &Summary)
        ensures
            r == self.summary_spec(),
    {
        &self.summary
    }

    /// Ends the run and hands over its summary.
    pub fn into_summary(self) -> (r: Summary)
        ensures
            r == *self.summary_spec(),
    {
        self.summary
    }
}

} // verus!
