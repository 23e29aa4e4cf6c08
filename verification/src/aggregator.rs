//! The aggregator: the single consumer of the workers' reports.
//!
//! It is a machine of two states. While it runs it counts every report it is
//! given; it is done once as many workers have reported that they are
//! finished as the run has workers.

use vstd::prelude::*;
use crate::status::{Tally, WorkerStatus, tally, lemma_tally_push, lemma_tally_empty};

verus! {

/// The counters of a run.
#[derive(Debug)]
pub struct Aggregator {
    threads: u32,
    sent: u64,
    success: u64,
    timeout: u64,
    failed: u64,
    all_finished: u32,
}

/// What an aggregator stands for: the number of workers it waits for, and
/// the tally of the reports it has counted.
pub struct AggregatorView {
    pub threads: nat,
    pub tally: Tally,
}

impl AggregatorView {
    /// Every worker has reported that it is finished.
    pub open spec fn done(self) -> bool {
        self.tally.all_finished == self.threads
    }

    /// No more workers have finished than there are.
    pub open spec fn wf(self) -> bool {
        self.tally.all_finished <= self.threads
    }

    /// The counter for `status` can take one more report.
    pub open spec fn has_room(self, status: WorkerStatus) -> bool {
        match status {
            WorkerStatus::AllFinished => self.tally.all_finished < u32::MAX,
            _ => self.tally.of(status) < u64::MAX,
        }
    }

    /// The aggregator after it has counted `log`, report by report.
    pub open spec fn after(self, log: Seq<WorkerStatus>) -> AggregatorView
        decreases log.len(),
    {
        if log.len() == 0 {
            self
        } else {
            let before = self.after(log.drop_last());
            AggregatorView { tally: before.tally.with(log.last()), ..before }
        }
    }
}

impl View for Aggregator {
    type V = AggregatorView;

    closed spec fn view(&self) -> AggregatorView {
        AggregatorView {
            threads: self.threads as nat,
            tally: Tally {
                sent: self.sent as nat,
                success: self.success as nat,
                timeout: self.timeout as nat,
                failed: self.failed as nat,
                all_finished: self.all_finished as nat,
            },
        }
    }
}

impl Aggregator {
    /// The aggregator of a run with `threads` workers: running, with all
    /// counters at zero.
    pub fn new(threads: u32) -> (a: Aggregator)
        ensures
            a@ == (AggregatorView { threads: threads as nat, tally: Tally::zero() }),
            a@.wf(),
    {
        Aggregator { threads, sent: 0, success: 0, timeout: 0, failed: 0, all_finished: 0 }
    }

    /// Number of workers that the run has.
    pub fn threads(&self) -> (n: u32)
        ensures
            n == self@.threads,
    {
        self.threads
    }

    /// Number of queries that left a socket.
    pub fn sent(&self) -> (n: u64)
        ensures
            n == self@.tally.sent,
    {
        self.sent
    }

    /// Number of queries that were answered.
    pub fn success(&self) -> (n: u64)
        ensures
            n == self@.tally.success,
    {
        self.success
    }

    /// Number of queries whose reply did not come in time.
    pub fn timeout(&self) -> (n: u64)
        ensures
            n == self@.tally.timeout,
    {
        self.timeout
    }

    /// Number of iterations that failed, at sending or at receiving.
    pub fn failed(&self) -> (n: u64)
        ensures
            n == self@.tally.failed,
    {
        self.failed
    }

    /// Number of workers that have finished.
    pub fn all_finished(&self) -> (n: u32)
        ensures
            n == self@.tally.all_finished,
    {
        self.all_finished
    }

    /// Tells whether the run is over: every worker has finished.
    pub fn is_done(&self) -> (done: bool)
        ensures
            done == self@.done(),
    {
        self.all_finished == self.threads
    }

    /// Tells whether the counter for `status` can take one more report.
    pub fn has_room(&self, status: WorkerStatus) -> (room: bool)
        ensures
            room == self@.has_room(status),
    {
        match status {
            WorkerStatus::Sent => self.sent < u64::MAX,
            WorkerStatus::Success => self.success < u64::MAX,
            WorkerStatus::Timeout => self.timeout < u64::MAX,
            WorkerStatus::Failed => self.failed < u64::MAX,
            WorkerStatus::AllFinished => self.all_finished < u32::MAX,
        }
    }

    /// Counts one report, and tells whether the run is over with it.
    ///
    /// Reports are taken while the aggregator runs; once it is done, the run
    /// is over and nothing is left to count.
    pub fn record(&mut self, status: WorkerStatus) -> (done: bool)
        requires
            old(self)@.wf(),
            !old(self)@.done(),
            old(self)@.has_room(status),
        ensures
            final(self)@ == (AggregatorView {
                tally: old(self)@.tally.with(status),
                ..old(self)@
            }),
            final(self)@.wf(),
            done == final(self)@.done(),
    {
        match status {
            WorkerStatus::Sent => {
                self.sent = self.sent + 1;
            },
            WorkerStatus::Success => {
                self.success = self.success + 1;
            },
            WorkerStatus::Timeout => {
                self.timeout = self.timeout + 1;
            },
            WorkerStatus::Failed => {
                self.failed = self.failed + 1;
            },
            WorkerStatus::AllFinished => {
                self.all_finished = self.all_finished + 1;
            },
        }
        self.all_finished == self.threads
    }
}

/// An aggregator that starts at zero and counts a log, report by report,
/// holds the tally of that log.
pub proof fn lemma_counts_are_tally(threads: nat, log: Seq<WorkerStatus>)
    ensures
        (AggregatorView { threads, tally: Tally::zero() }).after(log) == (AggregatorView {
            threads,
            tally: tally(log),
        }),
    decreases log.len(),
{
    let start = AggregatorView { threads, tally: Tally::zero() };
    if log.len() == 0 {
        lemma_tally_empty();
        assert(log =~= Seq::<WorkerStatus>::empty());
    } else {
        lemma_counts_are_tally(threads, log.drop_last());
        lemma_tally_push(log.drop_last(), log.last());
        assert(log.drop_last().push(log.last()) =~= log);
    }
}

/// The number of finished workers never exceeds the number of workers, and
/// the aggregator is done exactly when the two are equal: while it runs, at
/// least one worker has yet to finish.
pub proof fn lemma_workers_done_bounded(a: AggregatorView)
    requires
        a.wf(),
    ensures
        a.tally.all_finished <= a.threads,
        a.done() <==> a.tally.all_finished == a.threads,
        !a.done() ==> a.tally.all_finished < a.threads,
{
}

} // verus!
