//! The status reports that workers send to the aggregator.

use vstd::prelude::*;

verus! {

/// What a worker reports about one step of its work.
#[derive(Clone, Copy, Debug, PartialEq, Eq, Structural)]
pub enum WorkerStatus {
    /// A query left the socket.
    Sent,
    /// The reply to the outstanding query arrived.
    Success,
    /// No reply arrived within the timeout.
    Timeout,
    /// The query could not be sent, or receiving or decoding the reply failed.
    Failed,
    /// The worker has run all of its iterations.
    AllFinished,
}

/// How many reports of each status a log holds.
pub struct Tally {
    pub sent: nat,
    pub success: nat,
    pub timeout: nat,
    pub failed: nat,
    pub all_finished: nat,
}

impl Tally {
    /// The tally of an empty log.
    pub open spec fn zero() -> Tally {
        Tally { sent: 0, success: 0, timeout: 0, failed: 0, all_finished: 0 }
    }

    /// The count that is kept for `status`.
    pub open spec fn of(self, status: WorkerStatus) -> nat {
        match status {
            WorkerStatus::Sent => self.sent,
            WorkerStatus::Success => self.success,
            WorkerStatus::Timeout => self.timeout,
            WorkerStatus::Failed => self.failed,
            WorkerStatus::AllFinished => self.all_finished,
        }
    }

    /// The tally after one more report of `status`.
    pub open spec fn with(self, status: WorkerStatus) -> Tally {
        match status {
            WorkerStatus::Sent => Tally { sent: self.sent + 1, ..self },
            WorkerStatus::Success => Tally { success: self.success + 1, ..self },
            WorkerStatus::Timeout => Tally { timeout: self.timeout + 1, ..self },
            WorkerStatus::Failed => Tally { failed: self.failed + 1, ..self },
            WorkerStatus::AllFinished => Tally { all_finished: self.all_finished + 1, ..self },
        }
    }

    /// The tally of two logs taken together.
    pub open spec fn plus(self, other: Tally) -> Tally {
        Tally {
            sent: self.sent + other.sent,
            success: self.success + other.success,
            timeout: self.timeout + other.timeout,
            failed: self.failed + other.failed,
            all_finished: self.all_finished + other.all_finished,
        }
    }

    /// Number of reports that end an iteration.
    pub open spec fn terminal(self) -> nat {
        self.success + self.timeout + self.failed
    }
}

/// The tally of a log: for each status, how often it occurs.
pub open spec fn tally(log: Seq<WorkerStatus>) -> Tally {
    let reports = log.to_multiset();
    Tally {
        sent: reports.count(WorkerStatus::Sent),
        success: reports.count(WorkerStatus::Success),
        timeout: reports.count(WorkerStatus::Timeout),
        failed: reports.count(WorkerStatus::Failed),
        all_finished: reports.count(WorkerStatus::AllFinished),
    }
}

/// Nothing has been counted before the first report.
pub proof fn lemma_tally_empty()
    ensures
        tally(Seq::<WorkerStatus>::empty()) == Tally::zero(),
{
    broadcast use vstd::seq_lib::group_to_multiset_ensures;

    assert(Seq::<WorkerStatus>::empty().to_multiset() =~= vstd::multiset::Multiset::empty());
}

/// One more report raises the count of its status by one and no other.
pub proof fn lemma_tally_push(log: Seq<WorkerStatus>, status: WorkerStatus)
    ensures
        tally(log.push(status)) == tally(log).with(status),
{
    vstd::seq_lib::to_multiset_build(log, status);
}

/// The tally of two logs, one behind the other, is the sum of their tallies.
pub proof fn lemma_tally_concat(a: Seq<WorkerStatus>, b: Seq<WorkerStatus>)
    ensures
        tally(a + b) == tally(a).plus(tally(b)),
{
    vstd::seq_lib::lemma_multiset_commutative(a, b);
}

/// The tally does not depend on the order of the reports: two logs that
/// hold the same reports, however interleaved, have the same tally.
pub proof fn lemma_tally_any_order(a: Seq<WorkerStatus>, b: Seq<WorkerStatus>)
    requires
        a.to_multiset() == b.to_multiset(),
    ensures
        tally(a) == tally(b),
{
}

} // verus!
