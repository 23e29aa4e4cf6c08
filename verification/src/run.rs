//! What holds of a whole run: several workers, one aggregator.
//!
//! The aggregator sees the reports of all workers in some interleaving. Its
//! counts do not depend on which: they are fixed by what each worker
//! reported, and so by how each iteration of each worker ended.

use vstd::prelude::*;
use crate::aggregator::{AggregatorView, lemma_counts_are_tally};
use crate::status::{
    Tally, WorkerStatus, lemma_tally_any_order, lemma_tally_concat, lemma_tally_empty, tally,
};
use crate::worker::{Outcome, Phase, WorkerView, lemma_finished_worker, lemma_worker_tally};

verus! {

/// The reports of several workers, one worker after the other.
pub open spec fn reports_of_all(workers: Seq<WorkerView>) -> Seq<WorkerStatus>
    decreases workers.len(),
{
    if workers.len() == 0 {
        Seq::empty()
    } else {
        reports_of_all(workers.drop_last()) + workers.last().emitted()
    }
}

/// Number of iterations, over all workers, that failed at sending.
pub open spec fn send_failures(workers: Seq<WorkerView>) -> nat
    decreases workers.len(),
{
    if workers.len() == 0 {
        0
    } else {
        send_failures(workers.drop_last()) + workers.last().outcomes.to_multiset().count(
            Outcome::SendFailed,
        )
    }
}

/// Every worker of the row is finished, after `number` iterations.
pub open spec fn all_finished(workers: Seq<WorkerView>, number: nat) -> bool {
    forall|k: int|
        0 <= k < workers.len() ==> (#[trigger] workers[k]).wf() && workers[k].phase
            == Phase::Finished && workers[k].number == number
}

/// The reports of finished workers, taken together.
proof fn lemma_all_reports_tally(workers: Seq<WorkerView>, number: nat)
    requires
        all_finished(workers, number),
    ensures
        tally(reports_of_all(workers)).terminal() == workers.len() * number,
        tally(reports_of_all(workers)).sent + send_failures(workers) == workers.len() * number,
        tally(reports_of_all(workers)).all_finished == workers.len(),
    decreases workers.len(),
{
    if workers.len() == 0 {
        lemma_tally_empty();
        assert(0 * number == 0) by (nonlinear_arith);
    } else {
        let before = workers.drop_last();
        let last = workers.last();
        assert forall|k: int| 0 <= k < before.len() implies (#[trigger] before[k]).wf()
            && before[k].phase == Phase::Finished && before[k].number == number by {
            assert(before[k] == workers[k]);
        }
        lemma_all_reports_tally(before, number);
        lemma_finished_worker(last);
        lemma_tally_concat(reports_of_all(before), last.emitted());
        assert(workers.len() * number == before.len() * number + number) by (nonlinear_arith)
            requires
                workers.len() == before.len() + 1,
        ;
    }
}

/// The totals of a run.
///
/// Let every worker run `number` iterations to the end, and let the
/// aggregator count their reports in any interleaving. Then success,
/// timeout and failure add up to the number of iterations of the run, the
/// product of workers and iterations. The queries sent and the iterations
/// that failed at sending add up to the same number, so no more queries are
/// sent than there are iterations, and as many only where no sending failed;
/// and each query sent is matched by one success, timeout or failure that
/// is no failure at sending.
/// And as many workers are counted as finished as the run has, with which
/// an aggregator that waits for that many workers is done.
pub proof fn lemma_run_totals(workers: Seq<WorkerView>, number: nat, seen: Seq<WorkerStatus>)
    requires
        all_finished(workers, number),
        seen.to_multiset() == reports_of_all(workers).to_multiset(),
    ensures
        tally(seen).terminal() == workers.len() * number,
        tally(seen).sent + send_failures(workers) == workers.len() * number,
        tally(seen).sent == tally(seen).success + tally(seen).timeout + tally(seen).failed
            - send_failures(workers),
        tally(seen).sent <= tally(seen).terminal(),
        tally(seen).all_finished == workers.len(),
        (AggregatorView { threads: workers.len(), tally: Tally::zero() }).after(seen).done(),
{
    lemma_all_reports_tally(workers, number);
    lemma_tally_any_order(seen, reports_of_all(workers));
    lemma_counts_are_tally(workers.len(), seen);
}

/// Number of workers of the row that are finished.
pub open spec fn finished_count(workers: Seq<WorkerView>) -> nat
    decreases workers.len(),
{
    if workers.len() == 0 {
        0
    } else {
        finished_count(workers.drop_last()) + if workers.last().phase is Finished {
            1nat
        } else {
            0nat
        }
    }
}

/// As many workers are finished as there are, exactly where each one is.
proof fn lemma_finished_count(workers: Seq<WorkerView>)
    ensures
        finished_count(workers) <= workers.len(),
        finished_count(workers) == workers.len() <==> forall|k: int|
            0 <= k < workers.len() ==> (#[trigger] workers[k]).phase is Finished,
    decreases workers.len(),
{
    if workers.len() > 0 {
        let before = workers.drop_last();
        lemma_finished_count(before);
        if finished_count(workers) == workers.len() {
            assert forall|k: int| 0 <= k < workers.len() implies (
            #[trigger] workers[k]).phase is Finished by {
                if k < before.len() {
                    assert(before[k] == workers[k]);
                }
            }
        } else if finished_count(before) != before.len() {
            let k = choose|k: int|
                0 <= k < before.len() && !((#[trigger] before[k]).phase is Finished);
            assert(before[k] == workers[k]);
        }
    }
}

/// The reports of workers at any moment of a run, taken together.
proof fn lemma_all_reports_progress(workers: Seq<WorkerView>)
    requires
        forall|k: int| 0 <= k < workers.len() ==> (#[trigger] workers[k]).wf(),
    ensures
        tally(reports_of_all(workers)).all_finished == finished_count(workers),
    decreases workers.len(),
{
    if workers.len() == 0 {
        lemma_tally_empty();
    } else {
        let before = workers.drop_last();
        assert forall|k: int| 0 <= k < before.len() implies (#[trigger] before[k]).wf() by {
            assert(before[k] == workers[k]);
        }
        lemma_all_reports_progress(before);
        lemma_worker_tally(workers.last());
        lemma_tally_concat(reports_of_all(before), workers.last().emitted());
    }
}

/// When a run is over.
///
/// At any moment of a run, let the aggregator have counted, in any
/// interleaving, what the workers have reported so far. Then it has counted
/// as many workers as finished as are finished, which is never more than
/// the run has; and an aggregator that waits for as many workers as the run
/// has is done exactly when every worker is finished.
pub proof fn lemma_run_end(workers: Seq<WorkerView>, seen: Seq<WorkerStatus>)
    requires
        forall|k: int| 0 <= k < workers.len() ==> (#[trigger] workers[k]).wf(),
        seen.to_multiset() == reports_of_all(workers).to_multiset(),
    ensures
        tally(seen).all_finished == finished_count(workers),
        tally(seen).all_finished <= workers.len(),
        (AggregatorView { threads: workers.len(), tally: Tally::zero() }).after(seen).wf(),
        (AggregatorView { threads: workers.len(), tally: Tally::zero() }).after(seen).done()
            <==> forall|k: int|
            0 <= k < workers.len() ==> (#[trigger] workers[k]).phase is Finished,
{
    lemma_all_reports_progress(workers);
    lemma_finished_count(workers);
    lemma_tally_any_order(seen, reports_of_all(workers));
    lemma_counts_are_tally(workers.len(), seen);
}

} // verus!
