//! The query worker: one socket, a fixed number of request/response cycles.
//!
//! The worker is a state machine that never touches the socket. Its caller
//! does what the current [`Phase`] asks for (obtain an id and a name, send,
//! receive) and hands the result back; the worker answers with the status
//! to report and moves on.
//!
//! A reply that carries another transaction id than the outstanding query is
//! no report at all: the worker keeps waiting, and the caller receives again
//! with the full timeout. The timeout bounds each single wait, not the
//! iteration as a whole.

use vstd::prelude::*;
use vstd::string::StringSliceAdditionalSpecFns;
use crate::codec::{
    RecordType, build_query, can_encode, packet_accepted, parse_id, query_wire, reply_id,
};
use crate::status::{
    Tally, WorkerStatus, lemma_tally_concat, lemma_tally_empty, lemma_tally_push, tally,
};

verus! {

/// Size of the buffer that a reply is received into. The parser is given
/// the whole buffer: the datagram, and zeros behind it.
pub const RECV_BUFFER_LEN: usize = 4096;

/// How one iteration of a worker ended.
pub enum Outcome {
    /// The query could not be sent.
    SendFailed,
    /// The query was sent and its reply arrived.
    Answered,
    /// The query was sent and no reply arrived in time.
    TimedOut,
    /// The query was sent, and receiving or decoding the reply failed.
    ReceiveFailed,
}

impl Outcome {
    /// The reports that an iteration with this outcome makes, in order.
    pub open spec fn reports(self) -> Seq<WorkerStatus> {
        match self {
            Outcome::SendFailed => seq![WorkerStatus::Failed],
            Outcome::Answered => seq![WorkerStatus::Sent, WorkerStatus::Success],
            Outcome::TimedOut => seq![WorkerStatus::Sent, WorkerStatus::Timeout],
            Outcome::ReceiveFailed => seq![WorkerStatus::Sent, WorkerStatus::Failed],
        }
    }

    /// The outcome of an iteration whose query was sent and whose wait for
    /// the reply ended with the report `status`.
    pub open spec fn of_receive(status: WorkerStatus) -> Outcome {
        match status {
            WorkerStatus::Success => Outcome::Answered,
            WorkerStatus::Timeout => Outcome::TimedOut,
            _ => Outcome::ReceiveFailed,
        }
    }
}

/// The reports of a row of iterations, one iteration after the other.
pub open spec fn reports_of(outcomes: Seq<Outcome>) -> Seq<WorkerStatus>
    decreases outcomes.len(),
{
    if outcomes.len() == 0 {
        Seq::empty()
    } else {
        reports_of(outcomes.drop_last()) + outcomes.last().reports()
    }
}

/// What the worker waits for.
#[derive(Clone, Copy, Debug, PartialEq, Eq, Structural)]
pub enum Phase {
    /// The next iteration can begin: an id and a name are needed.
    Ready,
    /// The query with this id has been built and is to be sent.
    Sending { id: u16 },
    /// The query with this id has been sent; its reply is awaited.
    Awaiting { id: u16 },
    /// All iterations are done; the last report is due.
    Closing,
    /// The worker has made its last report.
    Finished,
}

/// What came of one attempt to receive.
#[derive(Debug)]
pub enum Reply {
    /// Nothing arrived within the timeout.
    TimedOut,
    /// Receiving failed for another reason.
    Failed,
    /// The receive buffer, with the datagram that arrived in it.
    Datagram(Vec<u8>),
}

/// What a worker stands for: its settings, its phase, and how each of the
/// iterations that it has behind it ended.
pub struct WorkerView {
    pub query_type: RecordType,
    pub number: nat,
    pub timeout: u64,
    pub phase: Phase,
    pub outcomes: Seq<Outcome>,
}

impl WorkerView {
    /// The phase between two iterations, or behind the last one.
    pub open spec fn rest_phase(number: nat, completed: nat) -> Phase {
        if completed < number {
            Phase::Ready
        } else {
            Phase::Closing
        }
    }

    /// The phase fits the number of iterations that are done.
    pub open spec fn wf(self) -> bool {
        &&& self.outcomes.len() <= self.number
        &&& match self.phase {
            Phase::Ready | Phase::Sending { .. } | Phase::Awaiting { .. } => self.outcomes.len()
                < self.number,
            Phase::Closing | Phase::Finished => self.outcomes.len() == self.number,
        }
    }

    /// The worker after the current iteration has ended with `outcome`.
    pub open spec fn ended(self, outcome: Outcome) -> WorkerView {
        WorkerView {
            phase: Self::rest_phase(self.number, self.outcomes.len() + 1),
            outcomes: self.outcomes.push(outcome),
            ..self
        }
    }

    /// The worker in another phase, all else unchanged.
    pub open spec fn moved(self, phase: Phase) -> WorkerView {
        WorkerView { phase, ..self }
    }

    /// Every report that the worker has made so far, in order.
    pub open spec fn emitted(self) -> Seq<WorkerStatus> {
        reports_of(self.outcomes) + match self.phase {
            Phase::Awaiting { .. } => seq![WorkerStatus::Sent],
            Phase::Finished => seq![WorkerStatus::AllFinished],
            _ => Seq::empty(),
        }
    }
}

/// The report for a datagram in which the parser found `parsed`, while the
/// query with the id `expected` is outstanding: a failure where the parser
/// found no packet, success where it found the expected id, and no report
/// where it found another id.
pub open spec fn reply_status(expected: u16, parsed: Option<u16>) -> Option<WorkerStatus> {
    match parsed {
        None => Some(WorkerStatus::Failed),
        Some(id) => if id == expected {
            Some(WorkerStatus::Success)
        } else {
            None
        },
    }
}

/// The report for one attempt to receive, while the query with the id
/// `expected` is outstanding; `None` where the worker keeps waiting.
pub open spec fn receive_status(expected: u16, reply: Reply) -> Option<WorkerStatus> {
    match reply {
        Reply::TimedOut => Some(WorkerStatus::Timeout),
        Reply::Failed => Some(WorkerStatus::Failed),
        Reply::Datagram(data) => reply_status(expected, reply_id(data@)),
    }
}

/// A wait for the reply to the query `expected` ends in success only with a
/// datagram that the parser accepts and that carries the id `expected` in
/// its first two bytes, high byte first.
pub proof fn lemma_success_needs_the_id(expected: u16, reply: Reply)
    ensures
        receive_status(expected, reply) == Some(WorkerStatus::Success) <==> (
        reply matches Reply::Datagram(data) && reply_id(data@) == Some(expected)),
        receive_status(expected, reply) == Some(WorkerStatus::Success) ==> (
        reply matches Reply::Datagram(data) && packet_accepted(data@) && data@[0] == expected / 256
            && data@[1] == expected % 256),
{
}

/// Decides on a datagram from what the parser found in it. A reply counts as
/// a success only where it carries the id of the outstanding query.
pub fn judge_reply(expected: u16, parsed: Option<u16>) -> (r: Option<WorkerStatus>)
    ensures
        r == reply_status(expected, parsed),
        r == Some(WorkerStatus::Success) <==> parsed == Some(expected),
{
    match parsed {
        None => Some(WorkerStatus::Failed),
        Some(id) => {
            if id == expected {
                Some(WorkerStatus::Success)
            } else {
                None
            }
        },
    }
}

/// The report for a query that was handed to the socket.
pub fn send_status(delivered: bool) -> (status: WorkerStatus)
    ensures
        status == if delivered {
            WorkerStatus::Sent
        } else {
            WorkerStatus::Failed
        },
{
    if delivered {
        WorkerStatus::Sent
    } else {
        WorkerStatus::Failed
    }
}

/// One worker of a run.
pub struct Worker {
    query_type: RecordType,
    number: u32,
    timeout: u64,
    completed: u32,
    phase: Phase,
    outcomes: Ghost<Seq<Outcome>>,
}

impl View for Worker {
    type V = WorkerView;

    closed spec fn view(&self) -> WorkerView {
        WorkerView {
            query_type: self.query_type,
            number: self.number as nat,
            timeout: self.timeout,
            phase: self.phase,
            outcomes: self.outcomes@,
        }
    }
}

impl Worker {
    /// The counter of iterations agrees with the record of their outcomes.
    pub closed spec fn wf(&self) -> bool {
        &&& self@.wf()
        &&& self.completed == self.outcomes@.len()
    }

    /// A worker in order stands for a view in order.
    pub proof fn lemma_view_wf(self)
        requires
            self.wf(),
        ensures
            self@.wf(),
    {
    }

    /// A worker that is to make `number` queries for records of type
    /// `query_type`, and to wait up to `timeout` milliseconds each time it
    /// receives.
    pub fn new(query_type: RecordType, number: u32, timeout: u64) -> (w: Worker)
        ensures
            w.wf(),
            w@ == (WorkerView {
                query_type,
                number: number as nat,
                timeout,
                phase: WorkerView::rest_phase(number as nat, 0),
                outcomes: Seq::empty(),
            }),
    {
        let phase = if number > 0 {
            Phase::Ready
        } else {
            Phase::Closing
        };
        Worker { query_type, number, timeout, completed: 0, phase, outcomes: Ghost(Seq::empty()) }
    }

    /// What the worker waits for.
    pub fn phase(&self) -> (phase: Phase)
        ensures
            phase == self@.phase,
    {
        self.phase
    }

    /// The record type that the worker asks for.
    pub fn query_type(&self) -> (query_type: RecordType)
        ensures
            query_type == self@.query_type,
    {
        self.query_type
    }

    /// Number of iterations that the worker makes in all.
    pub fn number(&self) -> (n: u32)
        ensures
            n == self@.number,
    {
        self.number
    }

    /// Number of iterations that have ended.
    pub fn completed(&self) -> (n: u32)
        requires
            self.wf(),
        ensures
            n == self@.outcomes.len(),
    {
        self.completed
    }

    /// The time to wait for a reply, in milliseconds. It is the same for
    /// every attempt to receive, the first of an iteration and those that
    /// follow a reply with another id.
    pub fn timeout(&self) -> (ms: u64)
        ensures
            ms == self@.timeout,
    {
        self.timeout
    }

    /// Ends the current iteration.
    fn end_iteration(&mut self, outcome: Ghost<Outcome>)
        requires
            old(self).wf(),
            old(self)@.outcomes.len() < old(self)@.number,
        ensures
            final(self).wf(),
            final(self)@ == old(self)@.ended(outcome@),
    {
        self.completed = self.completed + 1;
        self.outcomes = Ghost(self.outcomes@.push(outcome@));
        self.phase = if self.completed < self.number {
            Phase::Ready
        } else {
            Phase::Closing
        };
    }

    /// Begins an iteration: builds the query for `domain` with the
    /// transaction id `id`, which is then to be sent.
    ///
    /// Where no query can be built for the name, the result is `None` and
    /// the worker is left as it was.
    pub fn begin_query(&mut self, id: u16, domain: &str) -> (r: Option<Vec<u8>>)
        requires
            old(self).wf(),
            old(self)@.phase == Phase::Ready,
        ensures
            final(self).wf(),
            r is Some <==> can_encode(domain.spec_bytes()),
            r matches Some(packet) ==> packet@ == query_wire(
                id,
                domain.spec_bytes(),
                old(self)@.query_type,
            ),
            final(self)@ == if r is Some {
                old(self)@.moved(Phase::Sending { id })
            } else {
                old(self)@
            },
            final(self)@.emitted() == old(self)@.emitted(),
    {
        let r = build_query(id, domain, self.query_type);
        if r.is_some() {
            self.phase = Phase::Sending { id };
        }
        r
    }

    /// Takes note of how sending went, and gives the status to report:
    /// `Sent` where the query left the socket, after which its reply is
    /// awaited, and `Failed` where it did not, which ends the iteration.
    pub fn on_send(&mut self, delivered: bool) -> (status: WorkerStatus)
        requires
            old(self).wf(),
            old(self)@.phase is Sending,
        ensures
            final(self).wf(),
            status == if delivered {
                WorkerStatus::Sent
            } else {
                WorkerStatus::Failed
            },
            final(self)@ == if delivered {
                old(self)@.moved(Phase::Awaiting { id: old(self)@.phase->Sending_id })
            } else {
                old(self)@.ended(Outcome::SendFailed)
            },
            final(self)@.emitted() == old(self)@.emitted().push(status),
    {
        let status = send_status(delivered);
        match self.phase {
            Phase::Sending { id } => {
                if delivered {
                    self.phase = Phase::Awaiting { id };
                } else {
                    self.end_iteration(Ghost(Outcome::SendFailed));
                }
            },
            _ => {},
        }
        proof {
            lemma_emitted_step(old(self)@, self@, status);
        }
        status
    }

    /// Takes note of what an attempt to receive gave, and gives the status
    /// to report, if any.
    ///
    /// A timeout, a failure to receive and a datagram that is no packet end
    /// the iteration, and so does a reply with the id of the outstanding
    /// query. A reply with another id is not reported: the worker is left as
    /// it was, and the reply is awaited again.
    pub fn on_receive(&mut self, reply: Reply) -> (r: Option<WorkerStatus>)
        requires
            old(self).wf(),
            old(self)@.phase is Awaiting,
        ensures
            final(self).wf(),
            r == receive_status(old(self)@.phase->Awaiting_id, reply),
            final(self)@ == match r {
                Some(status) => old(self)@.ended(Outcome::of_receive(status)),
                None => old(self)@,
            },
            final(self)@.emitted() == match r {
                Some(status) => old(self)@.emitted().push(status),
                None => old(self)@.emitted(),
            },
    {
        let expected: u16 = match self.phase {
            Phase::Awaiting { id } => id,
            _ => 0,
        };
        let r = match reply {
            Reply::TimedOut => Some(WorkerStatus::Timeout),
            Reply::Failed => Some(WorkerStatus::Failed),
            Reply::Datagram(data) => {
                let parsed = parse_id(data.as_slice());
                judge_reply(expected, parsed)
            },
        };
        match r {
            Some(status) => {
                self.end_iteration(Ghost(Outcome::of_receive(status)));
                proof {
                    lemma_emitted_step(old(self)@, self@, status);
                }
            },
            None => {},
        }
        r
    }

    /// Makes the last report of the worker, once all iterations are done.
    pub fn finish(&mut self) -> (status: WorkerStatus)
        requires
            old(self).wf(),
            old(self)@.phase == Phase::Closing,
        ensures
            final(self).wf(),
            status == WorkerStatus::AllFinished,
            final(self)@ == old(self)@.moved(Phase::Finished),
            final(self)@.emitted() == old(self)@.emitted().push(status),
    {
        self.phase = Phase::Finished;
        proof {
            lemma_emitted_step(old(self)@, self@, WorkerStatus::AllFinished);
        }
        WorkerStatus::AllFinished
    }
}

/// The reports of a row of iterations with one more at the end.
pub proof fn lemma_reports_push(outcomes: Seq<Outcome>, outcome: Outcome)
    ensures
        reports_of(outcomes.push(outcome)) == reports_of(outcomes) + outcome.reports(),
{
    assert(outcomes.push(outcome).drop_last() =~= outcomes);
}

/// Each step of a worker that gives a status adds that status, and nothing
/// else, to what the worker has reported.
proof fn lemma_emitted_step(before: WorkerView, after: WorkerView, status: WorkerStatus)
    requires
        ({
            ||| before.phase is Sending && status == WorkerStatus::Sent && after == before.moved(
                Phase::Awaiting { id: before.phase->Sending_id },
            )
            ||| before.phase is Sending && status == WorkerStatus::Failed && after == before.ended(
                Outcome::SendFailed,
            )
            ||| before.phase is Awaiting && status != WorkerStatus::Sent && status
                != WorkerStatus::AllFinished && after == before.ended(Outcome::of_receive(status))
            ||| before.phase == Phase::Closing && status == WorkerStatus::AllFinished && after
                == before.moved(Phase::Finished)
        }),
    ensures
        after.emitted() == before.emitted().push(status),
{
    if before.phase is Sending && status == WorkerStatus::Failed {
        lemma_reports_push(before.outcomes, Outcome::SendFailed);
    } else if before.phase is Awaiting {
        lemma_reports_push(before.outcomes, Outcome::of_receive(status));
    }
    assert(after.emitted() =~= before.emitted().push(status));
}

/// The tally of the reports of a single iteration.
proof fn lemma_outcome_tally(outcome: Outcome)
    ensures
        tally(outcome.reports()) == match outcome {
            Outcome::SendFailed => Tally { failed: 1, ..Tally::zero() },
            Outcome::Answered => Tally { sent: 1, success: 1, ..Tally::zero() },
            Outcome::TimedOut => Tally { sent: 1, timeout: 1, ..Tally::zero() },
            Outcome::ReceiveFailed => Tally { sent: 1, failed: 1, ..Tally::zero() },
        },
{
    let none = Seq::<WorkerStatus>::empty();
    lemma_tally_empty();
    let first = outcome.reports()[0];
    lemma_tally_push(none, first);
    assert(none.push(first) =~= seq![first]);
    if outcome != Outcome::SendFailed {
        let second = outcome.reports()[1];
        lemma_tally_push(seq![first], second);
        assert(seq![first].push(second) =~= outcome.reports());
    } else {
        assert(seq![first] =~= outcome.reports());
    }
}

/// What a row of iterations adds up to.
///
/// Every iteration ends with exactly one of success, timeout and failure.
/// A query is counted as sent in every iteration but those that failed at
/// sending; each query that was sent is answered, timed out or failed at
/// receiving. Iterations alone never report that the worker is finished.
pub proof fn lemma_reports_tally(outcomes: Seq<Outcome>)
    ensures
        tally(reports_of(outcomes)).terminal() == outcomes.len(),
        tally(reports_of(outcomes)).sent + outcomes.to_multiset().count(Outcome::SendFailed)
            == outcomes.len(),
        tally(reports_of(outcomes)).success == outcomes.to_multiset().count(Outcome::Answered),
        tally(reports_of(outcomes)).timeout == outcomes.to_multiset().count(Outcome::TimedOut),
        tally(reports_of(outcomes)).failed == outcomes.to_multiset().count(Outcome::SendFailed)
            + outcomes.to_multiset().count(Outcome::ReceiveFailed),
        tally(reports_of(outcomes)).all_finished == 0,
    decreases outcomes.len(),
{
    if outcomes.len() == 0 {
        lemma_tally_empty();
        assert(outcomes.to_multiset() =~= vstd::multiset::Multiset::empty()) by {
            broadcast use vstd::seq_lib::group_to_multiset_ensures;

        }
    } else {
        let before = outcomes.drop_last();
        let last = outcomes.last();
        lemma_reports_tally(before);
        lemma_outcome_tally(last);
        lemma_tally_concat(reports_of(before), last.reports());
        vstd::seq_lib::to_multiset_build(before, last);
        assert(before.push(last) =~= outcomes);
    }
}

/// What a worker has reported at any moment.
///
/// As many iterations have ended as there are reports of success, timeout
/// and failure together. The queries that were sent are those of the ended
/// iterations that did not fail at sending, and the one whose reply is
/// awaited, if any. The worker has reported that it is finished once, if it
/// is, and not before.
pub proof fn lemma_worker_tally(w: WorkerView)
    requires
        w.wf(),
    ensures
        tally(w.emitted()).terminal() == w.outcomes.len(),
        tally(w.emitted()).terminal() <= w.number,
        tally(w.emitted()).sent + w.outcomes.to_multiset().count(Outcome::SendFailed)
            == w.outcomes.len() + if w.phase is Awaiting {
            1nat
        } else {
            0nat
        },
        tally(w.emitted()).all_finished == if w.phase is Finished {
            1nat
        } else {
            0nat
        },
{
    lemma_reports_tally(w.outcomes);
    let done = reports_of(w.outcomes);
    match w.phase {
        Phase::Awaiting { .. } => {
            lemma_tally_push(done, WorkerStatus::Sent);
            assert(done.push(WorkerStatus::Sent) =~= w.emitted());
        },
        Phase::Finished => {
            lemma_tally_push(done, WorkerStatus::AllFinished);
            assert(done.push(WorkerStatus::AllFinished) =~= w.emitted());
        },
        _ => {
            assert(done =~= w.emitted());
        },
    }
}

/// What a worker has reported when it is finished.
///
/// Its iterations are the ones that failed at sending and the ones whose
/// query was sent; each of the latter gave exactly one of success, timeout
/// and failure. So success, timeout and failure add up to the number of
/// iterations, the queries sent are at most as many, and they are as many
/// exactly where no sending failed. The worker has reported once that it is
/// finished.
pub proof fn lemma_finished_worker(w: WorkerView)
    requires
        w.wf(),
        w.phase == Phase::Finished,
    ensures
        tally(w.emitted()).terminal() == w.number,
        tally(w.emitted()).sent + w.outcomes.to_multiset().count(Outcome::SendFailed) == w.number,
        tally(w.emitted()).sent == tally(w.emitted()).success + tally(w.emitted()).timeout
            + w.outcomes.to_multiset().count(Outcome::ReceiveFailed),
        tally(w.emitted()).sent <= tally(w.emitted()).terminal(),
        tally(w.emitted()).all_finished == 1,
{
    lemma_worker_tally(w);
    lemma_reports_tally(w.outcomes);
    lemma_tally_push(reports_of(w.outcomes), WorkerStatus::AllFinished);
    assert(reports_of(w.outcomes).push(WorkerStatus::AllFinished) =~= w.emitted());
}

/// A status that ends an iteration.
pub open spec fn is_terminal(status: WorkerStatus) -> bool {
    status == WorkerStatus::Success || status == WorkerStatus::Timeout || status
        == WorkerStatus::Failed
}

/// The order of the reports of a row of iterations, seen from report `i`.
///
/// Behind a `Sent` stands, as the very next report, the one report that ends
/// its iteration. Success and timeout are only ever reported right behind a
/// `Sent`. Iterations never report that the worker is finished.
pub proof fn lemma_reports_order(outcomes: Seq<Outcome>, i: int)
    requires
        0 <= i < reports_of(outcomes).len(),
    ensures
        reports_of(outcomes)[i] != WorkerStatus::AllFinished,
        reports_of(outcomes)[i] == WorkerStatus::Sent ==> i + 1 < reports_of(outcomes).len()
            && is_terminal(reports_of(outcomes)[i + 1]),
        reports_of(outcomes)[i] == WorkerStatus::Success || reports_of(outcomes)[i]
            == WorkerStatus::Timeout ==> i > 0 && reports_of(outcomes)[i - 1] == WorkerStatus::Sent,
    decreases outcomes.len(),
{
    if outcomes.len() > 0 {
        let before = reports_of(outcomes.drop_last());
        let tail = outcomes.last().reports();
        let log = reports_of(outcomes);
        assert(log == before + tail);
        if i < before.len() {
            lemma_reports_order(outcomes.drop_last(), i);
            assert(log[i] == before[i]);
            if i + 1 < before.len() {
                assert(log[i + 1] == before[i + 1]);
            }
            if i > 0 {
                assert(log[i - 1] == before[i - 1]);
            }
        } else {
            let k = i - before.len();
            assert(log[i] == tail[k]);
            if k == 0 {
                if tail.len() > 1 {
                    assert(log[i + 1] == tail[1]);
                }
            } else {
                assert(log[i - 1] == tail[0]);
            }
        }
    }
}

/// The order of the reports of a finished worker, seen from report `i`.
///
/// The last report, and no other, says that the worker is finished. A `Sent`
/// is followed at once by the report that ends its iteration, which stands
/// before the last report: no query is left open when the worker reports
/// that it is finished.
pub proof fn lemma_finished_order(w: WorkerView, i: int)
    requires
        w.wf(),
        w.phase == Phase::Finished,
        0 <= i < w.emitted().len(),
    ensures
        w.emitted()[i] == WorkerStatus::AllFinished <==> i == w.emitted().len() - 1,
        w.emitted()[i] == WorkerStatus::Sent ==> i + 1 < w.emitted().len() - 1 && is_terminal(
            w.emitted()[i + 1],
        ),
        w.emitted()[i] == WorkerStatus::Success || w.emitted()[i] == WorkerStatus::Timeout ==> i
            > 0 && w.emitted()[i - 1] == WorkerStatus::Sent,
{
    let done = reports_of(w.outcomes);
    assert(w.emitted() =~= done.push(WorkerStatus::AllFinished));
    if i < done.len() {
        lemma_reports_order(w.outcomes, i);
    }
}

} // verus!
