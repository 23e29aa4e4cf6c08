use dns_loadgen::aggregator::Aggregator;
use dns_loadgen::codec::RecordType;
use dns_loadgen::ids::TxIdAllocator;
use dns_loadgen::status::WorkerStatus;
use dns_loadgen::worker::{Phase, Reply, Worker, RECV_BUFFER_LEN};

/// How the network treats one query.
#[derive(Clone, Copy)]
enum Net {
    Unreachable,
    Answers,
    Silent,
    Garbles,
    AnswersAfterStray,
}

/// Runs one worker to its end against `net`, and gives its reports in order.
fn run_worker(ids: &mut TxIdAllocator, number: u32, net: &dyn Fn(u32) -> Net) -> Vec<WorkerStatus> {
    let mut worker = Worker::new(RecordType::A, number, 500);
    let mut log = Vec::new();
    let mut iteration = 0u32;
    loop {
        match worker.phase() {
            Phase::Ready => {
                let id = ids.next();
                let query = worker.begin_query(id, "example.com").unwrap();
                let how = net(iteration);
                iteration += 1;
                let delivered = !matches!(how, Net::Unreachable);
                log.push(worker.on_send(delivered));
                let mut stray_pending = matches!(how, Net::AnswersAfterStray);
                while let Phase::Awaiting { id } = worker.phase() {
                    let mut buffer = vec![0u8; RECV_BUFFER_LEN];
                    buffer[..query.len()].copy_from_slice(&query);
                    buffer[2] |= 0x80;
                    let reply = match how {
                        Net::Silent => Reply::TimedOut,
                        Net::Garbles => Reply::Datagram(vec![1, 2, 3]),
                        Net::AnswersAfterStray if stray_pending => {
                            stray_pending = false;
                            let other = id.wrapping_add(1);
                            buffer[0] = (other >> 8) as u8;
                            buffer[1] = (other & 0xff) as u8;
                            Reply::Datagram(buffer)
                        }
                        _ => Reply::Datagram(buffer),
                    };
                    if let Some(status) = worker.on_receive(reply) {
                        log.push(status);
                    }
                }
            }
            Phase::Closing => log.push(worker.finish()),
            Phase::Finished => return log,
            _ => unreachable!(),
        }
    }
}

/// Counts the reports of the workers, taking one report of each in turn.
fn aggregate(threads: u32, logs: &[Vec<WorkerStatus>]) -> Aggregator {
    let mut aggregator = Aggregator::new(threads);
    let longest = logs.iter().map(|l| l.len()).max().unwrap_or(0);
    let mut done = aggregator.is_done();
    for step in 0..longest {
        for log in logs {
            if let Some(status) = log.get(step) {
                assert!(!done);
                assert!(aggregator.has_room(*status));
                done = aggregator.record(*status);
                assert_eq!(done, aggregator.is_done());
                assert!(aggregator.all_finished() <= aggregator.threads());
            }
        }
    }
    aggregator
}

fn run(threads: u32, number: u32, net: &dyn Fn(u32) -> Net) -> Aggregator {
    let mut ids = TxIdAllocator::new();
    let mut logs = Vec::new();
    for _ in 0..threads {
        logs.push(run_worker(&mut ids, number, net));
    }
    aggregate(threads, &logs)
}

#[test]
fn unreachable_server_fails_every_iteration_and_sends_nothing() {
    let totals = run(2, 5, &|_| Net::Unreachable);
    assert_eq!(totals.sent(), 0);
    assert_eq!(totals.failed(), 10);
    assert_eq!(totals.success(), 0);
    assert_eq!(totals.timeout(), 0);
    assert_eq!(totals.all_finished(), 2);
    assert!(totals.is_done());
}

#[test]
fn answering_server_gives_success_for_every_query() {
    let (threads, number) = (3u32, 7u32);
    let totals = run(threads, number, &|_| Net::Answers);
    assert_eq!(totals.success(), u64::from(threads * number));
    assert_eq!(totals.sent(), u64::from(threads * number));
    assert_eq!(totals.failed(), 0);
    assert_eq!(totals.timeout(), 0);
    assert_eq!(totals.all_finished(), threads);
    assert!(totals.is_done());
}

#[test]
fn silent_server_gives_a_timeout_for_every_query() {
    let (threads, number) = (4u32, 6u32);
    let totals = run(threads, number, &|_| Net::Silent);
    assert_eq!(totals.timeout(), u64::from(threads * number));
    assert_eq!(totals.sent(), u64::from(threads * number));
    assert_eq!(totals.success(), 0);
    assert_eq!(totals.failed(), 0);
    assert_eq!(totals.all_finished(), threads);
    assert!(totals.is_done());
}

#[test]
fn stray_replies_are_not_counted() {
    let (threads, number) = (2u32, 5u32);
    let totals = run(threads, number, &|_| Net::AnswersAfterStray);
    assert_eq!(totals.success(), 10);
    assert_eq!(totals.sent(), 10);
    assert_eq!(totals.failed(), 0);
    assert_eq!(totals.timeout(), 0);
}

#[test]
fn every_iteration_ends_in_exactly_one_of_success_timeout_and_failure() {
    let (threads, number) = (3u32, 8u32);
    let net = |i: u32| match i % 4 {
        0 => Net::Unreachable,
        1 => Net::Answers,
        2 => Net::Silent,
        _ => Net::Garbles,
    };
    let totals = run(threads, number, &net);
    // Two iterations in eight fail at sending, two each are answered, time out and are garbled.
    assert_eq!(totals.sent(), 18);
    assert_eq!(totals.success(), 6);
    assert_eq!(totals.timeout(), 6);
    assert_eq!(totals.failed(), 12);
    assert_eq!(totals.success() + totals.timeout() + totals.failed(), u64::from(threads * number));
    assert_eq!(totals.sent() + 6, u64::from(threads * number));
    assert_eq!(totals.all_finished(), threads);
}

#[test]
fn sent_comes_right_before_the_end_of_its_iteration() {
    let net = |i: u32| match i % 5 {
        0 => Net::Unreachable,
        1 => Net::Answers,
        2 => Net::Silent,
        3 => Net::AnswersAfterStray,
        _ => Net::Garbles,
    };
    let mut ids = TxIdAllocator::new();
    let log = run_worker(&mut ids, 25, &net);
    assert_eq!(log.last(), Some(&WorkerStatus::AllFinished));
    assert_eq!(log.iter().filter(|s| **s == WorkerStatus::AllFinished).count(), 1);
    for (i, status) in log.iter().enumerate() {
        match status {
            WorkerStatus::Sent => assert!(matches!(
                log[i + 1],
                WorkerStatus::Success | WorkerStatus::Timeout | WorkerStatus::Failed
            )),
            WorkerStatus::Success | WorkerStatus::Timeout => {
                assert_eq!(log[i - 1], WorkerStatus::Sent)
            }
            _ => {}
        }
    }
}

#[test]
fn new_aggregator_counts_nothing() {
    let aggregator = Aggregator::new(10);
    assert_eq!(aggregator.threads(), 10);
    assert_eq!(aggregator.sent(), 0);
    assert_eq!(aggregator.success(), 0);
    assert_eq!(aggregator.timeout(), 0);
    assert_eq!(aggregator.failed(), 0);
    assert_eq!(aggregator.all_finished(), 0);
    assert!(!aggregator.is_done());
}

#[test]
fn record_raises_the_counter_of_the_status_and_no_other() {
    let mut aggregator = Aggregator::new(2);
    assert!(!aggregator.record(WorkerStatus::Sent));
    assert!(!aggregator.record(WorkerStatus::Sent));
    assert!(!aggregator.record(WorkerStatus::Success));
    assert!(!aggregator.record(WorkerStatus::Timeout));
    assert!(!aggregator.record(WorkerStatus::Failed));
    assert!(!aggregator.record(WorkerStatus::Failed));
    assert!(!aggregator.record(WorkerStatus::Failed));
    assert_eq!(aggregator.sent(), 2);
    assert_eq!(aggregator.success(), 1);
    assert_eq!(aggregator.timeout(), 1);
    assert_eq!(aggregator.failed(), 3);
    assert_eq!(aggregator.all_finished(), 0);
}

#[test]
fn aggregator_is_done_exactly_when_every_worker_has_finished() {
    let mut aggregator = Aggregator::new(3);
    assert!(!aggregator.record(WorkerStatus::AllFinished));
    assert!(!aggregator.is_done());
    assert!(!aggregator.record(WorkerStatus::Sent));
    assert!(!aggregator.record(WorkerStatus::AllFinished));
    assert!(!aggregator.is_done());
    assert!(aggregator.record(WorkerStatus::AllFinished));
    assert!(aggregator.is_done());
    assert_eq!(aggregator.all_finished(), 3);
    assert_eq!(aggregator.sent(), 1);
}

#[test]
fn aggregator_for_no_workers_is_done_from_the_start() {
    let aggregator = Aggregator::new(0);
    assert!(aggregator.is_done());
}

#[test]
fn aggregator_has_room_for_every_status_at_the_start() {
    let aggregator = Aggregator::new(1);
    for status in [
        WorkerStatus::Sent,
        WorkerStatus::Success,
        WorkerStatus::Timeout,
        WorkerStatus::Failed,
        WorkerStatus::AllFinished,
    ] {
        assert!(aggregator.has_room(status));
    }
}

#[test]
fn run_without_iterations_counts_only_finished_workers() {
    let totals = run(3, 0, &|_| Net::Answers);
    assert_eq!(totals.sent(), 0);
    assert_eq!(totals.success() + totals.timeout() + totals.failed(), 0);
    assert_eq!(totals.all_finished(), 3);
    assert!(totals.is_done());
}
