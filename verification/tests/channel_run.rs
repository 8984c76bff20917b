//! Sending to and receiving from a channel.
use lc_bench::binary64::Real;
use lc_bench::channel::{
    check_receive, check_send, delivery_ns, error_detail, is_transient_try_pop_error,
    poll_failure, poll_period_ns, receive_dir, sanitize_path_part, ReceiverAction,
    ReceiverMaterializeTaskResult, ReceiverPopTaskResult, ReceiverRun, ReceiverSignals,
    ReceiverTimes, MAX_RETAINED_FAILURES,
};
use lc_bench::latency::LatencySummary;
use lc_bench::paced::{PacedTaskFailure, PacedTaskRunReport};
use lc_bench::protocol::{
    ChannelSendResult, StartChannelReceiverRequest, StartPacedChannelSendRequest,
};

fn num(x: f64) -> Real {
    Real { bits: x.to_bits() }
}

fn send_request() -> StartPacedChannelSendRequest {
    StartPacedChannelSendRequest {
        run_id: "r".to_string(),
        count: 3,
        object_size_bytes: 64,
        target_ops_per_s: num(10.0),
        max_in_flight: 2,
        payload_strategy: "prestage-patch".to_string(),
    }
}

fn receive_request() -> StartChannelReceiverRequest {
    StartChannelReceiverRequest {
        run_id: "r".to_string(),
        poll_target_ops_per_s: num(10.0),
        poll_concurrency: 1,
        materialize_concurrency: 2,
        output_subdir: "node a".to_string(),
        max_runtime_ms: None,
    }
}

fn paced(completed: usize, failures: Vec<PacedTaskFailure>) -> PacedTaskRunReport {
    PacedTaskRunReport {
        target_ops_per_s: num(10.0),
        achieved_ops_per_s: num(9.0),
        successful_ops_per_s: num(8.0),
        total_tasks: completed,
        completed_tasks: completed,
        failed_tasks: failures.len(),
        wall_time_ms: num(300.0),
        offered_latency: LatencySummary::default(),
        service_latency: LatencySummary::default(),
        schedule_lag: LatencySummary::default(),
        samples: Vec::new(),
        failures,
    }
}

#[test]
fn sends_are_checked() {
    assert!(check_send(&send_request()).is_ok());
    let bad = StartPacedChannelSendRequest { count: 0, ..send_request() };
    assert_eq!(check_send(&bad).unwrap_err(), "channel send count must be greater than zero");
    let bad = StartPacedChannelSendRequest { object_size_bytes: 31, ..send_request() };
    assert_eq!(
        check_send(&bad).unwrap_err(),
        "channel payload object_size_bytes must be at least 32"
    );
    let bad = StartPacedChannelSendRequest { target_ops_per_s: num(0.0), ..send_request() };
    assert_eq!(
        check_send(&bad).unwrap_err(),
        "target_ops_per_s must be a finite positive number"
    );
    let bad = StartPacedChannelSendRequest { max_in_flight: 0, ..send_request() };
    assert_eq!(check_send(&bad).unwrap_err(), "max_in_flight must be greater than zero");
}

#[test]
fn receives_are_checked() {
    assert!(check_receive(&receive_request()).is_ok());
    let bad = StartChannelReceiverRequest { poll_concurrency: 0, ..receive_request() };
    assert_eq!(check_receive(&bad).unwrap_err(), "poll_concurrency must be greater than zero");
    let bad = StartChannelReceiverRequest { materialize_concurrency: 0, ..receive_request() };
    assert_eq!(
        check_receive(&bad).unwrap_err(),
        "materialize_concurrency must be greater than zero"
    );
    let bad =
        StartChannelReceiverRequest { poll_target_ops_per_s: num(-1.0), ..receive_request() };
    assert_eq!(
        check_receive(&bad).unwrap_err(),
        "poll_target_ops_per_s must be a finite positive number"
    );
}

#[test]
fn send_results_count_what_was_sent() {
    let failures = vec![PacedTaskFailure { index: 1, message: "boom".to_string() }];
    let result = ChannelSendResult::of(
        &send_request(),
        "dir".to_string(),
        num(1.0),
        num(2.0),
        &Some("gone".to_string()),
        paced(3, failures),
    );
    assert_eq!(result.sent_count, 2);
    assert_eq!(
        result.failure_messages,
        vec!["index=1: boom".to_string(), "close failed: gone".to_string()]
    );
    let many: Vec<PacedTaskFailure> = (0..100)
        .map(|i| PacedTaskFailure { index: i, message: "m".to_string() })
        .collect();
    let result = ChannelSendResult::of(
        &send_request(),
        "dir".to_string(),
        num(1.0),
        num(2.0),
        &Some("gone".to_string()),
        paced(100, many),
    );
    assert_eq!(result.sent_count, 0);
    assert_eq!(result.failure_messages.len(), MAX_RETAINED_FAILURES);
}

#[test]
fn poll_errors_may_pass() {
    assert!(!is_transient_try_pop_error("disk full"));
    match poll_failure("disk full") {
        Err(m) => assert_eq!(m, "receiver try_pop failed: disk full"),
        Ok(_) => panic!("not transient"),
    }
    assert!(error_detail(&vec!["a".to_string(), "b".to_string()]).contains("b"));
}

#[test]
fn times_are_kept_in_bounds() {
    assert_eq!(poll_period_ns(7), 7);
    assert_eq!(poll_period_ns(u64::MAX), 500_000_000);
    assert_eq!(delivery_ns(10, 4), 6);
    assert_eq!(delivery_ns(4, 10), 0);
    assert_eq!(delivery_ns(u64::MAX, 0), u64::MAX / 2);
}

#[test]
fn receive_directories_are_clean() {
    assert_eq!(sanitize_path_part(""), "receiver");
    assert_eq!(sanitize_path_part("a b/c"), "a-b-c");
    assert!(receive_dir("run", "a b", 17).starts_with("run/channel-materialized/a-b/recv-"));
}

const QUIET: ReceiverSignals = ReceiverSignals { cancelled: false, past_deadline: false, eof: false };

fn times() -> ReceiverTimes {
    ReceiverTimes {
        elapsed_ms: num(5.0),
        started_unix_ns: 1,
        finished_unix_ns: 2,
        materialized_dir: "d".to_string(),
        delivery_mean_ms: num(3.0),
        materialize_mean_ms: num(1.0),
    }
}

#[test]
fn receivers_deliver_until_the_end() {
    let mut run = ReceiverRun::new(1, 2);
    assert_eq!(run.next(QUIET), ReceiverAction::DrainReady);
    assert_eq!(run.next(QUIET), ReceiverAction::RestUntilNextPoll);
    assert_eq!(run.next(QUIET), ReceiverAction::StartPoll);
    run.on_polled(Ok(Ok(ReceiverPopTaskResult::Elem { seq: 0, element: 40 }))).unwrap();
    assert_eq!(run.start_materialize(), Some((0, 40)));
    assert_eq!(run.start_materialize(), None);
    run.on_materialized(Ok(Ok(ReceiverMaterializeTaskResult::Delivered {
        bytes: 64,
        delivery_ms: num(3.0),
        materialize_ms: num(1.0),
    })))
    .unwrap();
    assert_eq!(run.next(QUIET), ReceiverAction::DrainReady);
    assert_eq!(run.next(QUIET), ReceiverAction::RestUntilNextPoll);
    assert_eq!(run.next(QUIET), ReceiverAction::StartPoll);
    run.on_polled(Ok(Ok(ReceiverPopTaskResult::Eof { seq: 1, elapsed_ms: num(4.0) }))).unwrap();
    assert_eq!(run.next(ReceiverSignals { eof: true, ..QUIET }), ReceiverAction::Close);
    let result = run.into_result(&receive_request(), times());
    assert_eq!(result.delivered_count, 1);
    assert_eq!(result.delivered_bytes, 64);
    assert_eq!(result.eof_seq, Some(1));
    assert_eq!(result.eof_elapsed_ms, Some(num(4.0)));
    assert_eq!(result.delivery_latency.p50_ms, num(3.0));
    assert!(!result.timed_out && !result.cancelled);
}

#[test]
fn receivers_stop_at_the_deadline_or_when_cancelled() {
    let mut run = ReceiverRun::new(1, 1);
    run.next(QUIET);
    assert_eq!(
        run.next(ReceiverSignals { past_deadline: true, ..QUIET }),
        ReceiverAction::Close
    );
    let result = run.into_result(&receive_request(), times());
    assert!(result.timed_out);
    assert_eq!(result.failure_messages, vec!["receiver timed out before EOF".to_string()]);

    let mut run = ReceiverRun::new(1, 1);
    run.next(QUIET);
    run.next(QUIET);
    assert_eq!(run.next(QUIET), ReceiverAction::StartPoll);
    assert_eq!(run.next(QUIET), ReceiverAction::DrainReady);
    assert_eq!(
        run.next(ReceiverSignals { cancelled: true, ..QUIET }),
        ReceiverAction::DrainReady
    );
    assert_eq!(run.next(QUIET), ReceiverAction::JoinPoll);
    run.on_polled(Ok(Ok(ReceiverPopTaskResult::Empty))).unwrap();
    assert_eq!(run.next(QUIET), ReceiverAction::Close);
    let result = run.into_result(&receive_request(), times());
    assert!(result.cancelled);
    assert_eq!(result.empty_polls, 1);
    assert_eq!(result.failure_messages, vec!["receiver cancelled before EOF".to_string()]);
}

#[test]
fn receivers_wait_for_the_poll_that_met_the_end() {
    let mut run = ReceiverRun::new(1, 1);
    run.next(QUIET);
    run.next(QUIET);
    assert_eq!(run.next(QUIET), ReceiverAction::StartPoll);
    let at_end = ReceiverSignals { eof: true, past_deadline: true, cancelled: true };
    assert_eq!(run.next(at_end), ReceiverAction::DrainReady);
    assert_eq!(run.next(at_end), ReceiverAction::JoinPoll);
    run.on_polled(Ok(Ok(ReceiverPopTaskResult::Eof { seq: 7, elapsed_ms: num(4.0) }))).unwrap();
    assert_eq!(run.next(at_end), ReceiverAction::Close);
    let result = run.into_result(&receive_request(), times());
    assert!(!result.timed_out && !result.cancelled);
    assert_eq!(result.eof_seq, Some(7));
}

#[test]
fn receivers_keep_failures_and_give_up_on_broken_polls() {
    let mut run = ReceiverRun::new(2, 1);
    run.next(QUIET);
    run.next(QUIET);
    assert_eq!(run.next(QUIET), ReceiverAction::StartPoll);
    run.on_polled(Ok(Ok(ReceiverPopTaskResult::Elem { seq: 0, element: 1 }))).unwrap();
    run.start_materialize();
    run.on_materialized(Ok(Ok(ReceiverMaterializeTaskResult::Failure("bad file".to_string()))))
        .unwrap();
    assert_eq!(run.failure_messages, vec!["bad file".to_string()]);
    run.next(QUIET);
    run.next(QUIET);
    assert_eq!(run.next(QUIET), ReceiverAction::StartPoll);
    assert_eq!(run.on_polled(Ok(Err("broken".to_string()))).unwrap_err(), "broken");
}
