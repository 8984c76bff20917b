//! Pacing, latency summaries and throughput sweeps.
use lc_bench::binary64::Real;
use lc_bench::config::{
    BenchmarkConfig, CoordinationConfig, ExperimentSpec, LambdaChannelConfig, P2pConfig, RunConfig,
    ThroughputSweepConfig,
};
use lc_bench::latency::{sorted, LatencySummary};
use lc_bench::order::sort_order;
use lc_bench::paced::{
    build_report, check_collected, check_core, duration_since, failure_lines,
    highest_cpu_in_cpulist, last_completion, pacer_core, panicked, rate_ratio, run_times,
    validate_config, PacedTaskFailure, PacedTaskRunConfig, PacedTaskRunReport, PacedTaskSample,
    Pacer, PacerStep, RunFigures, Slots, TaskExecution,
};
use lc_bench::retry::{after_failure, RetryStep};
use lc_bench::sweep::{
    elements_for_rate, first_listed, next_climbing, next_listed, operations_for_rate, sweep_policy,
    target_rates, PointMetrics, SweepAction, SweepDecision, SweepStopReason, ThroughputSweepPolicy,
};

fn num(x: f64) -> Real {
    Real { bits: x.to_bits() }
}

fn reals(xs: &[f64]) -> Vec<Real> {
    xs.iter().map(|x| num(*x)).collect()
}

fn mean(xs: &[f64]) -> Real {
    if xs.is_empty() {
        num(0.0)
    } else {
        num(xs.iter().sum::<f64>() / xs.len() as f64)
    }
}

fn summarize(xs: &[f64]) -> LatencySummary {
    LatencySummary::from_samples(&reals(xs), mean(xs))
}

fn ms(ns: u64) -> f64 {
    ns as f64 / 1_000_000.0
}

/// Runs tasks of the given lengths on a clock of its own. Returns the report and the most tasks that
/// were in flight.
fn simulate(
    tasks: &[(u64, Option<&str>)],
    target_ops_per_s: f64,
    max_in_flight: usize,
) -> Result<(PacedTaskRunReport, usize), String> {
    validate_config(&PacedTaskRunConfig {
        target_ops_per_s: num(target_ops_per_s),
        max_in_flight,
        pacer_core_id: None,
    })?;
    let period_ns = (1e9 / target_ops_per_s) as u64;
    let mut pacer = Pacer::new(tasks.len(), period_ns, max_in_flight);
    let mut now: u64 = 0;
    let mut running: Vec<(u64, TaskExecution)> = Vec::new();
    let mut most: usize = 0;
    loop {
        match pacer.step(now) {
            PacerStep::Send { index, scheduled_at_ns } => {
                assert!(now >= scheduled_at_ns);
                assert_eq!(scheduled_at_ns, index as u64 * period_ns);
                let (length, failure) = tasks[index];
                let end = now + length;
                running.push((
                    end,
                    TaskExecution {
                        index,
                        scheduled_at_ns,
                        started_at_ns: now,
                        completed_at_ns: end,
                        failure: failure.map(|m| m.to_string()),
                    },
                ));
                most = most.max(running.len());
            }
            PacerStep::AwaitTime { until_ns } => now = until_ns,
            PacerStep::AwaitPlace | PacerStep::AllSent if !running.is_empty() => {
                let k = (0..running.len()).min_by_key(|i| running[*i].0).unwrap();
                let (end, execution) = running.remove(k);
                now = now.max(end);
                assert!(pacer.complete(execution));
            }
            _ => break,
        }
    }
    let executions = pacer.finish()?;
    let times = run_times(&executions);
    let samples: Vec<PacedTaskSample> = times
        .times
        .iter()
        .map(|t| PacedTaskSample {
            index: t.index,
            ok: t.ok,
            offered_latency_ms: num(ms(t.offered_ns)),
            service_latency_ms: num(ms(t.service_ns)),
            schedule_lag_ms: num(ms(t.lag_ns)),
        })
        .collect();
    let wall_ms = ms(last_completion(&executions));
    let rate = |n: usize| {
        if wall_ms <= 0.0 {
            num(0.0)
        } else {
            num(n as f64 / (wall_ms / 1000.0))
        }
    };
    let figures = RunFigures {
        target_ops_per_s: num(target_ops_per_s),
        achieved_ops_per_s: rate(samples.len()),
        successful_ops_per_s: rate(samples.len() - times.failures.len()),
        wall_time_ms: num(wall_ms),
        offered_mean_ms: num(0.0),
        service_mean_ms: num(0.0),
        lag_mean_ms: num(0.0),
    };
    Ok((build_report(tasks.len(), figures, samples, times.failures), most))
}

#[test]
fn summarizes_empty_samples() {
    let summary = summarize(&[]);

    assert_eq!(summary.count, 0);
    assert_eq!(summary.p99_ms, num(0.0));
}

#[test]
fn summarizes_with_nearest_rank_percentiles() {
    let summary = summarize(&[4.0, 1.0, 3.0, 2.0]);

    assert_eq!(summary.count, 4);
    assert_eq!(summary.min_ms, num(1.0));
    assert_eq!(summary.p50_ms, num(2.0));
    assert_eq!(summary.p90_ms, num(4.0));
    assert_eq!(summary.max_ms, num(4.0));
}

#[test]
fn summaries_ignore_the_order_of_samples() {
    let summary = |xs: &[f64]| LatencySummary::from_samples(&reals(xs), num(2.0));
    let base = summary(&[1.0, 2.0, 3.0, 2.0, 10.0]);
    assert_eq!(base, summary(&[10.0, 2.0, 2.0, 1.0, 3.0]));
    assert_eq!((base.min_ms, base.p50_ms, base.max_ms), (num(1.0), num(2.0), num(10.0)));
}

#[test]
fn summary_of_a_hundred_samples() {
    let xs: Vec<f64> = (1..=100).rev().map(|i| i as f64).collect();
    let summary = summarize(&xs);
    assert_eq!(summary.count, 100);
    assert_eq!(summary.mean_ms, num(50.5));
    assert_eq!(summary.p50_ms, num(50.0));
    assert_eq!(summary.p90_ms, num(90.0));
    assert_eq!(summary.p95_ms, num(95.0));
    assert_eq!(summary.p99_ms, num(99.0));
}

#[test]
fn samples_sort_as_numbers_do() {
    let xs = [3.5, -1.0, 0.0, f64::INFINITY, -7.25, 2.0];
    let mut expected = xs.to_vec();
    expected.sort_by(f64::total_cmp);
    assert_eq!(sorted(&reals(&xs)), reals(&expected));
    assert_eq!(sort_order(&vec![5, 1, 5, 0]), vec![3, 1, 0, 2]);
}

#[test]
fn rejects_invalid_config() {
    let err = simulate(&[], 0.0, 1).unwrap_err();

    assert!(err.contains("target_ops_per_s"));
}

#[test]
fn rejects_no_places_and_endless_rates() {
    assert_eq!(
        simulate(&[], 10.0, 0).unwrap_err(),
        "max_in_flight must be greater than zero"
    );
    assert_eq!(
        simulate(&[], f64::INFINITY, 1).unwrap_err(),
        "target_ops_per_s must be a finite positive number"
    );
}

#[test]
fn reports_successes_and_failures() {
    let tasks = [(1_000, None), (1_000, Some("boom")), (1_000, None)];

    let (report, _) = simulate(&tasks, 10_000.0, 2).unwrap();

    assert_eq!(report.total_tasks, 3);
    assert_eq!(report.completed_tasks, 3);
    assert_eq!(report.failed_tasks, 1);
    assert_eq!(report.failures[0].index, 1);
    assert_eq!(report.offered_latency.count, 3);
    assert!(f64::from_bits(report.achieved_ops_per_s.bits) > 0.0);
    assert!(report.has_failures());
    assert_eq!(failure_lines(&report.failures), vec!["index=1: boom".to_string()]);
    assert!(report.samples[0].ok && !report.samples[1].ok);
    assert_eq!(report.without_samples().samples.len(), 0);
}

#[test]
fn caps_max_in_flight_tasks() {
    let tasks = [(20_000_000, None); 5];

    let (report, max_seen) = simulate(&tasks, 1_000_000.0, 2).unwrap();

    assert_eq!(report.completed_tasks, 5);
    assert!(max_seen <= 2);
    assert_eq!(max_seen, 2);
}

#[test]
fn parses_highest_cpu_from_cpulist() {
    assert_eq!(highest_cpu_in_cpulist("0-3,8-11"), Some(11));
    assert_eq!(highest_cpu_in_cpulist("2,4,6-7"), Some(7));
    assert_eq!(highest_cpu_in_cpulist(""), None);
}

#[test]
fn pacer_core_is_configured_or_guessed() {
    assert_eq!(pacer_core(Some(3), &Some("5".to_string()), &None), Some(3));
    assert_eq!(pacer_core(None, &Some("5".to_string()), &None), Some(5));
    assert_eq!(
        pacer_core(None, &Some("five".to_string()), &Some(" 0-7\n".to_string())),
        Some(7)
    );
    assert_eq!(pacer_core(None, &None, &None), None);
    assert!(check_core(1023, 1024).is_ok());
    assert!(check_core(1024, 1024).is_err());
}

#[test]
fn pacer_waits_for_a_place_and_for_the_time() {
    let mut pacer = Pacer::new(3, 100, 1);
    assert_eq!(pacer.step(0), PacerStep::Send { index: 0, scheduled_at_ns: 0 });
    assert_eq!(pacer.step(500), PacerStep::AwaitPlace);
    let execution = TaskExecution {
        index: 0,
        scheduled_at_ns: 0,
        started_at_ns: 0,
        completed_at_ns: 50,
        failure: None,
    };
    assert!(pacer.complete(execution));
    assert_eq!(pacer.step(50), PacerStep::AwaitTime { until_ns: 100 });
    assert_eq!(pacer.step(130), PacerStep::Send { index: 1, scheduled_at_ns: 100 });
    assert_eq!(
        pacer.finish().unwrap_err(),
        "paced run collected 1 of 3 task results"
    );
}

#[test]
fn slots_never_exceed_their_limit() {
    let mut slots = Slots::new(2);
    assert!(!slots.release());
    assert!(slots.try_acquire() && slots.try_acquire());
    assert!(slots.is_full());
    assert!(!slots.try_acquire());
    assert!(slots.release());
    assert!(!slots.is_full());
}

#[test]
fn executions_are_reported_by_index() {
    let execution = |index: usize, failure: Option<&str>| TaskExecution {
        index,
        scheduled_at_ns: 100,
        started_at_ns: 130,
        completed_at_ns: 170 + index as u64,
        failure: failure.map(|m| m.to_string()),
    };
    let executions = vec![execution(2, Some("late")), execution(0, None), execution(1, None)];
    let times = run_times(&executions);
    let indices: Vec<usize> = times.times.iter().map(|t| t.index).collect();
    assert_eq!(indices, vec![0, 1, 2]);
    assert_eq!(times.times[2].offered_ns, 72);
    assert_eq!(times.times[2].service_ns, 42);
    assert_eq!(times.times[2].lag_ns, 30);
    assert_eq!(times.failures[0].index, 2);
    assert_eq!(last_completion(&executions), 172);
    assert_eq!(duration_since(5, 9), 0);
}

#[test]
fn incomplete_runs_and_panics_are_told() {
    assert!(check_collected(3, 3).is_ok());
    assert_eq!(
        check_collected(2, 3).unwrap_err(),
        "paced run collected 2 of 3 task results"
    );
    assert_eq!(
        panicked("paced task", &Some("oops".to_string())),
        "paced task panicked: oops"
    );
    assert_eq!(panicked("pacer thread", &None), "pacer thread panicked: unknown panic payload");
}

#[test]
fn only_the_first_failures_are_shown() {
    let failures: Vec<PacedTaskFailure> = (0..20)
        .map(|i| PacedTaskFailure { index: i, message: "m".to_string() })
        .collect();
    let lines = failure_lines(&failures);
    assert_eq!(lines.len(), 16);
    assert_eq!(lines[15], "index=15: m");
}

fn report(target: f64, achieved: f64, failed_tasks: usize) -> PacedTaskRunReport {
    report_with_success(target, achieved, achieved, failed_tasks)
}

fn report_with_success(
    target: f64,
    achieved: f64,
    successful: f64,
    failed_tasks: usize,
) -> PacedTaskRunReport {
    PacedTaskRunReport {
        target_ops_per_s: num(target),
        achieved_ops_per_s: num(achieved),
        successful_ops_per_s: num(successful),
        total_tasks: 10,
        completed_tasks: 10,
        failed_tasks,
        wall_time_ms: num(10.0),
        offered_latency: LatencySummary::default(),
        service_latency: LatencySummary::default(),
        schedule_lag: LatencySummary::default(),
        samples: Vec::new(),
        failures: Vec::new(),
    }
}

fn decide(policy: &ThroughputSweepPolicy, done: usize, r: &PacedTaskRunReport) -> SweepDecision {
    let target = f64::from_bits(r.target_ops_per_s.bits);
    let successful = f64::from_bits(r.successful_ops_per_s.bits);
    let step = f64::from_bits(policy.step_multiplier.bits);
    let quotient = num(successful / target);
    policy.decide_after(
        done,
        r,
        rate_ratio(r.successful_ops_per_s, r.target_ops_per_s, quotient),
        num(target * step),
    )
}

#[test]
fn continues_with_multiplier_before_saturation() {
    let policy = ThroughputSweepPolicy::paper_default(Some(num(100.0)));
    let decision = decide(&policy, 1, &report(100.0, 95.0, 0));

    assert_eq!(decision, SweepDecision::Continue { next_ops_per_s: num(200.0) });
}

#[test]
fn stops_when_achieved_ratio_is_low() {
    let policy = ThroughputSweepPolicy::paper_default(Some(num(100.0)));
    let decision = decide(&policy, 1, &report(100.0, 40.0, 0));

    assert_eq!(decision, SweepDecision::Stop { reason: SweepStopReason::Saturated });
}

#[test]
fn stops_when_successful_ratio_is_low_even_if_achieved_is_high() {
    let policy = ThroughputSweepPolicy::paper_default(Some(num(100.0)));
    let decision = decide(&policy, 1, &report_with_success(100.0, 90.0, 40.0, 2));

    assert_eq!(decision, SweepDecision::Stop { reason: SweepStopReason::Saturated });
}

#[test]
fn continues_above_half_target() {
    let policy = ThroughputSweepPolicy::paper_default(Some(num(100.0)));
    let decision = decide(&policy, 1, &report(100.0, 80.0, 0));

    assert_eq!(decision, SweepDecision::Continue { next_ops_per_s: num(200.0) });
}

#[test]
fn continues_on_failures_by_default() {
    let policy = ThroughputSweepPolicy::paper_default(Some(num(100.0)));
    let decision = decide(&policy, 1, &report(100.0, 100.0, 1));

    assert_eq!(decision, SweepDecision::Continue { next_ops_per_s: num(200.0) });
}

#[test]
fn stops_on_failures_when_enabled() {
    let mut policy = ThroughputSweepPolicy::paper_default(Some(num(100.0)));
    policy.stop_on_failure = true;
    let decision = decide(&policy, 1, &report(100.0, 100.0, 1));

    assert_eq!(decision, SweepDecision::Stop { reason: SweepStopReason::FailedTasks });
}

#[test]
fn stops_at_the_limits_of_the_policy() {
    let mut policy = ThroughputSweepPolicy::paper_default(Some(num(100.0)));
    policy.max_points = 3;
    assert_eq!(
        decide(&policy, 3, &report(100.0, 100.0, 0)),
        SweepDecision::Stop { reason: SweepStopReason::MaxPoints }
    );
    policy.max_ops_per_s = num(150.0);
    assert_eq!(
        decide(&policy, 1, &report(100.0, 100.0, 0)),
        SweepDecision::Stop { reason: SweepStopReason::MaxOpsPerS }
    );
}

#[test]
fn policies_are_checked() {
    let good = ThroughputSweepPolicy::paper_default(None);
    assert!(good.validate().is_ok());
    assert!(ThroughputSweepPolicy { start_ops_per_s: num(0.0), ..good }.validate().is_err());
    assert!(ThroughputSweepPolicy { step_multiplier: num(1.0), ..good }.validate().is_err());
    assert!(ThroughputSweepPolicy { max_ops_per_s: num(f64::NAN), ..good }.validate().is_err());
    assert!(ThroughputSweepPolicy { max_points: 0, ..good }.validate().is_err());
    assert!(ThroughputSweepPolicy { saturation_achieved_ratio: num(1.5), ..good }
        .validate()
        .is_err());
}

#[test]
fn ratios_need_sound_rates() {
    assert_eq!(rate_ratio(num(50.0), num(100.0), num(0.5)), num(0.5));
    assert_eq!(rate_ratio(num(50.0), num(0.0), num(f64::INFINITY)), num(0.0));
    assert_eq!(rate_ratio(num(f64::NAN), num(1.0), num(f64::NAN)), num(0.0));
}

fn experiment() -> ExperimentSpec {
    ExperimentSpec {
        run: RunConfig {
            run_id: "run-1".to_string(),
            workload: "metadata.append".to_string(),
            description: String::new(),
            output_dir: "out".to_string(),
            seed: 0,
        },
        coordination: CoordinationConfig {
            rpc_timeout_ms: 1,
            barrier_timeout_ms: 1,
            cleanup_timeout_ms: 1,
            force_reset_on_start: true,
        },
        benchmark: BenchmarkConfig {
            backend: "p2p".to_string(),
            operations: 10,
            concurrency: 2,
            object_size_bytes: 1024,
            warmup_operations: 0,
            duration_seconds: None,
            offered_rate_per_s: None,
            repetitions: 1,
        },
        throughput_sweep: ThroughputSweepConfig::default(),
        lambda_channel: LambdaChannelConfig {
            metadata_backend: "dynamodb".to_string(),
            channel_id_prefix: "bench".to_string(),
            consume_mode: "fanout".to_string(),
            native_worker_threads: None,
            min_elements_per_datapoint: None,
            max_elements_per_datapoint: None,
        },
        p2p: P2pConfig {
            tracker_backend: "dynamodb".to_string(),
            cache_root: "cache".to_string(),
            chunk_server_bind_host: "0.0.0.0".to_string(),
            chunk_server_port_base: 18080,
            chunk_server_runtime_worker_threads: 4,
            enable_accel: true,
            accel_probability: None,
            persist_backend: None,
            non_abortable_task_workers: 16,
        },
        participants: Vec::new(),
        env: Vec::new(),
    }
}

#[test]
fn policy_of_an_experiment() {
    let mut e = experiment();
    let policy = sweep_policy(&e).unwrap();
    assert_eq!(policy.start_ops_per_s, num(100.0));
    assert_eq!(policy.step_multiplier, num(2.0));
    assert_eq!(policy.saturation_achieved_ratio, num(0.5));
    assert!(!policy.stop_on_failure);
    e.throughput_sweep.step_multiplier = Some(num(1.5));
    e.throughput_sweep.max_points = Some(4);
    let policy = sweep_policy(&e).unwrap();
    assert_eq!(policy.step_multiplier, num(1.5));
    assert_eq!(policy.max_points, 4);
}

#[test]
fn rates_are_listed_or_climb() {
    let mut e = experiment();
    let policy = sweep_policy(&e).unwrap();
    let ladder = reals(&[100.0, 200.0, 400.0]);
    assert_eq!(target_rates(&e, &policy, &ladder, "none").unwrap(), ladder);
    let narrow = ThroughputSweepPolicy { max_ops_per_s: num(250.0), ..policy };
    assert_eq!(
        target_rates(&e, &narrow, &ladder, "none").unwrap(),
        reals(&[100.0, 200.0])
    );
    let low = ThroughputSweepPolicy { max_ops_per_s: num(50.0), ..policy };
    assert_eq!(target_rates(&e, &low, &ladder, "none").unwrap_err(), "none");
    e.benchmark.offered_rate_per_s = Some(num(7.0));
    assert_eq!(target_rates(&e, &policy, &ladder, "none").unwrap(), reals(&[7.0]));
    e.throughput_sweep.points_ops_per_s = reals(&[3.0, 1.0]);
    assert_eq!(target_rates(&e, &policy, &ladder, "none").unwrap(), reals(&[3.0, 1.0]));
}

#[test]
fn operations_follow_from_rate_and_duration() {
    assert_eq!(operations_for_rate(num(2.5), num(13.0)).unwrap(), 13);
    assert_eq!(operations_for_rate(num(0.001), num(0.0)).unwrap(), 1);
    assert_eq!(
        operations_for_rate(num(-1.0), num(1.0)).unwrap_err(),
        "target rate must be a finite positive number"
    );
    assert_eq!(
        operations_for_rate(num(1e30), num(1e30)).unwrap_err(),
        "rate * duration is too large for this platform"
    );
    let low = num(10.0);
    let high = num(20.0);
    assert_eq!(elements_for_rate(num(1.0), num(5.0), low, high).unwrap(), 10);
    assert_eq!(elements_for_rate(num(1.0), num(15.0), low, high).unwrap(), 15);
    assert_eq!(elements_for_rate(num(1.0), num(50.0), low, high).unwrap(), 20);
    assert_eq!(
        elements_for_rate(num(0.0), num(50.0), low, high).unwrap_err(),
        "target sender rate must be a finite positive number"
    );
}

#[test]
fn operations_for_a_target() {
    let mut b = experiment().benchmark;
    assert_eq!(b.operations_for_target(num(5.0), num(50.0), "10", "5").unwrap(), 10);
    b.duration_seconds = Some(num(10.0));
    assert_eq!(b.operations_for_target(num(5.0), num(50.0), "10", "5").unwrap(), 50);
    assert_eq!(
        b.operations_for_target(num(0.0), num(0.0), "10", "0").unwrap_err(),
        "target_ops_per_s must be a finite positive number"
    );
    assert_eq!(
        b.operations_for_target(num(5.0), num(f64::INFINITY), "10", "5").unwrap_err(),
        "duration-based operations must be a finite positive number"
    );
    assert_eq!(
        b.operations_for_target(num(1e20), num(1e21), "10", "1e20").unwrap_err(),
        "duration_seconds=10 at target_ops_per_s=1e20 produces too many operations"
    );
}

#[test]
fn listed_sweeps_start_with_the_first_rate() {
    let first = first_listed(&reals(&[5.0, 7.0]));
    assert!(matches!(first, SweepAction::RunPoint { index: 0, ops_per_s } if ops_per_s == num(5.0)));
    let none = first_listed(&Vec::new());
    assert!(matches!(none, SweepAction::Finish { reason: SweepStopReason::MaxPoints }));
}

#[test]
fn sweeps_go_on_or_finish() {
    let policy = ThroughputSweepPolicy::paper_default(Some(num(100.0)));
    let fine = PointMetrics {
        target_ops_per_s: num(100.0),
        successful_ratio: num(1.0),
        next_ops_per_s: num(200.0),
        failed_tasks: 0,
    };
    assert_eq!(
        next_climbing(&policy, 1, fine),
        SweepAction::RunPoint { index: 1, ops_per_s: num(200.0) }
    );
    let rates = reals(&[100.0, 150.0]);
    assert_eq!(
        next_listed(&policy, &rates, 1, fine, false),
        SweepAction::RunPoint { index: 1, ops_per_s: num(150.0) }
    );
    assert_eq!(
        next_listed(&policy, &rates, 2, fine, false),
        SweepAction::Finish { reason: SweepStopReason::MaxPoints }
    );
    assert_eq!(
        next_listed(&policy, &rates, 1, fine, true),
        SweepAction::Finish { reason: SweepStopReason::Saturated }
    );
}

#[test]
fn retries_double_their_pause() {
    assert_eq!(after_failure(1, 5, 50), RetryStep::Sleep { ms: 50 });
    assert_eq!(after_failure(2, 5, 50), RetryStep::Sleep { ms: 100 });
    assert_eq!(after_failure(4, 5, 50), RetryStep::Sleep { ms: 400 });
    assert_eq!(after_failure(5, 5, 50), RetryStep::GiveUp);
}

#[test]
fn reals_behave_like_floats() {
    let xs = [0.0, -0.0, 1.0, 1.5, -2.0, 1e300, f64::INFINITY, f64::NAN, 12345.9];
    for a in xs {
        let x = num(a);
        assert_eq!(x.is_nan(), a.is_nan());
        assert_eq!(x.is_finite(), a.is_finite());
        assert_eq!(x.is_positive(), a.is_finite() && a > 0.0);
        assert_eq!(x.to_u64(), a as u64);
        for b in xs {
            assert_eq!(x.lt(num(b)), a < b);
            assert_eq!(x.le(num(b)), a <= b);
        }
    }
}
