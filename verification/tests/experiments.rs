//! The experiments: who takes part, what is asked of whom, and what it comes to.
use lc_bench::binary64::Real;
use lc_bench::blob_sweep::{
    accept_blob_get, aggregate_getters, append_request, begin_request, blob_get_response,
    check_blob_get, check_dealt, check_putter, chunk_count, direct_get_request, direct_put_request,
    even_distribution, force_reset_here,
    future_start_unix_ns, getter_plan_id, getter_setup, materialize_line, materialize_request,
    operations_of_all, plain_store_request, preload_put_concurrency, preload_request,
    round_robin_refs, store_request, worker_id, BlobGetStep, GetterFigures, GetterKind,
    GetterReport, MultiStep, PutterReport, SingleStep, REF_CHUNK_SIZE,
};
use lc_bench::channel_sweep::{
    aggregate_receivers, channel_id, channel_setup, cleanup_targets, cleanup_timeout_ms,
    consume_mode, datapoint_element_bounds, expected_receiver_ops_per_s, receiver_extremes,
    receiver_poll_concurrency, receiver_poll_target_ops_per_s, receiver_request, receiver_totals,
    send_request, sender_failed, sender_limited, sender_request, start_receiver_request,
    ChannelStep, CleanupOutcome, FailureLog, ReceiverFigures, ReceiverReport,
};
use lc_bench::config::{
    BenchmarkConfig, CoordinationConfig, Entry, ExperimentSpec, InstanceConfig, InstancesConfig,
    LambdaChannelConfig, P2pConfig, ParticipantConfig, RegistryConfig, RunConfig,
    ThroughputSweepConfig,
};
use lc_bench::dispatch::{
    blob_runner, check_channel_workload, dispatch, BlobRunner, Family,
};
use lc_bench::latency::LatencySummary;
use lc_bench::metadata_sweep::{
    append_counters, channel_id as metadata_channel_id, claim_consumer, claim_counters,
    claim_plan, ensure_dynamodb_backend, i64_from_usize, metadata_counts, metadata_outcome,
    preload_limit, sanitize_identifier, scan_counters, scan_plan, seq_at, task_seqs,
    unique_resource_id, usize_from_u64, ClaimCounters, ClaimOutcome, MetadataCounts,
    MetadataWorkload, Preload, PreloadStep,
};
use lc_bench::native::{Json, JsonNumber};
use lc_bench::paced::{PacedTaskFailure, PacedTaskRunReport, PacedTaskSample};
use lc_bench::participants::{follower_ids, lead_id, Role};
use lc_bench::protocol::{
    AcceptedResponse, BlobGetResult, BlobPutResult, ChannelReceiverResult,
    ChannelReceiverSamplesChunkResponse, ChannelSendResult, PacedBlobGetResult,
    PollRequestResponse, RequestResult, RequestStatus,
};
use lc_bench::put_sweep::{
    aws_error_is_missing, cleanup_outcome, next_page, put_counts, put_outcome, put_total_bytes,
    with_followup_errors, CleanupAction, CleanupResource, PutWorkload,
};
use lc_bench::targets::{
    accept_poll, after_ready_poll, after_result_poll, expect_blob_get, expect_blob_put,
    first_participant_id, is_transient_poll_error, participant_by_label, req_id, route, rpc_failed,
    SampleFetch, RECEIVER_SAMPLE_CHUNK_SIZE,
};

fn num(x: f64) -> Real {
    Real { bits: x.to_bits() }
}

fn reals(xs: &[f64]) -> Vec<Real> {
    xs.iter().map(|x| num(*x)).collect()
}

fn whole(n: i64) -> Json {
    Json::Number(JsonNumber::Int(n))
}

fn experiment(workload: &str, participants: &[(&str, Option<&str>)]) -> ExperimentSpec {
    ExperimentSpec {
        run: RunConfig {
            run_id: "run 1".to_string(),
            workload: workload.to_string(),
            description: String::new(),
            output_dir: "out".to_string(),
            seed: 3,
        },
        coordination: CoordinationConfig {
            rpc_timeout_ms: 10,
            barrier_timeout_ms: 20,
            cleanup_timeout_ms: 30,
            force_reset_on_start: true,
        },
        benchmark: BenchmarkConfig {
            backend: " P2P ".to_string(),
            operations: 10,
            concurrency: 2,
            object_size_bytes: 1024,
            warmup_operations: 4,
            duration_seconds: Some(num(2.0)),
            offered_rate_per_s: None,
            repetitions: 1,
        },
        throughput_sweep: ThroughputSweepConfig::default(),
        lambda_channel: LambdaChannelConfig {
            metadata_backend: "dynamodb".to_string(),
            channel_id_prefix: "my bench".to_string(),
            consume_mode: "fanout".to_string(),
            native_worker_threads: None,
            min_elements_per_datapoint: None,
            max_elements_per_datapoint: None,
        },
        p2p: P2pConfig {
            tracker_backend: "dynamodb".to_string(),
            cache_root: "cache".to_string(),
            chunk_server_bind_host: "0.0.0.0".to_string(),
            chunk_server_port_base: 18080,
            chunk_server_runtime_worker_threads: 4,
            enable_accel: true,
            accel_probability: None,
            persist_backend: None,
            non_abortable_task_workers: 16,
        },
        participants: participants
            .iter()
            .map(|(id, label)| ParticipantConfig {
                instance_id: id.to_string(),
                label: label.map(|l| l.to_string()),
            })
            .collect(),
        env: Vec::new(),
    }
}

fn with_env(mut e: ExperimentSpec, key: &str, value: &str) -> ExperimentSpec {
    e.env.push(Entry { key: key.to_string(), value: value.to_string() });
    e
}

fn instance(id: &str) -> InstanceConfig {
    InstanceConfig {
        id: id.to_string(),
        rpc_addr: format!("{id}:19000"),
        rpc_listen_addr: None,
        p2p_advertise_endpoint: format!("http://{id}:18080"),
        work_dir: ".bench".to_string(),
        capabilities: Vec::new(),
        labels: Vec::new(),
    }
}

fn inventory(ids: &[&str]) -> InstancesConfig {
    InstancesConfig {
        registry: RegistryConfig { name: "reg".to_string(), description: String::new() },
        instances: ids.iter().map(|id| instance(id)).collect(),
    }
}

fn paced(samples: &[f64], failed: usize) -> PacedTaskRunReport {
    PacedTaskRunReport {
        target_ops_per_s: num(10.0),
        achieved_ops_per_s: num(9.0),
        successful_ops_per_s: num(8.0),
        total_tasks: samples.len(),
        completed_tasks: samples.len(),
        failed_tasks: failed,
        wall_time_ms: num(samples.len() as f64),
        offered_latency: LatencySummary::default(),
        service_latency: LatencySummary::default(),
        schedule_lag: LatencySummary::default(),
        samples: samples
            .iter()
            .enumerate()
            .map(|(i, x)| PacedTaskSample {
                index: i,
                ok: true,
                offered_latency_ms: num(*x),
                service_latency_ms: num(*x),
                schedule_lag_ms: num(0.0),
            })
            .collect(),
        failures: (0..failed)
            .map(|i| PacedTaskFailure { index: i, message: "boom".to_string() })
            .collect(),
    }
}

#[test]
fn experiments_go_to_their_family() {
    let two = inventory(&["a", "b"]);
    let family = |w: &str| dispatch(&experiment(w, &[("a", None)]), &two);
    assert_eq!(family("blob.put.s3").unwrap(), Family::Blob);
    assert_eq!(family("metadata.append").unwrap(), Family::Metadata);
    assert_eq!(
        family("channel.single_sender_multi_receiver").unwrap(),
        Family::Channel
    );
    assert_eq!(
        family("other").unwrap_err(),
        "no direct experiment runner is registered for workload other"
    );
    assert_eq!(
        dispatch(&experiment("blob.x", &[("z", None)]), &two).unwrap_err(),
        "participant references unknown instance id: z"
    );
    assert_eq!(blob_runner("blob.put.p2p").unwrap(), BlobRunner::Put);
    assert_eq!(blob_runner("blob.p2p_local_hit").unwrap(), BlobRunner::GetMaterialize);
    assert_eq!(blob_runner("blob.p2p_peer_fetch").unwrap(), BlobRunner::P2pPeerFetch);
    assert_eq!(blob_runner("blob.multi_getter").unwrap(), BlobRunner::MultiGetter);
    assert_eq!(
        blob_runner("blob.persist_upload").unwrap_err(),
        "blob.persist_upload direct orchestration is not implemented yet; add persist/cache reset primitives first"
    );
    assert!(blob_runner("blob.other").is_err());
    assert!(check_channel_workload("channel.single_sender_multi_receiver").is_ok());
    assert_eq!(
        check_channel_workload("channel.x").unwrap_err(),
        "no direct channel experiment runner is registered for workload channel.x"
    );
}

#[test]
fn leaders_and_followers_are_found() {
    let e = experiment(
        "channel.x",
        &[("a", Some("receiver")), ("b", Some("sender")), ("c", Some("receiver"))],
    );
    assert_eq!(lead_id(&e.participants, Role::Sender).as_deref(), Some("b"));
    assert_eq!(follower_ids(&e.participants, Role::Receiver, "b"), vec!["a", "c"]);
    let plain = experiment("channel.x", &[("a", None), ("b", None), ("c", None)]);
    assert_eq!(lead_id(&plain.participants, Role::Sender).as_deref(), Some("a"));
    assert_eq!(follower_ids(&plain.participants, Role::Receiver, "a"), vec!["b", "c"]);
    assert_eq!(lead_id(&Vec::new(), Role::Source), None);
    assert_eq!(participant_by_label(&e, "sender").as_deref(), Some("b"));
    assert_eq!(participant_by_label(&e, "nobody"), None);
    assert_eq!(first_participant_id(&e).as_deref(), Some("a"));
}

#[test]
fn channel_experiments_are_set_up() {
    let e = experiment(
        "channel.single_sender_multi_receiver",
        &[("a", Some("sender")), ("b", Some("receiver"))],
    );
    let setup = channel_setup(&e, &reals(&[100.0, 200.0])).unwrap();
    assert_eq!(setup.backend, "p2p");
    assert_eq!(setup.consume_mode, "fanout");
    assert_eq!(setup.sender_id, "a");
    assert_eq!(setup.receiver_ids, vec!["b"]);
    assert_eq!(setup.rates, reals(&[100.0, 200.0]));
    assert_eq!(cleanup_targets(&setup), vec!["a", "b"]);
    let mut bad = e.clone();
    bad.benchmark.backend = "local-file".to_string();
    assert_eq!(
        channel_setup(&bad, &Vec::new()).unwrap_err(),
        "channel.single_sender_multi_receiver requires benchmark.backend = s3 or p2p"
    );
    let mut bad = e.clone();
    bad.lambda_channel.metadata_backend = "inmemory".to_string();
    assert!(channel_setup(&bad, &Vec::new()).unwrap_err().contains("formal runs require"));
    let mut bad = e.clone();
    bad.benchmark.duration_seconds = None;
    assert_eq!(
        channel_setup(&bad, &reals(&[1.0])).unwrap_err(),
        "channel.single_sender_multi_receiver requires benchmark.duration_seconds"
    );
    let mut bad = e.clone();
    bad.participants.truncate(1);
    assert_eq!(
        channel_setup(&bad, &reals(&[1.0])).unwrap_err(),
        "channel.single_sender_multi_receiver requires at least one receiver"
    );
    assert_eq!(
        channel_setup(&e, &Vec::new()).unwrap_err(),
        "channel throughput sweep generated no target rates"
    );
}

#[test]
fn channel_settings_are_checked() {
    let mut e = experiment("channel.x", &[]);
    assert_eq!(consume_mode(&e).unwrap(), "fanout");
    e.lambda_channel.consume_mode = "both".to_string();
    assert_eq!(consume_mode(&e).unwrap_err(), "unsupported channel consume_mode: both");
    let bounds = datapoint_element_bounds(&e).unwrap();
    assert_eq!(bounds.max, usize::MAX);
    e.lambda_channel.min_elements_per_datapoint = Some(5);
    e.lambda_channel.max_elements_per_datapoint = Some(4);
    assert_eq!(
        datapoint_element_bounds(&e).unwrap_err(),
        "channel datapoint min elements must be <= max elements"
    );
    e.lambda_channel.max_elements_per_datapoint = Some(0);
    assert_eq!(
        datapoint_element_bounds(&e).unwrap_err(),
        "channel datapoint element bounds must be greater than zero"
    );
}

#[test]
fn channel_rates_depend_on_the_mode() {
    let a = num(1.0);
    let b = num(2.0);
    assert_eq!(expected_receiver_ops_per_s("fanout", a, b), b);
    assert_eq!(expected_receiver_ops_per_s("competitive", a, b), a);
    assert_eq!(receiver_poll_target_ops_per_s("fanout", a, b), a);
    assert_eq!(receiver_poll_target_ops_per_s("competitive", a, b), b);
    assert_eq!(receiver_poll_concurrency("competitive", 8), 1);
    assert_eq!(receiver_poll_concurrency("fanout", 8), 8);
    assert_eq!(receiver_poll_concurrency("fanout", 0), 1);
    let setup = channel_setup(
        &experiment("channel.x", &[("a", None), ("b", None)]),
        &reals(&[100.0]),
    )
    .unwrap();
    assert_eq!(sender_limited(num(10.0), num(0.4), &setup.policy), (num(0.4), true));
    assert_eq!(sender_limited(num(10.0), num(0.9), &setup.policy), (num(0.9), false));
    assert_eq!(sender_limited(num(0.0), num(0.9), &setup.policy), (num(0.0), true));
}

#[test]
fn channel_steps_follow_one_another() {
    let mut step = ChannelStep::BeginSender;
    let mut seen = 0;
    while step != ChannelStep::Report {
        step = step.following(2, true);
        seen += 1;
        assert!(seen < 100);
    }
    assert_eq!(ChannelStep::Send.following(2, true), ChannelStep::CancelReceivers);
    assert_eq!(ChannelStep::Send.following(2, false), ChannelStep::FinishReceivers);
    assert!(ChannelStep::InitSender.is_fatal());
    assert!(!ChannelStep::CleanUp.is_fatal());
}

#[test]
fn channel_requests_carry_the_experiment() {
    let e = experiment("channel.x", &[]);
    let id = channel_id(&e, "res");
    assert_eq!(id, "my-bench-res");
    let sender = sender_request(e.clone(), "p2p", &id, "res");
    assert!(sender.force_reinit && sender.create_remote_resources && !sender.reopen);
    assert_eq!(sender.metadata_backend.as_deref(), Some("dynamodb"));
    let receiver = receiver_request(e.clone(), "p2p", "fanout", &id, "b", "res");
    assert_eq!(receiver.consumer_id, "b-res");
    assert!(!receiver.create_remote_resources);
    let start = start_receiver_request(&e, "fanout", "b", num(5.0), 77);
    assert_eq!(start.poll_concurrency, 2);
    assert_eq!(start.max_runtime_ms, Some(77));
    let send = send_request(&e, 9, num(5.0));
    assert_eq!(send.count, 9);
    assert_eq!(send.payload_strategy, "prestage-patch");
    assert_eq!(cleanup_timeout_ms(&e), 30);
}

fn received(count: usize, start: u64, end: u64) -> ChannelReceiverResult {
    ChannelReceiverResult {
        delivered_count: count,
        delivered_bytes: 10 * count as u64,
        empty_polls: 0,
        transient_poll_errors: 0,
        timed_out: false,
        cancelled: false,
        eof_seq: Some(1),
        eof_elapsed_ms: Some(num(count as f64)),
        elapsed_ms: num(1.0),
        started_unix_ns: start,
        finished_unix_ns: end,
        materialized_dir: "d".to_string(),
        poll_target_ops_per_s: num(1.0),
        poll_concurrency: 1,
        materialize_concurrency: 1,
        delivery_latency: LatencySummary::default(),
        materialize_latency: LatencySummary::default(),
        delivery_latency_samples_ms: (0..count).map(|i| num(i as f64)).collect(),
        materialize_latency_samples_ms: (0..count).map(|_| num(1.0)).collect(),
        failure_messages: vec!["late".to_string()],
    }
}

fn sent(failed: usize, messages: &[&str]) -> ChannelSendResult {
    ChannelSendResult {
        sent_count: 3,
        total_bytes: 30,
        close_elapsed_ms: num(1.0),
        prestage_payload_ms: num(1.0),
        payload_strategy: "prestage-patch".to_string(),
        payload_dir: "p".to_string(),
        paced: paced(&[1.0, 2.0, 3.0], failed),
        failure_messages: messages.iter().map(|m| m.to_string()).collect(),
    }
}

#[test]
fn receivers_are_added_up() {
    let receivers = vec![
        ReceiverReport::from_result("b", received(2, 100, 300), num(2.0), num(20.0)),
        ReceiverReport::from_result("c", received(3, 50, 200), num(3.0), num(30.0)),
    ];
    let mut log = FailureLog::new();
    log.receiver("d", "gone");
    log.sender(&sent(1, &["index=0: boom"]));
    log.cleanup("a", &CleanupOutcome::TimedOut, 30);
    log.cleanup("b", &CleanupOutcome::Failed("no".to_string()), 30);
    log.cleanup("c", &CleanupOutcome::Done, 30);
    let totals = receiver_totals(&receivers, log);
    assert_eq!(totals.delivered_count, 5);
    assert_eq!(totals.delivered_bytes, 50);
    assert_eq!(totals.wall_ns, 250);
    assert_eq!(totals.delivery.len(), 5);
    assert_eq!(
        totals.failure_messages,
        vec![
            "d: gone",
            "sender: index=0: boom",
            "cleanup a: timed out after 30 ms",
            "cleanup b: no",
            "b: late",
            "c: late",
        ]
    );
    let aggregate = aggregate_receivers(
        totals,
        ReceiverFigures {
            expected_ops_per_s: num(10.0),
            delivered_ops_per_s: num(5.0),
            wall_time_ms: num(0.00025),
            delivery_mean_ms: num(0.8),
            materialize_mean_ms: num(1.0),
        },
    );
    assert_eq!(aggregate.paced.total_tasks, 5);
    assert_eq!(aggregate.paced.failed_tasks, 6);
    assert_eq!(aggregate.delivery_latency.max_ms, num(2.0));
    let extremes = receiver_extremes(&receivers);
    assert_eq!((extremes.min_count, extremes.max_count), (2, 3));
    assert_eq!(extremes.min_ops_per_s, num(2.0));
    assert_eq!(extremes.eof_ms, Some((num(2.0), num(3.0))));
    assert!(sender_failed(&sent(1, &[])) && sender_failed(&sent(0, &["x"])));
    assert!(!sender_failed(&sent(0, &[])));
}

#[test]
fn getter_experiments_are_set_up() {
    let e = experiment("blob.multi_getter", &[("a", Some("source")), ("b", Some("getter"))]);
    let setup = getter_setup(GetterKind::Multi, &e, &reals(&[100.0])).unwrap();
    assert_eq!(setup.lead_id, "a");
    assert_eq!(setup.follower_ids, vec!["b"]);
    let single = experiment("blob.single_getter", &[("a", Some("getter")), ("b", Some("putter"))]);
    let setup = getter_setup(GetterKind::Single, &single, &reals(&[100.0])).unwrap();
    assert_eq!(setup.lead_id, "a");
    assert_eq!(setup.follower_ids, vec!["b"]);
    let mut bad = e.clone();
    bad.p2p.tracker_backend = "other".to_string();
    assert_eq!(
        getter_setup(GetterKind::Multi, &bad, &reals(&[1.0])).unwrap_err(),
        "blob.multi_getter p2p requires p2p.tracker_backend = dynamodb"
    );
    let mut bad = e.clone();
    bad.participants.truncate(1);
    assert_eq!(
        getter_setup(GetterKind::Multi, &bad, &reals(&[1.0])).unwrap_err(),
        "blob.multi_getter requires at least one getter participant"
    );
    assert!(preload_put_concurrency(GetterKind::Multi, &e).unwrap() > 0);
    let set = with_env(e.clone(), "LC_BENCH_BLOB_MULTI_GETTER_PRELOAD_CONCURRENCY", "5");
    assert_eq!(preload_put_concurrency(GetterKind::Multi, &set).unwrap(), 5);
    let zero = with_env(e, "LC_BENCH_BLOB_MULTI_GETTER_PRELOAD_CONCURRENCY", "0");
    assert!(preload_put_concurrency(GetterKind::Multi, &zero).is_err());
}

#[test]
fn references_are_shared_evenly_and_dealt_in_turn() {
    assert_eq!(even_distribution(10, 3), vec![4, 3, 3]);
    assert_eq!(even_distribution(2, 3), vec![1, 1, 0]);
    let lists = vec![vec![whole(1), whole(4)], vec![whole(2)], vec![whole(3), whole(5), whole(6)]];
    let dealt = round_robin_refs(&lists);
    let numbers: Vec<i64> = dealt
        .iter()
        .map(|j| match j {
            Json::Number(JsonNumber::Int(n)) => *n,
            _ => panic!("a number"),
        })
        .collect();
    assert_eq!(numbers, vec![1, 2, 3, 4, 5, 6]);
    assert!(check_putter("b", 3, 3).is_ok());
    assert_eq!(
        check_putter("b", 2, 3).unwrap_err(),
        "putter b returned 2 refs, expected 3"
    );
    assert!(check_dealt(3, 3).is_ok());
    assert_eq!(
        check_dealt(2, 3).unwrap_err(),
        "round-robin ref list has 2 refs, expected 3"
    );
}

#[test]
fn references_travel_in_chunks() {
    assert_eq!(chunk_count(0), 0);
    assert_eq!(chunk_count(REF_CHUNK_SIZE), 1);
    assert_eq!(chunk_count(REF_CHUNK_SIZE + 1), 2);
    let refs: Vec<Json> = (0..REF_CHUNK_SIZE as i64 + 2).map(whole).collect();
    let first = append_request("r", "p", &refs, 0);
    let last = append_request("r", "p", &refs, 1);
    assert_eq!(first.refs.len(), REF_CHUNK_SIZE);
    assert_eq!(last.refs.len(), 2);
    assert_eq!(last.chunk_index, 1);
    assert_eq!(getter_plan_id(7, "b"), "datapoint-000007-b");
    assert_eq!(future_start_unix_ns(5), 2_000_000_005);
    assert_eq!(future_start_unix_ns(u64::MAX), u64::MAX);
}

#[test]
fn getter_requests_carry_the_experiment() {
    let e = experiment("blob.multi_getter", &[("w", Some("worker"))]);
    let store = store_request(e.clone(), "p2p", "res", true);
    assert!(store.force_reinit && store.create_remote_resources);
    assert_eq!(store.resource_id.as_deref(), Some("res"));
    assert!(plain_store_request("r", "s3").experiment.is_none());
    assert_eq!(preload_request(&e, 5, 2).object_size_bytes, 1024);
    assert_eq!(begin_request(&e, "p", 5, num(2.0)).expected_ref_count, 5);
    assert_eq!(worker_id(&e, "own"), "w");
    assert_eq!(worker_id(&experiment("x", &[]), "own"), "own");
    let request = materialize_request(&e, "w");
    assert_eq!((request.count, request.barrier_timeout_ms), (10, 20));
    assert!(request.cleanup && request.force_reset);
}

#[test]
fn getter_steps_follow_one_another() {
    let mut step = MultiStep::BeginSource;
    let mut seen = 0;
    while step != MultiStep::Report {
        step = step.following(2, 3);
        seen += 1;
        assert!(seen < 100);
    }
    assert!(MultiStep::Preload.is_fatal() && !MultiStep::Reset.is_fatal());
    let mut step = SingleStep::BeginGetter;
    let mut seen = 0;
    while step != SingleStep::Report {
        step = step.following(3);
        seen += 1;
        assert!(seen < 100);
    }
    let mut step = BlobGetStep::BeginPeer;
    let mut seen = Vec::new();
    while step != BlobGetStep::Done {
        seen.push(step);
        step = step.following(true);
    }
    assert!(seen.contains(&BlobGetStep::ResetPeer) && seen.contains(&BlobGetStep::GetHere));
    assert_eq!(BlobGetStep::GetHere.following(false), BlobGetStep::Done);
}

fn got(samples: &[f64], failed: usize) -> PacedBlobGetResult {
    PacedBlobGetResult::of("m".to_string(), 7, num(1.0), paced(samples, failed))
}

#[test]
fn getters_are_added_up() {
    let getters = vec![
        GetterReport::from_result("b", got(&[1.0, 3.0], 1)),
        GetterReport::from_result("c", got(&[2.0], 0)),
    ];
    let summary = aggregate_getters(
        &getters,
        vec!["d: gone".to_string()],
        GetterFigures {
            target_ops_per_s: num(10.0),
            achieved_ops_per_s: num(18.0),
            successful_ops_per_s: num(16.0),
            offered_mean_ms: num(2.0),
            service_mean_ms: num(2.0),
            lag_mean_ms: num(0.0),
        },
    );
    assert_eq!(summary.total_tasks, 3);
    assert_eq!(summary.failed_tasks, 2);
    assert_eq!(summary.wall_time_ms, num(2.0));
    assert_eq!(summary.offered_latency.max_ms, num(3.0));
    assert_eq!(summary.failure_messages, vec!["d: gone", "b index=0: boom"]);
    assert_eq!(operations_of_all(3, 4), 12);
    assert_eq!(operations_of_all(usize::MAX, 2), usize::MAX as u64);
    let put = BlobPutResult::of(vec![whole(1)], 9, num(4.0));
    let putter = PutterReport::from_result("b", 2, &put);
    assert_eq!((putter.planned_count, putter.count, putter.total_bytes), (2, 1, 9));
}

#[test]
fn direct_gets_are_answered() {
    let two = inventory(&["a", "b"]);
    let e = experiment("blob.get_materialize", &[("b", None)]);
    let request = materialize_request(&e, "b");
    assert!(check_blob_get(&two, &request).is_ok());
    assert!(check_blob_get(&inventory(&["a"]), &request).is_err());
    assert!(force_reset_here(&request, "a"));
    let asked = direct_put_request(&request);
    assert_eq!((asked.count, asked.max_in_flight), (request.count, 1));
    let put = BlobPutResult::of(vec![whole(1), whole(2)], 9, num(4.0));
    let wanted = direct_get_request(&request, &put);
    assert_eq!(wanted.run_id, request.run_id);
    assert_eq!(wanted.refs.len(), 2);
    assert!(matches!(&wanted.refs[1], Json::Number(JsonNumber::Int(2))));
    let get = BlobGetResult::of(vec!["m".to_string()], 8, num(5.0));
    let fine = blob_get_response(&request, "a", Ok((&put, &get)));
    assert!(fine.ok);
    assert_eq!((fine.prepared_count, fine.materialized_count, fine.total_bytes), (2, 1, 8));
    assert_eq!(
        materialize_line("w", &fine, "5.000"),
        "w coordinator=a peer=b prepared=2 materialized=1 total_bytes=8 get_ms=5.000"
    );
    assert!(accept_blob_get(fine, "b").is_ok());
    let bad = blob_get_response(&request, "a", Err("broken".to_string()));
    assert_eq!(bad.message, "broken");
    assert!(accept_blob_get(bad, "b").unwrap_err().contains("broken"));
}

fn poll(status: RequestStatus, ready: bool, result: Option<RequestResult>) -> PollRequestResponse {
    PollRequestResponse {
        ok: true,
        instance_id: "b".to_string(),
        run_id: Some("r".to_string()),
        req_id: "q".to_string(),
        status,
        ready,
        result,
        message: "because".to_string(),
    }
}

#[test]
fn targets_are_reached_and_polled() {
    let two = inventory(&["a", "b"]);
    assert!(route(&two, "a", "a").unwrap().is_none());
    assert_eq!(route(&two, "a", "b").unwrap().unwrap().id, "b");
    assert!(route(&two, "a", "z").is_err());
    assert!(rpc_failed("begin_expr", "b", "refused").contains("begin_expr"));
    let accepted = AcceptedResponse {
        ok: true,
        instance_id: "b".to_string(),
        run_id: "r".to_string(),
        req_id: Some("q".to_string()),
        message: String::new(),
    };
    assert_eq!(req_id("b", &accepted).unwrap(), "q");
    assert!(req_id("b", &AcceptedResponse { req_id: None, ..accepted }).is_err());
    assert!(!is_transient_poll_error("unknown request"));
    assert!(after_ready_poll("b", "q", poll(RequestStatus::Running, true, None), false).unwrap());
    assert!(!after_ready_poll("b", "q", poll(RequestStatus::Running, false, None), false).unwrap());
    assert!(after_ready_poll("b", "q", poll(RequestStatus::Running, false, None), true).is_err());
    assert!(after_ready_poll("b", "q", poll(RequestStatus::Failed, false, None), false).is_err());
    let put = RequestResult::BlobPut(BlobPutResult::of(vec![whole(1)], 9, num(4.0)));
    let done = poll(RequestStatus::Finished, true, Some(put));
    match after_result_poll("b", "q", Ok(done), false, 20, false).unwrap() {
        Some(result) => {
            assert_eq!(expect_blob_put("b", result, "shown").unwrap().total_bytes, 9)
        }
        None => panic!("done"),
    }
    let running = || Ok(poll(RequestStatus::Running, false, None));
    assert!(after_result_poll("b", "q", running(), false, 20, false).unwrap().is_none());
    assert!(after_result_poll("b", "q", running(), true, 20, false).is_err());
    let put = RequestResult::BlobPut(BlobPutResult::of(vec![whole(1)], 9, num(4.0)));
    assert!(expect_blob_get("b", put, "shown").unwrap_err().contains("shown"));
    assert!(accept_poll(poll(RequestStatus::Running, false, None), true, "b").is_ok());
}

fn chunk(offset: usize, xs: &[f64], has_more: bool) -> ChannelReceiverSamplesChunkResponse {
    ChannelReceiverSamplesChunkResponse {
        ok: true,
        instance_id: "b".to_string(),
        run_id: Some("r".to_string()),
        req_id: "q".to_string(),
        status: RequestStatus::Finished,
        offset,
        delivery_count: 3,
        materialize_count: 3,
        delivery_latency_samples_ms: reals(xs),
        materialize_latency_samples_ms: reals(xs),
        has_more,
        message: String::new(),
    }
}

#[test]
fn samples_are_fetched_chunk_by_chunk() {
    let mut fetch = SampleFetch::new();
    assert_eq!(fetch.request("r", "q").offset, 0);
    assert!(!fetch.take("b", chunk(0, &[1.0, 2.0], true)).unwrap());
    assert_eq!(fetch.request("r", "q").offset, RECEIVER_SAMPLE_CHUNK_SIZE);
    let last = chunk(RECEIVER_SAMPLE_CHUNK_SIZE, &[3.0], false);
    assert!(fetch.take("b", last).unwrap());
    let result = fetch.into_result(received(0, 0, 1));
    assert_eq!(result.delivery_latency_samples_ms, reals(&[1.0, 2.0, 3.0]));
    let mut fetch = SampleFetch::new();
    assert_eq!(
        fetch.take("b", chunk(0, &[1.0], false)).unwrap_err(),
        "target b returned 1 delivery samples, expected 3"
    );
    let mut fetch = SampleFetch::new();
    let refused = ChannelReceiverSamplesChunkResponse { ok: false, ..chunk(0, &[], false) };
    assert!(fetch.take("b", refused).is_err());
}

#[test]
fn put_experiments_are_counted_and_cleaned() {
    assert_eq!(PutWorkload::from_workload("blob.put.s3").unwrap(), PutWorkload::S3);
    assert_eq!(PutWorkload::LocalFile.backend_name(), "local-file");
    assert_eq!(
        PutWorkload::from_workload("blob.put").unwrap_err(),
        "unsupported blob put workload blob.put; use blob.put.local_file, blob.put.s3, or blob.put.p2p"
    );
    let mut e = experiment("blob.put.s3", &[]);
    let counts = put_counts(10, &e).unwrap();
    assert_eq!((counts.measured, counts.warmup, counts.total), (10, 4, 14));
    assert_eq!(put_total_bytes(10, &e), 10_240);
    assert_eq!(
        put_counts(u64::MAX, &e).unwrap_err(),
        "warmup_operations + operations is too large"
    );
    assert_eq!(put_total_bytes(u64::MAX, &e), u64::MAX);
    e.benchmark.object_size_bytes = 7;
    assert!(put_counts(10, &e).unwrap_err().contains("at least 8"));
    assert!(cleanup_outcome(&Vec::new()).is_ok());
    let dir = CleanupResource::LocalDir("w/r".to_string());
    assert!(matches!(dir.action(), CleanupAction::RemoveDir(path) if path == "w/r"));
    let bucket = CleanupResource::S3Bucket("lc-b".to_string());
    assert!(matches!(bucket.action(), CleanupAction::Defer(line) if line.contains("S3 bucket lc-b;")));
    let table = CleanupResource::DynamoDbTable("t".to_string());
    assert!(matches!(table.action(), CleanupAction::Defer(line) if line
        == "deferred AWS cleanup for DynamoDB table t; run cloudlab/scripts/entrypoints/gc_aws_resources.py by prefix"));
    let errors = vec!["a".to_string(), "b".to_string()];
    assert_eq!(cleanup_outcome(&errors).unwrap_err(), "cleanup failed: a; b");
    let bad: Result<(), String> = Err("x".to_string());
    assert_eq!(with_followup_errors("p", &bad, &bad), "p; also x; also x");
    assert_eq!(
        put_outcome(&Some("e".to_string()), bad.clone(), Ok(())).unwrap_err(),
        "blob put execution failed: e; also x"
    );
    assert_eq!(
        put_outcome(&None, bad.clone(), Err("y".to_string())).unwrap_err(),
        "x; also y"
    );
    assert_eq!(put_outcome(&None, Ok(()), bad).unwrap_err(), "x");
    assert!(put_outcome(&None, Ok(()), Ok(())).is_ok());
    assert!(aws_error_is_missing("service error: NoSuchBucket"));
    assert!(!aws_error_is_missing("AccessDenied"));
    assert_eq!(next_page("b", Some(true), Some("t".to_string())).unwrap().as_deref(), Some("t"));
    assert_eq!(next_page("b", None, Some("t".to_string())).unwrap(), None);
    assert_eq!(
        next_page("b", Some(true), None).unwrap_err(),
        "S3 bucket b listing was truncated without a continuation token"
    );
}

#[test]
fn put_points_last_for_the_duration() {
    let mut e = experiment("blob.put.s3", &[]);
    e.benchmark.operations = 10;
    let rate = num(300.0);
    let product = num(3000.0);
    e.benchmark.duration_seconds = Some(num(10.0));
    let measured = e.benchmark.operations_for_target(rate, product, "10", "300").unwrap();
    assert_eq!(put_counts(measured, &e).unwrap().measured, 3000);
    assert_eq!(put_total_bytes(measured, &e), 3000 * 1024);
    e.benchmark.duration_seconds = None;
    let measured = e.benchmark.operations_for_target(rate, product, "0", "300").unwrap();
    assert_eq!(put_counts(measured, &e).unwrap().measured, 10);
}

#[test]
fn metadata_experiments_are_named() {
    assert_eq!(
        MetadataWorkload::from_workload("metadata.prefix_scan").unwrap(),
        MetadataWorkload::PrefixScan
    );
    assert_eq!(MetadataWorkload::Append.operation(), "put_elem");
    assert_eq!(MetadataWorkload::Append.backend_name(), "dynamodb");
    assert_eq!(
        MetadataWorkload::from_workload("metadata.x").unwrap_err(),
        "unsupported metadata workload metadata.x; use metadata.append, metadata.prefix_scan, or metadata.competitive_claim.local"
    );
    let mut e = experiment("metadata.append", &[]);
    e.lambda_channel.metadata_backend = " DynamoDB ".to_string();
    assert!(ensure_dynamodb_backend(&e).is_ok());
    e.lambda_channel.metadata_backend = "in\"memory".to_string();
    assert_eq!(
        ensure_dynamodb_backend(&e).unwrap_err(),
        "metadata experiments currently support only lambda_channel.metadata_backend = \"dynamodb\"; got \"in\\\"memory\""
    );
    let id = unique_resource_id(&e, &instance("a.b"), 99);
    assert_eq!(id, "run-1-a-b-99");
    assert_eq!(metadata_channel_id(&e, &id), "my-bench-run-1-a-b-99");
    assert_eq!(sanitize_identifier(""), "metadata");
}

#[test]
fn metadata_experiments_are_counted() {
    let e = experiment("metadata.append", &[]);
    let counts = metadata_counts(50, &e).unwrap();
    assert_eq!(counts, MetadataCounts { measured: 50, warmup: 4, payload_size: 1024 });
    let none: Vec<Entry> = Vec::new();
    assert_eq!(scan_plan(&e, &none, counts).unwrap(), (32, 86));
    let set = with_env(e.clone(), "METADATA_SCAN_LIMIT", "0");
    assert_eq!(scan_plan(&set, &none, counts).unwrap(), (1, 55));
    let huge = MetadataCounts { measured: usize::MAX, ..counts };
    assert_eq!(
        scan_plan(&e, &none, huge).unwrap_err(),
        "metadata prefix scan preload count overflowed usize"
    );
    assert_eq!(claim_plan(&e, &none, counts).unwrap(), (50, 54));
    let set = with_env(e.clone(), "METADATA_CLAIM_TARGET_COUNT", "5");
    assert_eq!(claim_plan(&set, &none, counts).unwrap(), (5, 9));
    assert_eq!(
        claim_plan(&e, &none, huge).unwrap_err(),
        "metadata claim preload count overflowed usize"
    );
    assert_eq!(preload_limit(0), 1);
    assert_eq!(usize_from_u64(5, "x").unwrap(), 5);
}

#[test]
fn metadata_sequence_numbers() {
    assert_eq!(task_seqs(4, 3, None, "metadata append seq").unwrap(), vec![4, 5, 6]);
    assert_eq!(task_seqs(4, 5, Some(2), "metadata claim seq").unwrap(), vec![4, 5, 4, 5, 4]);
    assert_eq!(
        task_seqs(usize::MAX, 2, None, "metadata append seq").unwrap_err(),
        format!("value {} is too large for i64", usize::MAX)
    );
    assert_eq!(
        seq_at(usize::MAX, 1, "metadata append seq").unwrap_err(),
        "metadata append seq overflowed usize"
    );
    assert_eq!(i64_from_usize(7).unwrap(), 7);
}

#[test]
fn preloads_keep_their_limit() {
    let mut preload = Preload::new(3, 2).unwrap();
    assert_eq!(preload.next(), PreloadStep::Put { seq: 0 });
    assert_eq!(preload.next(), PreloadStep::Put { seq: 1 });
    assert_eq!(preload.next(), PreloadStep::Await);
    preload.completed(1, Ok(())).unwrap();
    assert_eq!(preload.next(), PreloadStep::Put { seq: 2 });
    assert_eq!(preload.next(), PreloadStep::Await);
    assert_eq!(
        preload.completed(0, Err("throttled".to_string())).unwrap_err(),
        "failed to put preload elem seq=0: throttled"
    );
    assert_eq!(preload.next(), PreloadStep::Await);
    preload.completed(2, Ok(())).unwrap();
    assert_eq!(preload.next(), PreloadStep::Done);
    assert_eq!(Preload::new(1, 0).unwrap().limit, 1);
    assert_eq!(Preload::new(0, 4).unwrap().next(), PreloadStep::Done);
}

#[test]
fn metadata_counters_are_reported() {
    let mut counters = ClaimCounters::new();
    counters.count(ClaimOutcome::Claimed);
    counters.count(ClaimOutcome::AlreadyConsumed);
    counters.count(ClaimOutcome::Claimed);
    counters.count(ClaimOutcome::Missing);
    counters.count(ClaimOutcome::Eof);
    let report = claim_counters(5, counters);
    let values: Vec<(String, u64)> = report.into_iter().map(|c| (c.name, c.value)).collect();
    assert_eq!(
        values,
        vec![
            ("already_consumed_count".to_string(), 1),
            ("claim_attempt_count".to_string(), 5),
            ("claimed_count".to_string(), 2),
            ("eof_count".to_string(), 1),
            ("missing_count".to_string(), 1),
        ]
    );
    assert_eq!(append_counters(3)[0].value, 3);
    assert_eq!(scan_counters(3, 40)[0].value, 40);
    assert_eq!(claim_consumer("a", 12), "a-claim-12");
    let cleanup: Result<(), String> = Err("c".to_string());
    assert_eq!(
        metadata_outcome(Some("e".to_string()), cleanup.clone()).unwrap_err(),
        "e; cleanup also failed: c"
    );
    assert_eq!(metadata_outcome(None, cleanup).unwrap_err(), "c");
    assert_eq!(metadata_outcome(Some("e".to_string()), Ok(())).unwrap_err(), "e");
    assert!(metadata_outcome(None, Ok(())).is_ok());
}
