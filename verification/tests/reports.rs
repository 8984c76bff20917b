//! Reports and values that travel.
use lc_bench::binary64::Real;
use lc_bench::blob_sweep::{GetterReport, GetterSetup};
use lc_bench::channel_sweep::AggregatePacedSummary;
use lc_bench::cli::{BenchCommand, BenchConfig};
use lc_bench::config::{
    BenchmarkConfig, CoordinationConfig, ExperimentSpec, InstanceConfig, LambdaChannelConfig,
    P2pConfig, RunConfig, ThroughputSweepConfig,
};
use lc_bench::datapoints::{
    receiver_stats, GetterPoint, MetadataDatapointReport, MetadataSweepReport,
    MultiGetterDatapointReport, MultiGetterReport, PutDatapointReport, PutSweepReport,
    SingleGetterDatapointReport, SpreadFigures,
};
use lc_bench::latency::LatencySummary;
use lc_bench::metadata_sweep::{append_counters, MetadataWorkload};
use lc_bench::native::{
    json_to_native_map, json_to_native_value, native_map_to_json, native_value_to_json, Json,
    JsonField, JsonNumber, NativeField, NativeValue,
};
use lc_bench::paced::{PacedTaskFailure, PacedTaskRunReport, PacedTaskSample};
use lc_bench::protocol::PacedBlobGetResult;
use lc_bench::report::{json_escape, run, scenarios, BenchmarkReport};
use lc_bench::summary::{
    experiment_failure_summary, one_line, FailureReport, JsonMember, JsonNode,
};
use lc_bench::sweep::{SweepStopReason, ThroughputSweepPolicy};

fn num(x: f64) -> Real {
    Real { bits: x.to_bits() }
}

#[test]
fn failures_of_a_report_are_shown() {
    let json = r#"{"run_id":"r","workload":"w","backend":"s3","datapoints":[
        {"datapoint_index":0,"resource_id":"x","paced":{"target_ops_per_s":100.0,"failed_tasks":0,"failure_messages":[]}},
        {"datapoint_index":1,"resource_id":"y","paced":{"target_ops_per_s":200.5,"failed_tasks":2,"failure_messages":["index=0: a\nb"]}}
    ]}"#;
    let lines = experiment_failure_summary(json).unwrap();
    assert_eq!(
        lines,
        vec![
            "experiment failure summary run_id=r workload=w backend=s3",
            "  datapoint=1 resource_id=y target_ops_per_s=200.5 failed_tasks=2 failure_samples=1",
            "    failure: index=0: a b",
        ]
    );
}

#[test]
fn reports_without_failures_show_nothing() {
    let lines = experiment_failure_summary(r#"{"run_id":"r","datapoints":[]}"#).unwrap();
    assert!(lines.is_empty());
    let problem = experiment_failure_summary("not json").unwrap_err();
    assert!(problem.starts_with("experiment result is not valid JSON: "));
    let problem = experiment_failure_summary("[1]").unwrap_err();
    assert_eq!(problem, "experiment result JSON missing datapoints[]");
}

fn object(members: Vec<(&str, JsonNode)>) -> JsonNode {
    JsonNode::Object(
        members
            .into_iter()
            .map(|(key, value)| JsonMember { key: key.to_string(), value })
            .collect(),
    )
}

fn words(text: &str) -> JsonNode {
    JsonNode::Text(text.to_string())
}

fn figure(unsigned: Option<u64>, shown: &str) -> JsonNode {
    JsonNode::Number { unsigned, shown: Some(shown.to_string()) }
}

#[test]
fn values_of_a_report_are_read() {
    let failure = object(vec![("index", figure(Some(3), "3")), ("message", words("boom"))]);
    let paced = object(vec![
        ("target_ops_per_s", figure(None, "12.5")),
        ("failures", JsonNode::Array(vec![failure, JsonNode::Null])),
        ("failure_messages", JsonNode::Array(vec![JsonNode::Bool(true), words("m")])),
    ]);
    let report = object(vec![
        ("workload", words("w")),
        ("run_id", JsonNode::Null),
        ("datapoints", JsonNode::Array(vec![object(vec![("paced", paced)]), JsonNode::Null])),
    ]);
    let lines = FailureReport::of(&report).unwrap().summary_lines();
    assert_eq!(
        lines,
        vec![
            "experiment failure summary run_id=- workload=w backend=-",
            "  datapoint=0 resource_id=- target_ops_per_s=12.5 failed_tasks=0 failure_samples=2",
            "    failure index=3: boom",
            "    failure index=-: -",
            "    failure: m",
        ]
    );
    let problem = FailureReport::of(&object(vec![("datapoints", words("none"))])).unwrap_err();
    assert_eq!(problem, "experiment result JSON missing datapoints[]");
    assert!(FailureReport::of(&JsonNode::Null).is_err());
}

#[test]
fn long_messages_are_cut() {
    assert_eq!(one_line("a\tb\r\nc", 80), "a b  c");
    assert_eq!(one_line("abcdef", 3), "abc...");
    assert_eq!(one_line("abc", 3), "abc");
}

#[test]
fn benchmark_reports_are_json() {
    let config = BenchConfig::default();
    let run = run(BenchCommand::Blob, &config, "2026-01-01T00:00:00Z".to_string());
    let json = BenchmarkReport::from_run(run, &config).to_json_pretty("");
    let value: serde_json::Value = serde_json::from_str(&json).unwrap();
    assert_eq!(value["schema"], "lambda-channel-benchmark/v0");
    assert_eq!(value["command"], "blob");
    assert_eq!(value["backend"], "inmemory");
    assert_eq!(value["config"]["operations"], 10_000);
    assert!(value["config"]["offered_rate_per_s"].is_null());
    assert_eq!(value["lambda_channel_utc_now"], "2026-01-01T00:00:00Z");
    let config = BenchConfig { offered_rate_per_s: Some(num(1.5)), ..BenchConfig::default() };
    let run = lc_bench::report::run(BenchCommand::Metadata, &config, "now".to_string());
    let json = BenchmarkReport::from_run(run, &config).to_json_pretty("1.5");
    let value: serde_json::Value = serde_json::from_str(&json).unwrap();
    assert_eq!(value["config"]["offered_rate_per_s"], 1.5);
}

#[test]
fn escaped_texts_read_back() {
    let nasty = "q\" b\\ n\n r\r t\t bell\u{7} del\u{7f} nel\u{85} \u{e9}";
    let json = format!("\"{}\"", json_escape(nasty));
    let back: String = serde_json::from_str(&json).unwrap();
    assert_eq!(back, nasty);
    assert_eq!(json_escape("\u{1}"), "\\u0001");
    assert_eq!(json_escape("\u{9f}"), "\\u009f");
    assert_eq!(json_escape("plain \u{e9} / text"), "plain \u{e9} / text");
    assert_ne!(json_escape("\\n"), json_escape("\n"));
}

#[test]
fn scenarios_are_listed() {
    assert!(!scenarios().is_empty());
    assert!(scenarios().iter().all(|s| s.config_path.ends_with(".toml")));
}

#[test]
fn native_values_survive_json() {
    let value = NativeValue::Dict(vec![
        NativeField { key: "a".to_string(), value: NativeValue::Int(-5) },
        NativeField {
            key: "b".to_string(),
            value: NativeValue::List(vec![
                NativeValue::Null,
                NativeValue::Bool(true),
                NativeValue::Float(num(1.5)),
                NativeValue::Text("x".to_string()),
            ]),
        },
    ]);
    let json = native_value_to_json(&value);
    let back = json_to_native_value(&json);
    match back {
        NativeValue::Dict(fields) => {
            assert!(matches!(fields[0].value, NativeValue::Int(-5)));
            match &fields[1].value {
                NativeValue::List(items) => {
                    assert!(matches!(items[0], NativeValue::Null));
                    assert!(matches!(items[1], NativeValue::Bool(true)));
                    assert!(matches!(items[2], NativeValue::Float(x) if x == num(1.5)));
                    assert!(matches!(&items[3], NativeValue::Text(t) if t == "x"));
                }
                _ => panic!("a list"),
            }
        }
        _ => panic!("a table"),
    }
    let map = vec![NativeField { key: "k".to_string(), value: NativeValue::Int(1) }];
    let json = native_map_to_json(map);
    assert_eq!(json_to_native_map(&json, "shown").unwrap().len(), 1);
    assert!(json_to_native_map(&Json::Bool(true), "true").is_err());
    let object = Json::Object(vec![JsonField {
        key: "n".to_string(),
        value: Json::Number(JsonNumber::Int(3)),
    }]);
    assert!(matches!(json_to_native_value(&object), NativeValue::Dict(_)));
}

fn experiment() -> ExperimentSpec {
    ExperimentSpec {
        run: RunConfig {
            run_id: "r".to_string(),
            workload: "w".to_string(),
            description: String::new(),
            output_dir: "out".to_string(),
            seed: 3,
        },
        coordination: CoordinationConfig {
            rpc_timeout_ms: 10,
            barrier_timeout_ms: 20,
            cleanup_timeout_ms: 30,
            force_reset_on_start: true,
        },
        benchmark: BenchmarkConfig {
            backend: "p2p".to_string(),
            operations: 10,
            concurrency: 2,
            object_size_bytes: 100,
            warmup_operations: 4,
            duration_seconds: Some(num(2.0)),
            offered_rate_per_s: None,
            repetitions: 1,
        },
        throughput_sweep: ThroughputSweepConfig::default(),
        lambda_channel: LambdaChannelConfig {
            metadata_backend: "dynamodb".to_string(),
            channel_id_prefix: "bench".to_string(),
            consume_mode: "fanout".to_string(),
            native_worker_threads: None,
            min_elements_per_datapoint: None,
            max_elements_per_datapoint: None,
        },
        p2p: P2pConfig {
            tracker_backend: "dynamodb".to_string(),
            cache_root: "cache".to_string(),
            chunk_server_bind_host: "0.0.0.0".to_string(),
            chunk_server_port_base: 18080,
            chunk_server_runtime_worker_threads: 4,
            enable_accel: true,
            accel_probability: None,
            persist_backend: None,
            non_abortable_task_workers: 16,
        },
        participants: Vec::new(),
        env: Vec::new(),
    }
}

fn instance() -> InstanceConfig {
    InstanceConfig {
        id: "a".to_string(),
        rpc_addr: "a:1".to_string(),
        rpc_listen_addr: None,
        p2p_advertise_endpoint: "http://a:2".to_string(),
        work_dir: "w".to_string(),
        capabilities: Vec::new(),
        labels: Vec::new(),
    }
}

fn paced() -> PacedTaskRunReport {
    PacedTaskRunReport {
        target_ops_per_s: num(10.0),
        achieved_ops_per_s: num(9.0),
        successful_ops_per_s: num(8.0),
        total_tasks: 1,
        completed_tasks: 1,
        failed_tasks: 1,
        wall_time_ms: num(1.0),
        offered_latency: LatencySummary::default(),
        service_latency: LatencySummary::default(),
        schedule_lag: LatencySummary::default(),
        samples: vec![PacedTaskSample {
            index: 0,
            ok: false,
            offered_latency_ms: num(1.0),
            service_latency_ms: num(1.0),
            schedule_lag_ms: num(0.0),
        }],
        failures: vec![PacedTaskFailure { index: 0, message: "m".to_string() }],
    }
}

fn setup() -> GetterSetup {
    GetterSetup {
        backend: "p2p".to_string(),
        duration_seconds: num(2.0),
        lead_id: "a".to_string(),
        follower_ids: vec!["b".to_string(), "c".to_string()],
        policy: ThroughputSweepPolicy::paper_default(None),
        rates: Vec::new(),
    }
}

fn point() -> GetterPoint {
    GetterPoint {
        resource_id: "res".to_string(),
        datapoint_index: 3,
        operations: 1500,
        refs: 1500,
        rate_per_getter: num(5.0),
        rate: num(10.0),
        preload_put_ms: num(0.0),
        preload_put_concurrency: 4,
        preload_rate: num(77.0),
    }
}

fn summary() -> AggregatePacedSummary {
    AggregatePacedSummary {
        target_ops_per_s: num(10.0),
        achieved_ops_per_s: num(9.0),
        successful_ops_per_s: num(8.0),
        total_tasks: 3,
        completed_tasks: 3,
        failed_tasks: 0,
        wall_time_ms: num(1.0),
        offered_latency: LatencySummary::default(),
        service_latency: LatencySummary::default(),
        schedule_lag: LatencySummary::default(),
        failure_messages: Vec::new(),
    }
}

#[test]
fn getter_datapoints_are_reported() {
    let got = PacedBlobGetResult::of("m".to_string(), 7, num(1.0), paced());
    let getter = GetterReport::from_result("b", got);
    let e = experiment();
    let report = MultiGetterDatapointReport::of(
        &e,
        &instance(),
        &setup(),
        point(),
        summary(),
        vec![getter],
    );
    assert_eq!(report.operations, 3000);
    assert_eq!(report.total_bytes, 300);
    assert_eq!(report.refs_chunk_count, 2);
    assert_eq!(report.preload_put_ops_per_s, num(0.0));
    assert!(report.per_getter[0].paced.samples.is_empty());
    assert_eq!(report.per_getter[0].paced.failures.len(), 1);
    assert_eq!(report.refs_distribution, "shared-list");
    let sweep = MultiGetterReport::of(
        &e,
        &instance(),
        &setup(),
        SweepStopReason::MaxPoints,
        vec![report],
    );
    assert_eq!(sweep.getter_count, 2);
    let got = PacedBlobGetResult::of("m".to_string(), 7, num(1.0), paced());
    let getter = GetterReport::from_result("a", got);
    let single = SingleGetterDatapointReport::of(
        &e,
        &setup(),
        GetterPoint { preload_put_ms: num(5.0), ..point() },
        getter,
        Vec::new(),
    );
    assert_eq!(single.expected_working_set_bytes, 150_000);
    assert_eq!(single.preload_put_ops_per_s, num(77.0));
    assert_eq!(single.refs_distribution, "even-round-robin");
    assert!(single.getter.paced.samples.is_empty());
    assert!(single.paced.samples.is_empty());
    assert_eq!(single.paced.completed_tasks, single.getter.paced.completed_tasks);
    assert_eq!(single.paced.successful_ops_per_s, paced().successful_ops_per_s);
}

#[test]
fn put_and_metadata_sweeps_are_reported() {
    let e = experiment();
    let policy = ThroughputSweepPolicy::paper_default(None);
    let put = PutDatapointReport::of(
        250,
        &e,
        &instance(),
        "s3",
        "res",
        "in".to_string(),
        Vec::new(),
        &paced(),
    );
    assert_eq!((put.operations, put.total_bytes), (250, 25_000));
    assert_eq!(put.paced.failure_messages, vec!["index=0: m"]);
    let sweep = PutSweepReport::new(
        &instance(),
        &e,
        "s3",
        policy,
        SweepStopReason::Saturated,
        vec![put],
    );
    assert_eq!(sweep.warmup_operations_per_point, 4);
    let point = MetadataDatapointReport::new(
        &instance(),
        &e,
        MetadataWorkload::Append,
        "res".to_string(),
        "ch".to_string(),
        9,
        Vec::new(),
        &paced(),
        append_counters(9),
        None,
        None,
    );
    assert_eq!(point.operation, "put_elem");
    assert_eq!(point.operations, 9);
    let sweep = MetadataSweepReport::new(
        &instance(),
        &e,
        "dynamodb",
        policy,
        SweepStopReason::Saturated,
        vec![point],
    );
    assert_eq!(sweep.duration_seconds, Some(num(2.0)));
    assert_eq!(sweep.datapoints.len(), 1);
}

#[test]
fn no_receivers_have_no_spread() {
    let figures = SpreadFigures {
        sum_ops_per_s: num(1.0),
        mean_ops_per_s: num(f64::NAN),
        count_stddev: num(f64::NAN),
        eof_spread_ms: num(3.0),
    };
    let stats = receiver_stats(&Vec::new(), figures);
    assert_eq!(stats.mean_ops_per_s, num(0.0));
    assert_eq!(stats.max_count, 0);
}
