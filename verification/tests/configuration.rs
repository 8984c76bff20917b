//! Configuration files, settings of the environment and the plans of stores.
use lc_bench::binary64::Real;
use lc_bench::config::{
    experiment_summary, instances_summary, load_experiment, load_instances, BenchmarkConfig,
    CoordinationConfig, Entry, ExperimentSpec, InstanceConfig, InstancesConfig,
    LambdaChannelConfig, Loaded, P2pConfig, ParticipantConfig, RegistryConfig, RunConfig,
    ShownRates, ThroughputSweepConfig,
};
use lc_bench::environment::{
    env_any, env_bool_any, env_u64_any, env_usize_any, lookup, pacer_core_id_from_experiment,
    parse_bool, required_env_any, AwsClientConfig, EnvReader,
};
use lc_bench::metadata_sweep;
use lc_bench::native::NativeValue;
use lc_bench::stores::{
    blob_backend, in_memory_details, local_file_details, local_file_root, location_constraint,
    metadata_backend, metadata_init_failed, metadata_table_prefix, node_table_name,
    normalize_backend, p2p_cache_dir, plan_node_metadata_table, plan_p2p_store, plan_s3_store,
    require_experiment, to_native_map, with_client_details, BlobBackend, MetadataBackend,
};
use lc_bench::table::{put_entry, table_of};

fn num(x: f64) -> Real {
    Real { bits: x.to_bits() }
}

fn entries(pairs: &[(&str, &str)]) -> Vec<Entry> {
    pairs
        .iter()
        .map(|(k, v)| Entry { key: k.to_string(), value: v.to_string() })
        .collect()
}

fn pairs(entries: &[Entry]) -> Vec<(String, String)> {
    entries.iter().map(|e| (e.key.clone(), e.value.clone())).collect()
}

fn has(entries: &[Entry], key: &str, value: &str) -> bool {
    entries.iter().any(|e| e.key == key && e.value == value)
}

fn experiment(env: &[(&str, &str)]) -> ExperimentSpec {
    ExperimentSpec {
        run: RunConfig {
            run_id: "run-1".to_string(),
            workload: "metadata.append".to_string(),
            description: "d".to_string(),
            output_dir: "out".to_string(),
            seed: 3,
        },
        coordination: CoordinationConfig {
            rpc_timeout_ms: 1,
            barrier_timeout_ms: 1,
            cleanup_timeout_ms: 1,
            force_reset_on_start: true,
        },
        benchmark: BenchmarkConfig {
            backend: "p2p".to_string(),
            operations: 10,
            concurrency: 2,
            object_size_bytes: 1024,
            warmup_operations: 0,
            duration_seconds: None,
            offered_rate_per_s: None,
            repetitions: 1,
        },
        throughput_sweep: ThroughputSweepConfig::default(),
        lambda_channel: LambdaChannelConfig {
            metadata_backend: "dynamodb".to_string(),
            channel_id_prefix: "bench".to_string(),
            consume_mode: "fanout".to_string(),
            native_worker_threads: None,
            min_elements_per_datapoint: None,
            max_elements_per_datapoint: None,
        },
        p2p: P2pConfig {
            tracker_backend: "dynamodb".to_string(),
            cache_root: "cache".to_string(),
            chunk_server_bind_host: "0.0.0.0".to_string(),
            chunk_server_port_base: 18080,
            chunk_server_runtime_worker_threads: 4,
            enable_accel: true,
            accel_probability: None,
            persist_backend: None,
            non_abortable_task_workers: 16,
        },
        participants: Vec::new(),
        env: entries(env),
    }
}

fn instance(id: &str) -> InstanceConfig {
    InstanceConfig {
        id: id.to_string(),
        rpc_addr: format!("{id}:19000"),
        rpc_listen_addr: None,
        p2p_advertise_endpoint: format!("http://{id}:18081/x"),
        work_dir: ".bench".to_string(),
        capabilities: Vec::new(),
        labels: Vec::new(),
    }
}

fn inventory(ids: &[&str]) -> InstancesConfig {
    InstancesConfig {
        registry: RegistryConfig { name: "reg".to_string(), description: "two".to_string() },
        instances: ids.iter().map(|id| instance(id)).collect(),
    }
}

#[test]
fn instances_are_found_by_id() {
    let two = inventory(&["a", "b"]);
    assert_eq!(two.find_instance("b").unwrap().rpc_addr, "b:19000");
    assert!(two.find_instance("c").is_none());
    assert_eq!(
        instances_summary(&two),
        "registry=reg, registry_description=two, instances=2"
    );
}

#[test]
fn inventories_are_checked() {
    assert!(inventory(&["a", "b"]).validate().is_ok());
    assert_eq!(
        inventory(&[]).validate().unwrap_err(),
        "instances list must contain at least one instance"
    );
    assert_eq!(inventory(&[" "]).validate().unwrap_err(), "instance id must not be empty");
    assert_eq!(inventory(&["a", "a"]).validate().unwrap_err(), "duplicate instance id: a");
    let mut one = inventory(&["a"]);
    one.instances[0].rpc_addr = "\t".to_string();
    assert_eq!(one.validate().unwrap_err(), "instance a has empty rpc_addr");
    one.instances[0].rpc_addr = "a:1".to_string();
    one.instances[0].p2p_advertise_endpoint = String::new();
    assert_eq!(
        one.validate().unwrap_err(),
        "instance a has empty p2p_advertise_endpoint"
    );
}

#[test]
fn experiments_are_checked() {
    let fail = |change: &dyn Fn(&mut ExperimentSpec)| {
        let mut e = experiment(&[]);
        change(&mut e);
        e.validate().unwrap_err()
    };
    assert!(experiment(&[]).validate().is_ok());
    assert_eq!(
        fail(&|e| e.run.run_id = " ".to_string()),
        "experiment run.run_id must not be empty"
    );
    assert_eq!(
        fail(&|e| e.run.workload = String::new()),
        "experiment run.workload must not be empty"
    );
    assert_eq!(
        fail(&|e| e.benchmark.operations = 0),
        "benchmark.operations must be greater than zero"
    );
    assert_eq!(
        fail(&|e| e.benchmark.concurrency = 0),
        "benchmark.concurrency must be greater than zero"
    );
    assert_eq!(
        fail(&|e| e.benchmark.repetitions = 0),
        "benchmark.repetitions must be greater than zero"
    );
    assert_eq!(
        fail(&|e| e.benchmark.duration_seconds = Some(num(f64::NAN))),
        "benchmark.duration_seconds must be a finite positive number"
    );
    assert_eq!(
        fail(&|e| e.benchmark.offered_rate_per_s = Some(num(0.0))),
        "benchmark.offered_rate_per_s must be greater than zero"
    );
    assert_eq!(
        fail(&|e| e.throughput_sweep.start_ops_per_s = Some(num(-1.0))),
        "throughput_sweep.start_ops_per_s must be a finite positive number"
    );
    assert_eq!(
        fail(&|e| e.throughput_sweep.step_multiplier = Some(num(1.0))),
        "throughput_sweep.step_multiplier must be a finite number greater than 1"
    );
    assert_eq!(
        fail(&|e| e.throughput_sweep.max_ops_per_s = Some(num(0.0))),
        "throughput_sweep.max_ops_per_s must be a finite positive number"
    );
    assert_eq!(
        fail(&|e| e.throughput_sweep.max_points = Some(0)),
        "throughput_sweep.max_points must be greater than zero"
    );
    assert_eq!(
        fail(&|e| e.throughput_sweep.saturation_achieved_ratio = Some(num(0.0))),
        "throughput_sweep.saturation_achieved_ratio must be in the range (0, 1]"
    );
    assert_eq!(
        fail(&|e| e.coordination.rpc_timeout_ms = 0),
        "coordination.rpc_timeout_ms must be greater than zero"
    );
    assert_eq!(
        fail(&|e| e.coordination.barrier_timeout_ms = 0),
        "coordination.barrier_timeout_ms must be greater than zero"
    );
    assert_eq!(
        fail(&|e| e.coordination.cleanup_timeout_ms = 0),
        "coordination.cleanup_timeout_ms must be greater than zero"
    );
    assert_eq!(
        fail(&|e| e.lambda_channel.metadata_backend = String::new()),
        "lambda_channel.metadata_backend must not be empty"
    );
    assert_eq!(
        fail(&|e| e.lambda_channel.channel_id_prefix = String::new()),
        "lambda_channel.channel_id_prefix must not be empty"
    );
    assert_eq!(
        fail(&|e| e.lambda_channel.consume_mode = String::new()),
        "lambda_channel.consume_mode must not be empty"
    );
    assert_eq!(
        fail(&|e| e.p2p.tracker_backend = String::new()),
        "p2p.tracker_backend must not be empty"
    );
    assert_eq!(
        fail(&|e| e.p2p.chunk_server_bind_host = String::new()),
        "p2p.chunk_server_bind_host must not be empty"
    );
    assert_eq!(
        fail(&|e| e.p2p.chunk_server_runtime_worker_threads = 0),
        "p2p.chunk_server_runtime_worker_threads must be greater than zero"
    );
    assert_eq!(
        fail(&|e| e.p2p.non_abortable_task_workers = 0),
        "p2p.non_abortable_task_workers must be greater than zero"
    );
    assert_eq!(
        fail(&|e| e.p2p.accel_probability = Some(num(1.25))),
        "p2p.accel_probability must be between 0 and 1"
    );
    let nobody = ParticipantConfig { instance_id: " ".to_string(), label: None };
    assert_eq!(
        fail(&|e| e.participants = vec![nobody.clone()]),
        "participant instance_id must not be empty"
    );
}

#[test]
fn participants_must_be_known() {
    let mut e = experiment(&[]);
    e.participants = vec![ParticipantConfig { instance_id: "b".to_string(), label: None }];
    assert!(e.validate_with_instances(&inventory(&["a", "b"])).is_ok());
    assert_eq!(
        e.validate_with_instances(&inventory(&["a"])).unwrap_err(),
        "participant references unknown instance id: b"
    );
}

#[test]
fn loading_tells_what_went_wrong() {
    let gone: Loaded<InstancesConfig> = Loaded::Unreadable("no such file".to_string());
    assert_eq!(
        load_instances("i.toml", gone).unwrap_err(),
        "failed to read i.toml: no such file"
    );
    let bad: Loaded<ExperimentSpec> = Loaded::Unparsable("line 3".to_string());
    assert_eq!(
        load_experiment("e.toml", bad).unwrap_err(),
        "failed to parse e.toml: line 3"
    );
    assert_eq!(
        load_instances("i.toml", Loaded::Value(inventory(&["a"]))).unwrap().instances.len(),
        1
    );
}

#[test]
fn loading_makes_tables() {
    let given = experiment(&[("b", "1"), ("a", "2"), ("b", "3"), ("aa", "4")]);
    let loaded = load_experiment("e.toml", Loaded::Value(given)).unwrap();
    let expected = [("a", "2"), ("aa", "4"), ("b", "3")];
    assert_eq!(pairs(&loaded.env), pairs(&entries(&expected)));
    let again = load_experiment("e.toml", Loaded::Value(loaded)).unwrap();
    assert_eq!(pairs(&again.env), pairs(&entries(&expected)));
    let mut given = inventory(&["x", "y"]);
    given.instances[1].labels = entries(&[("zone", "1"), ("rack", "2")]);
    let loaded = load_instances("i.toml", Loaded::Value(given)).unwrap();
    assert_eq!(loaded.instances[0].id, "x");
    assert_eq!(loaded.instances[1].id, "y");
    let labels = pairs(&loaded.instances[1].labels);
    assert_eq!(labels, pairs(&entries(&[("rack", "2"), ("zone", "1")])));
}

#[test]
fn tables_hold_every_key_once() {
    let mut table = table_of(Vec::new());
    for (key, value) in [("m", "1"), ("b", "2"), ("z", "3"), ("b", "4"), ("", "5")] {
        put_entry(&mut table, key, value);
    }
    let expected = [("", "5"), ("b", "4"), ("m", "1"), ("z", "3")];
    assert_eq!(pairs(&table), pairs(&entries(&expected)));
    for (key, value) in expected {
        assert_eq!(lookup(&table, key).as_deref(), Some(value));
    }
    assert_eq!(lookup(&table, "a"), None);
}

#[test]
fn experiments_are_summed_up() {
    let shown = ShownRates {
        duration_seconds: "1.5".to_string(),
        offered_rate_per_s: "7".to_string(),
        accel_probability: "0.5".to_string(),
    };
    let summary = experiment_summary(&experiment(&[("K", "v")]), &shown);
    assert!(summary.starts_with(
        "run_id=run-1, workload=metadata.append, description=d, output_dir=out, seed=3, backend=p2p, operations=10, duration_seconds=none, concurrency=2, object_size_bytes=1024, warmup_operations=0, offered_rate_per_s=none, repetitions=1, force_reset_on_start=true, participants=0, "
    ));
    assert!(summary.ends_with(
        "p2p_enable_accel=true, p2p_accel_probability=none, p2p_persist_backend=none, p2p_non_abortable_task_workers=16, env_vars=1"
    ));
    let mut e = experiment(&[]);
    e.benchmark.backend = " ".to_string();
    e.benchmark.duration_seconds = Some(num(1.5));
    let summary = experiment_summary(&e, &shown);
    assert!(summary.contains("backend=none, operations=10, duration_seconds=1.5, "));
}

#[test]
fn settings_come_from_the_experiment_or_the_process() {
    let process = entries(&[("A", "from process"), ("B", " b ")]);
    let e = experiment(&[("A", "  "), ("C", "c")]);
    assert_eq!(lookup(&process, "B").as_deref(), Some(" b "));
    // The blob readers stop at the first key that is set at all.
    assert_eq!(env_any(EnvReader::BlobPut, &e, &process, &["A", "B"]), None);
    assert_eq!(
        env_any(EnvReader::BlobPut, &e, &process, &["B", "C"]).as_deref(),
        Some("b")
    );
    // The metadata readers skip blanks and look at the experiment first.
    assert_eq!(
        env_any(EnvReader::MetadataExperiments, &e, &process, &["A", "C"]).as_deref(),
        Some("c")
    );
    assert_eq!(
        env_any(EnvReader::MetadataExperiments, &e, &process, &["A", "B"]).as_deref(),
        Some("from process")
    );
    assert_eq!(
        required_env_any(EnvReader::BlobPut, &e, &process, &["X", "Y"], "The thing").unwrap_err(),
        "The thing is required; set one of X, Y in [env] or the process environment"
    );
}

#[test]
fn settings_are_parsed() {
    let e = experiment(&[("T", "Yes"), ("N", "12"), ("W", "maybe")]);
    let none = entries(&[]);
    let put = EnvReader::BlobPut;
    let meta = EnvReader::MetadataExperiments;
    assert_eq!(env_bool_any(put, &e, &none, &["T"]).unwrap(), Some(true));
    assert_eq!(env_bool_any(put, &e, &none, &["Z"]).unwrap(), None);
    assert_eq!(
        env_bool_any(put, &e, &none, &["W"]).unwrap_err(),
        "invalid boolean value \"maybe\" for one of W"
    );
    assert_eq!(
        env_bool_any(meta, &e, &none, &["W"]).unwrap_err(),
        "failed to parse boolean env value \"maybe\""
    );
    assert_eq!(env_u64_any(put, &e, &none, &["N"]).unwrap(), Some(12));
    assert_eq!(
        env_u64_any(put, &e, &none, &["W"]).unwrap_err(),
        "invalid u64 value \"maybe\" for one of W: invalid digit found in string"
    );
    assert_eq!(env_usize_any(meta, &e, &none, &["N"]).unwrap(), Some(12));
    assert_eq!(
        env_usize_any(meta, &e, &none, &["W"]).unwrap_err(),
        "failed to parse metadata env value \"maybe\" as usize: invalid digit found in string"
    );
    assert_eq!(parse_bool("y", true), Some(true));
    assert_eq!(parse_bool("y", false), None);
    assert_eq!(parse_bool(" OFF ", false), Some(false));
}

#[test]
fn quoted_values_are_escaped() {
    let e = experiment(&[("W", "a\"b\\c\nd\u{e9}\u{7f}")]);
    assert_eq!(
        env_bool_any(EnvReader::MetadataExperiments, &e, &entries(&[]), &["W"]).unwrap_err(),
        format!("failed to parse boolean env value {:?}", "a\"b\\c\nd\u{e9}\u{7f}")
    );
}

#[test]
fn pacer_cores_are_parsed() {
    assert_eq!(pacer_core_id_from_experiment(&experiment(&[])).unwrap(), None);
    let e = experiment(&[("LC_BENCH_PACER_CORE", "3")]);
    assert_eq!(pacer_core_id_from_experiment(&e).unwrap(), Some(3));
    let e = experiment(&[("LC_BENCH_PACER_CORE", "x")]);
    assert_eq!(
        pacer_core_id_from_experiment(&e).unwrap_err(),
        "failed to parse env.LC_BENCH_PACER_CORE=\"x\" as usize: invalid digit found in string"
    );
    let config = metadata_sweep::run_config(&experiment(&[("LC_BENCH_PACER_CORE", "3")]), num(5.0))
        .unwrap();
    assert_eq!(config.pacer_core_id, Some(3));
    assert_eq!(config.max_in_flight, 2);
}

#[test]
fn aws_keys_come_in_pairs() {
    let none = entries(&[]);
    let e = experiment(&[("AWS_ACCESS_KEY_ID", "id"), ("AWS_SECRET_ACCESS_KEY", "key")]);
    let config = AwsClientConfig::for_s3(EnvReader::BlobPut, &e, &none).unwrap();
    assert_eq!(config.access_key_id.as_deref(), Some("id"));
    assert!(!config.force_path_style);
    let applied = config.apply_process_env(EnvReader::BlobPut);
    assert!(has(&applied, "AWS_ACCESS_KEY_ID", "id"));
    let half = experiment(&[("AWS_ACCESS_KEY_ID", "id")]);
    assert_eq!(
        AwsClientConfig::for_dynamodb(EnvReader::BlobPut, &half, &none).unwrap_err(),
        "AWS config requires both access key id and secret access key when either is set"
    );
    let map = to_native_map(EnvReader::BlobPut, &config);
    assert!(map.iter().any(|f| f.key == "aws_access_key_id"
        && matches!(&f.value, NativeValue::Text(t) if t == "id")));
    assert!(map.iter().any(|f| f.key == "force_path_style"
        && matches!(f.value, NativeValue::Bool(false))));
}

#[test]
fn backends_have_names() {
    assert_eq!(normalize_backend(" LocalFS "), "local-file");
    assert_eq!(normalize_backend("S3"), "s3");
    assert_eq!(blob_backend("LOCAL-FILE").unwrap(), BlobBackend::LocalFile);
    assert_eq!(blob_backend("s3").unwrap(), BlobBackend::S3);
    assert_eq!(blob_backend("p2p").unwrap(), BlobBackend::P2p);
    assert!(blob_backend("tape").is_err());
    assert_eq!(metadata_backend("dynamodb").unwrap(), MetadataBackend::DynamoDb);
    assert!(metadata_backend("tape").is_err());
    assert_eq!(BlobBackend::S3.name(), "s3");
}

#[test]
fn local_stores_have_directories() {
    let none: Option<String> = None;
    assert!(local_file_root(&none, "run").starts_with("run/"));
    assert_eq!(local_file_root(&Some("root".to_string()), "run"), "root");
    assert!(p2p_cache_dir(&none, "run").starts_with("run/"));
    let details = local_file_details(&Some("res".to_string()), "root");
    assert!(has(&details, "resource_dir", "res") && has(&details, "root_dir", "root"));
    assert!(has(&in_memory_details(&instance("a")), "instance_id", "a"));
}

#[test]
fn s3_stores_are_planned() {
    let none = entries(&[]);
    let e = experiment(&[("S3_BUCKET_PREFIX", "My Bucket")]);
    let plan = plan_s3_store(
        EnvReader::BlobPut,
        &e,
        &none,
        "run-1-a-ff",
        "a",
        &Some("res".to_string()),
    )
    .unwrap();
    assert_eq!(plan.bucket, "my-bucket-run-1-a-ff");
    assert_eq!(plan.key_prefix, "run-1/a");
    assert!(has(&plan.details, "bucket", "my-bucket-run-1-a-ff"));
    let missing = plan_s3_store(EnvReader::BlobPut, &experiment(&[]), &none, "r", "a", &None);
    assert!(missing.unwrap_err().contains("is required; set one of LC_BENCH_S3_BUCKET_PREFIX"));
    assert_eq!(location_constraint(&Some("us-east-1".to_string())), None);
    assert_eq!(
        location_constraint(&Some("eu-west-1".to_string())).as_deref(),
        Some("eu-west-1")
    );
}

#[test]
fn p2p_stores_are_planned() {
    let none = entries(&[]);
    let e = experiment(&[
        ("P2P_TRACKER_TABLE_META", "meta"),
        ("P2P_TRACKER_TABLE_HOLDERS", "holders"),
        ("P2P_CREATE_TRACKER_TABLES", "no"),
    ]);
    let resource_dir = Some("res".to_string());
    let plan = plan_p2p_store(
        EnvReader::BlobPut,
        &instance("a"),
        &e,
        &none,
        "r1",
        "cache",
        None,
        &resource_dir,
    )
    .unwrap();
    assert_eq!(plan.blob_meta_table, "meta-r1");
    assert_eq!(plan.chunk_holders_table, "holders-r1");
    assert!(!plan.create_tables);
    assert_eq!(plan.init_wait_timeout_s, 20);
    assert_eq!(plan.bind_port, 18081);
    assert_eq!(plan.accel_probability, num(0.9));
    assert!(has(&plan.details, "holder_id", "a"));
}

#[test]
fn metadata_tables_are_planned() {
    let none = entries(&[]);
    let e = experiment(&[]);
    assert_eq!(
        metadata_table_prefix(EnvReader::MetadataExperiments, &e, &none),
        "lcbench-metadata"
    );
    let plan = metadata_sweep::plan_experiment_table(&instance("a"), &e, &none, "r1").unwrap();
    assert_eq!(plan.table_name, "lcbench-metadata-r1");
    assert!(plan.create_table && plan.cleanup_table);
    assert_eq!(plan.init_wait_timeout_s, 20);
    let off = experiment(&[("METADATA_CLEANUP_TABLE", "off"), ("DDB_CREATE_TABLE", "0")]);
    let plan = metadata_sweep::plan_experiment_table(&instance("a"), &off, &none, "r1").unwrap();
    assert!(!plan.create_table && !plan.cleanup_table);
    let bad = experiment(&[("METADATA_CREATE_TABLE", "perhaps")]);
    assert_eq!(
        metadata_sweep::plan_experiment_table(&instance("a"), &bad, &none, "r1").unwrap_err(),
        "failed to parse boolean env value \"perhaps\""
    );
    let node = plan_node_metadata_table(&instance("a"), &e, &none, "r1").unwrap();
    assert!(node.table_name.contains("r1"));
    assert!(node_table_name("p", "r").contains("p"));
    assert!(metadata_init_failed("t", "timeout").contains("timeout"));
}

#[test]
fn client_details_are_added() {
    let e = experiment(&[("AWS_REGION", "eu-west-1")]);
    let none = entries(&[]);
    let client =
        AwsClientConfig::for_dynamodb(EnvReader::MetadataExperiments, &e, &none).unwrap();
    let details = with_client_details(entries(&[("a", "0"), ("z", "1")]), &client);
    assert_eq!(details[1].key, "region");
    assert!(pairs(&details).contains(&("region".to_string(), "eu-west-1".to_string())));
}

#[test]
fn stores_may_need_the_experiment() {
    assert!(require_experiment(None, "S3 blob store").is_err());
    let e = experiment(&[]);
    assert_eq!(require_experiment(Some(&e), "S3 blob store").unwrap().run.run_id, "run-1");
}
