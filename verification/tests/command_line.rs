//! The command line.
use lc_bench::binary64::Real;
use lc_bench::cli::{
    parse_size, parse_u64, parse_usize, usage, Arg, BenchCommand, BenchConfig, Invocation,
    InvocationCommand,
};

fn args(words: &[&str]) -> Vec<Arg> {
    words
        .iter()
        .map(|w| Arg {
            text: w.to_string(),
            number: w.parse::<f64>().ok().map(|x| Real { bits: x.to_bits() }),
        })
        .collect()
}

fn parse(words: &[&str]) -> Result<Invocation, String> {
    Invocation::parse(&args(words))
}

fn error(words: &[&str]) -> String {
    parse(words).unwrap_err()
}

#[test]
fn nothing_and_help_ask_for_help() {
    for words in [&[][..], &["help"][..], &["-h"][..], &["--help"][..], &["node", "-h"][..]] {
        assert!(matches!(parse(words).unwrap().command, InvocationCommand::Help));
    }
}

#[test]
fn workloads_have_defaults() {
    let invocation = parse(&["blob"]).unwrap();
    assert!(matches!(
        invocation.command,
        InvocationCommand::Workload(BenchCommand::Blob)
    ));
    let config = invocation.bench_config;
    let default = BenchConfig::default();
    assert_eq!(config.backend, "inmemory");
    assert_eq!(config.operations, 10_000);
    assert_eq!(config.concurrency, 1);
    assert_eq!(config.object_size_bytes, 1 << 20);
    assert_eq!(config.warmup_operations, 1_000);
    assert_eq!(config.offered_rate_per_s, None);
    assert_eq!(config.output, None);
    assert_eq!(config.seed, default.seed);
    assert_eq!(invocation.config_paths.experiment, "config/local-experiment.toml");
    assert_eq!(invocation.config_paths.instances, "config/instances/local-two.toml");
}

#[test]
fn workloads_take_options() {
    let config = parse(&[
        "sender",
        "--backend",
        "p2p",
        "--operations",
        "5",
        "--concurrency",
        "2",
        "--object-size",
        "64KiB",
        "--warmup",
        "0",
        "--rate",
        "1.5",
        "--output",
        "o.json",
        "--seed",
        "9",
    ])
    .unwrap()
    .bench_config;
    assert_eq!(config.backend, "p2p");
    assert_eq!(config.operations, 5);
    assert_eq!(config.concurrency, 2);
    assert_eq!(config.object_size_bytes, 65_536);
    assert_eq!(config.warmup_operations, 0);
    assert_eq!(config.offered_rate_per_s, Some(Real { bits: 1.5f64.to_bits() }));
    assert_eq!(config.output.as_deref(), Some("o.json"));
    assert_eq!(config.seed, 9);
}

#[test]
fn workload_options_are_checked() {
    assert_eq!(error(&["blob", "--concurrency", "0"]), "--concurrency must be greater than zero");
    assert_eq!(error(&["blob", "--operations", "0"]), "--operations must be greater than zero");
    assert_eq!(error(&["blob", "--rate", "0"]), "--rate must be greater than zero");
    assert_eq!(
        error(&["blob", "--rate", "fast"]),
        "--rate must be a positive number, got fast"
    );
    assert_eq!(error(&["blob", "--seed"]), "expected value after --seed");
    assert_eq!(error(&["blob", "--what"]), "unknown option: --what");
    assert_eq!(error(&["bob"]), "unknown benchmark command: bob");
    assert_eq!(
        error(&["blob", "--operations", "-1"]),
        "--operations must be an unsigned integer, got -1"
    );
}

#[test]
fn nodes_and_their_aliases() {
    for name in ["node", "agent"] {
        let invocation =
            parse(&[name, "--instance-id", "a", "--instances", "i.toml"]).unwrap();
        match invocation.command {
            InvocationCommand::Node(options) => {
                assert_eq!(options.instance_id.as_deref(), Some("a"))
            }
            _ => panic!("a node"),
        }
        assert_eq!(invocation.config_paths.instances, "i.toml");
    }
    assert_eq!(
        error(&["node", "--experiment", "e"]),
        "node does not read --experiment; submit experiments through proxy or trigger"
    );
    assert_eq!(error(&["agent", "--url", "x"]), "unknown node option: --url");
}

#[test]
fn triggers_proxies_and_health_checks() {
    match parse(&["client", "--coordinator-id", "a"]).unwrap().command {
        InvocationCommand::Trigger(options) => {
            assert_eq!(options.coordinator_id.as_deref(), Some("a"))
        }
        _ => panic!("a trigger"),
    }
    assert_eq!(error(&["trigger", "--x"]), "unknown trigger option: --x");
    match parse(&["proxy", "--rpc-addr", "h:1", "--csv-output", "o.csv"]).unwrap().command {
        InvocationCommand::Proxy(options) => {
            assert_eq!(options.rpc_addr, "h:1");
            assert_eq!(options.csv_output.as_deref(), Some("o.csv"));
        }
        _ => panic!("a proxy"),
    }
    assert_eq!(error(&["proxy"]), "proxy requires --url <rpc-addr>");
    assert_eq!(
        error(&["proxy", "--instances", "i"]),
        "proxy does not read --instances; the target node uses its startup instance list"
    );
    match parse(&["health", "--url", "h:1"]).unwrap().command {
        InvocationCommand::Health(options) => assert_eq!(options.rpc_addr, "h:1"),
        _ => panic!("a health check"),
    }
    assert_eq!(error(&["health"]), "health requires --url <rpc-addr>");
}

#[test]
fn blob_gets_have_defaults_and_checks() {
    match parse(&["blob-get", "--peer", "b"]).unwrap().command {
        InvocationCommand::BlobGet(options) => {
            assert_eq!(options.peer_instance_id, "b");
            assert_eq!(options.run_id, "blob-get-direct");
            assert_eq!(options.count, 10);
            assert_eq!(options.object_size_bytes, 65_536);
            assert_eq!(options.blob_store_backend, "local-file");
            assert!(options.cleanup);
        }
        _ => panic!("a blob get"),
    }
    match parse(&["blob-get", "--peer", "b", "--no-cleanup", "--count", "3"]).unwrap().command {
        InvocationCommand::BlobGet(options) => {
            assert!(!options.cleanup);
            assert_eq!(options.count, 3);
        }
        _ => panic!("a blob get"),
    }
    assert_eq!(error(&["blob-get"]), "blob-get requires --peer <id>");
    assert_eq!(
        error(&["blob-get", "--peer", "b", "--count", "0"]),
        "--count must be greater than zero"
    );
    assert_eq!(
        error(&["blob-get", "--peer", "b", "--object-size", "0"]),
        "--object-size must be greater than zero"
    );
    assert_eq!(
        error(&["blob-get", "--experiment", "e"]),
        "blob-get does not read --experiment; use --run-id/--count/--backend directly"
    );
}

#[test]
fn sizes_have_units() {
    assert_eq!(parse_size("12", "-s").unwrap(), 12);
    assert_eq!(parse_size(" 2 KiB ", "-s").unwrap(), 2048);
    assert_eq!(parse_size("3MIB", "-s").unwrap(), 3 << 20);
    assert_eq!(parse_size("1gib", "-s").unwrap(), 1 << 30);
    assert_eq!(parse_size("4kb", "-s").unwrap(), 4_000);
    assert_eq!(parse_size("5MB", "-s").unwrap(), 5_000_000);
    assert_eq!(parse_size("6Gb", "-s").unwrap(), 6_000_000_000);
    assert_eq!(
        parse_size("x", "-s").unwrap_err(),
        "-s must be a byte count or size like 64MiB, got x"
    );
    assert_eq!(
        parse_size("99999999999999GiB", "-s").unwrap_err(),
        "-s is too large: 99999999999999GiB"
    );
}

#[test]
fn numbers_are_parsed() {
    assert_eq!(parse_u64("18446744073709551615", "-n").unwrap(), u64::MAX);
    assert_eq!(parse_u64("+7", "-n").unwrap(), 7);
    assert!(parse_u64("18446744073709551616", "-n").is_err());
    assert!(parse_usize("", "-n").is_err());
    assert_eq!(
        parse_usize("1 ", "-n").unwrap_err(),
        "-n must be an unsigned integer, got 1 "
    );
}

#[test]
fn usage_names_every_command() {
    for word in ["node", "trigger", "proxy", "health", "blob-get", "--csv <path>"] {
        assert!(usage().contains(word));
    }
    let bare = parse(&["metadata"]).unwrap();
    let d = &bare.bench_config;
    assert_eq!(d.object_size_bytes, parse_size("1MiB", "--object-size").unwrap());
    for line in [
        format!("  --backend <name>        Backend under test, default: {}\n", d.backend),
        format!("  --operations <n>        Measured operation count, default: {}\n", d.operations),
        format!("in-flight operations, default: {}\n", d.concurrency),
        "blob/channel workloads, default: 1MiB\n".to_string(),
        format!("Warmup operation count, default: {}\n", d.warmup_operations),
        format!("\n  --experiment {} ", bare.config_paths.experiment),
        format!("\n  --instances   {} ", bare.config_paths.instances),
    ] {
        assert!(usage().contains(&line), "{line}");
    }
    assert!(usage().starts_with("Usage:\n  lc-bench <metadata|blob|sender|receiver> [options]\n"));
}
