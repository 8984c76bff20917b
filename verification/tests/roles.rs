//! Who a node is, whom a client talks to, and what it says about it.
use lc_bench::binary64::Real;
use lc_bench::cli::BlobGetOptions;
use lc_bench::config::{InstanceConfig, InstancesConfig, RegistryConfig};
use lc_bench::protocol::{
    AcceptedResponse, ExperimentRunResult, HealthResponse, PollRequestResponse, RequestResult,
    RequestStatus,
};
use lc_bench::roles::{
    accepted_line, accepted_req_id, after_poll, blob_get_plan, blob_get_request, current_hostname,
    ensure_finished_result, finished_line, health_line, health_verdict, hostname_candidates,
    listen_addr, node_plan, progress_line, resolve_coordinator_id_without_experiment,
    resolve_node_instance_id, resolve_node_instance_id_from_hostname, rpc_addr, WaitStep,
};

fn instances(ids: &[&str]) -> InstancesConfig {
    InstancesConfig {
        registry: RegistryConfig { name: "test".to_string(), description: String::new() },
        instances: ids
            .iter()
            .map(|id| InstanceConfig {
                id: (*id).to_string(),
                rpc_addr: format!("{id}:19000"),
                rpc_listen_addr: None,
                p2p_advertise_endpoint: format!("http://{id}:18080"),
                work_dir: format!(".bench/{id}"),
                capabilities: Vec::new(),
                labels: Vec::new(),
            })
            .collect(),
    }
}

fn some(s: &str) -> Option<String> {
    Some(s.to_string())
}

#[test]
fn hostname_candidates_try_full_then_short_name() {
    assert_eq!(
        hostname_candidates("node0.example.cloudlab."),
        vec!["node0.example.cloudlab".to_string(), "node0".to_string()]
    );
    assert_eq!(hostname_candidates("node0"), vec!["node0".to_string()]);
}

#[test]
fn resolves_instance_from_full_hostname() {
    let instances = instances(&["node0.example.cloudlab", "node0"]);
    let resolved =
        resolve_node_instance_id_from_hostname(&instances, "node0.example.cloudlab").unwrap();

    assert_eq!(resolved.as_deref(), Some("node0.example.cloudlab"));
}

#[test]
fn resolves_instance_from_short_hostname_when_full_is_absent() {
    let instances = instances(&["node0", "node1"]);
    let resolved =
        resolve_node_instance_id_from_hostname(&instances, "node0.example.cloudlab").unwrap();

    assert_eq!(resolved.as_deref(), Some("node0"));
}

#[test]
fn unknown_host_resolves_to_none() {
    let instances = instances(&["node0"]);
    assert_eq!(resolve_node_instance_id_from_hostname(&instances, "other").unwrap(), None);
}

#[test]
fn node_id_is_explicit_or_from_the_environment_or_the_host() {
    let instances = instances(&["a", "b"]);
    let host: Result<String, String> = Ok("b.lan".to_string());
    assert_eq!(
        resolve_node_instance_id(&instances, &some("a"), &some("b"), &host).unwrap(),
        "a"
    );
    assert_eq!(resolve_node_instance_id(&instances, &None, &some("b"), &host).unwrap(), "b");
    assert_eq!(resolve_node_instance_id(&instances, &None, &None, &host).unwrap(), "b");
    let nowhere: Result<String, String> = Ok("c".to_string());
    assert!(resolve_node_instance_id(&instances, &None, &None, &nowhere).is_err());
    assert_eq!(node_plan(&instances, &some("a"), &None, &host).unwrap(), "a");
    assert!(node_plan(&instances, &some("zz"), &None, &host).is_err());
}

#[test]
fn hostname_falls_back_on_the_environment() {
    let broken: Result<String, String> = Err("no command".to_string());
    assert_eq!(current_hostname(&Ok("h1".to_string()), &None, &None).unwrap(), "h1");
    assert_eq!(current_hostname(&broken, &some("h2"), &some("h3")).unwrap(), "h2");
    assert_eq!(current_hostname(&broken, &None, &some("h3")).unwrap(), "h3");
    assert!(current_hostname(&broken, &None, &None).is_err());
}

#[test]
fn coordinator_is_named_or_the_only_one() {
    let two = instances(&["a", "b"]);
    assert_eq!(
        resolve_coordinator_id_without_experiment(&two, &some("b"), &None).unwrap(),
        "b"
    );
    assert_eq!(
        resolve_coordinator_id_without_experiment(&two, &None, &some("a")).unwrap(),
        "a"
    );
}

#[test]
fn blob_get_requests_carry_their_options() {
    let options = BlobGetOptions {
        coordinator_id: some("a"),
        peer_instance_id: "b".to_string(),
        run_id: "r".to_string(),
        count: 3,
        object_size_bytes: 64,
        blob_store_backend: "local-file".to_string(),
        cleanup: true,
    };
    let two = instances(&["a", "b"]);
    assert_eq!(blob_get_plan(&two, &options, &None).unwrap(), "a");
    let request = blob_get_request(options);
    assert_eq!(request.peer_instance_id, "b");
    assert_eq!(request.count, 3);
    assert_eq!(request.barrier_timeout_ms, 30_000);
    assert!(request.cleanup);
}

#[test]
fn rpc_addresses_may_name_their_scheme() {
    assert_eq!(rpc_addr(" tarpc://127.0.0.1:19000 ").unwrap(), "127.0.0.1:19000");
    assert_eq!(rpc_addr("tcp://[::1]:1").unwrap(), "[::1]:1");
    assert_eq!(rpc_addr("node-0:19000").unwrap(), "node-0:19000");
    assert_eq!(
        rpc_addr("http://x:1").unwrap_err(),
        "unsupported RPC address scheme in http://x:1; tarpc RPC addresses should look like 127.0.0.1:19000"
    );
}

#[test]
fn nodes_listen_where_they_are_told() {
    let mut instance = instances(&["a"]).instances.remove(0);
    assert_eq!(listen_addr(&instance), "a:19000");
    instance.rpc_listen_addr = some("0.0.0.0:19000");
    assert_eq!(listen_addr(&instance), "0.0.0.0:19000");
}

#[test]
fn health_is_told_in_a_line() {
    let response = HealthResponse {
        ok: true,
        instance_id: "a".to_string(),
        node_status: "idle".to_string(),
        current_run_id: None,
        generation: 4,
    };
    let line = health_line(&response);
    assert!(line.contains("a") && line.contains("idle") && line.contains("4"));
    assert!(health_verdict(&response, "a:1").is_ok());
    let sick = HealthResponse { ok: false, ..response };
    assert!(health_verdict(&sick, "a:1").is_err());
}

fn accepted(ok: bool, req_id: Option<&str>) -> AcceptedResponse {
    AcceptedResponse {
        ok,
        instance_id: "a".to_string(),
        run_id: "r".to_string(),
        req_id: req_id.map(|s| s.to_string()),
        message: "accepted".to_string(),
    }
}

#[test]
fn accepted_requests_have_an_id() {
    assert_eq!(accepted_req_id("t", &accepted(true, Some("q-1"))).unwrap(), "q-1");
    assert!(accepted_req_id("t", &accepted(true, None)).is_err());
    assert!(accepted_req_id("t", &accepted(false, Some("q-1"))).is_err());
    assert!(accepted_line("t", &accepted(true, Some("q-1")), "q-1").contains("q-1"));
    assert!(progress_line("t", "r", "q-1").contains("q-1"));
}

fn poll(status: RequestStatus, result: Option<RequestResult>) -> PollRequestResponse {
    PollRequestResponse {
        ok: true,
        instance_id: "a".to_string(),
        run_id: Some("r".to_string()),
        req_id: "q-1".to_string(),
        status,
        ready: false,
        result,
        message: "because".to_string(),
    }
}

fn outcome() -> ExperimentRunResult {
    ExperimentRunResult {
        coordinator_id: "a".to_string(),
        run_id: "r".to_string(),
        message: "done".to_string(),
    }
}

#[test]
fn waiting_ends_with_a_result_or_an_error() {
    match after_poll("t", "q-1", poll(RequestStatus::Running, None), 6_000).unwrap() {
        WaitStep::Sleep { show_progress } => assert!(show_progress),
        WaitStep::Finished(_) => panic!("not finished yet"),
    }
    match after_poll("t", "q-1", poll(RequestStatus::Running, None), 100).unwrap() {
        WaitStep::Sleep { show_progress } => assert!(!show_progress),
        WaitStep::Finished(_) => panic!("not finished yet"),
    }
    let done = poll(RequestStatus::Finished, Some(RequestResult::Experiment(outcome())));
    match after_poll("t", "q-1", done, 0).unwrap() {
        WaitStep::Finished(result) => assert_eq!(result.message, "done"),
        WaitStep::Sleep { .. } => panic!("finished"),
    }
    assert!(after_poll("t", "q-1", poll(RequestStatus::Failed, None), 0)
        .unwrap_err()
        .contains("because"));
    assert!(after_poll("t", "q-1", poll(RequestStatus::Missing, None), 0).is_err());
    assert!(finished_line(&outcome(), "q-1", true).contains("done"));
    assert!(!finished_line(&outcome(), "q-1", false).contains("done"));
}

#[test]
fn finished_requests_must_carry_a_result() {
    let result = Some(RequestResult::Experiment(outcome()));
    assert!(matches!(
        ensure_finished_result("t", "q-1", RequestStatus::Finished, result, "m"),
        Ok(Some(RequestResult::Experiment(_)))
    ));
    assert!(matches!(
        ensure_finished_result("t", "q-1", RequestStatus::Running, None, "m"),
        Ok(None)
    ));
    assert!(ensure_finished_result("t", "q-1", RequestStatus::Finished, None, "m").is_err());
    assert!(ensure_finished_result("t", "q-1", RequestStatus::Failed, None, "m").is_err());
}

#[test]
fn zero_is_zero() {
    assert_eq!(Real::zero(), Real { bits: 0f64.to_bits() });
    assert_eq!(Real::one(), Real { bits: 1f64.to_bits() });
}
