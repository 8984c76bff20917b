//! What a node keeps: its run, its resources and its requests.
use lc_bench::binary64::Real;
use lc_bench::config::{Entry, InstanceConfig};
use lc_bench::dispatch::{describe, health};
use lc_bench::latency::LatencySummary;
use lc_bench::native::{Json, JsonNumber};
use lc_bench::protocol::{
    BeginExprRequest, BlobPutRefsChunkRequest, BlobPutResult, CancelRequestRequest,
    ChannelReceiverResult, ChannelReceiverSamplesChunkRequest, ExperimentRunResult,
    InitReceiverRequest, InitSenderRequest, PacedBlobGetRequest, PollExprRequest,
    PollRequestRequest, PrepareBlobGetAppendRequest, PrepareBlobGetBeginRequest,
    PrepareBlobGetFinishRequest, PutBlobBatchRequest, RequestResult, RequestStatus,
    ResetExprRequest, StartPreparedBlobGetRequest,
};
use lc_bench::requests::RequestKind;
use lc_bench::resources::{
    channel_blob_backend, channel_metadata_backend, parse_consume_mode, resource_id_or_run,
    BlobStoreStep, ConsumeMode,
};
use lc_bench::staging::{
    batch_dir, check_paced_get, check_put_batch, cleanup_payloads_after_put, fetched_path,
    materialized_path, materialized_paths, payload_path, put_failed, put_total_bytes, total_size,
    unique_batch_id, wait_ns, GetBatch, PutBatch,
};
use lc_bench::state::{
    close_outcome, close_store_outcome, current_expr, join_errors, response_to_result,
    BlobStoreResource, MetadataStoreResource, NodeRuntimeState, PreparedPacedBlobGet,
    ReceiverResource, RunStep, SenderResource,
};

fn num(x: f64) -> Real {
    Real { bits: x.to_bits() }
}

fn begin(run_id: &str, force_reset: bool) -> BeginExprRequest {
    BeginExprRequest { run_id: run_id.to_string(), force_reset }
}

fn reset(run_id: &str, force_reset: bool) -> ResetExprRequest {
    ResetExprRequest { run_id: run_id.to_string(), force_reset }
}

fn started(run_id: &str) -> NodeRuntimeState {
    let mut node = NodeRuntimeState::new();
    assert!(matches!(node.begin_expr(&begin(run_id, false)), RunStep::Replace(None)));
    node.install_expr(run_id.to_string(), "dir".to_string());
    node
}

fn store(handle: u64) -> BlobStoreResource {
    BlobStoreResource {
        backend: "local-file".to_string(),
        root_dir: Some("root".to_string()),
        handle,
    }
}

fn metadata(handle: u64) -> MetadataStoreResource {
    MetadataStoreResource { backend: "inmemory".to_string(), details: Vec::new(), handle }
}

fn whole(n: i64) -> Json {
    Json::Number(JsonNumber::Int(n))
}

#[test]
fn one_run_at_a_time() {
    let mut node = started("r1");
    assert_eq!(node.node_status(), "started");
    assert_eq!(node.run_id().as_deref(), Some("r1"));
    assert_eq!(node.generation, 1);
    assert!(current_expr(&node, "r1").is_ok());
    assert_eq!(
        current_expr(&node, "r2").unwrap_err(),
        "node is running run_id=r1; request used run_id=r2"
    );
    assert!(matches!(node.begin_expr(&begin("r1", false)), RunStep::Done));
    match node.begin_expr(&begin("r2", false)) {
        RunStep::Refused(m) => {
            assert_eq!(m, "node is running run_id=r1; begin_expr requested run_id=r2")
        }
        _ => panic!("refused"),
    }
    match node.begin_expr(&begin(" ", true)) {
        RunStep::Refused(m) => assert_eq!(m, "run_id must not be empty"),
        _ => panic!("refused"),
    }
    match node.begin_expr(&begin("r2", true)) {
        RunStep::Replace(Some(old)) => assert_eq!(old.run_id, "r1"),
        _ => panic!("replaced"),
    }
    assert_eq!(current_expr(&node, "r1").unwrap_err(), "node has no active expr");
}

#[test]
fn runs_are_reset() {
    let mut node = NodeRuntimeState::new();
    assert!(matches!(node.reset_expr(&reset("r1", false)), RunStep::Done));
    let mut node = {
        drop(node);
        started("r1")
    };
    match node.reset_expr(&reset("r2", false)) {
        RunStep::Refused(m) => {
            assert_eq!(m, "node is running run_id=r1; refused reset for run_id=r2")
        }
        _ => panic!("refused"),
    }
    assert!(matches!(node.reset_expr(&reset("r2", true)), RunStep::Replace(Some(_))));
    node.finish_reset();
    assert_eq!(node.generation, 2);
    assert_eq!(node.node_status(), "idle");
    assert!(matches!(node.reset_expr(&reset("r2", true)), RunStep::Done));
}

#[test]
fn actions_are_answered() {
    let node = started("r1");
    let fine = node.action_response("a", Ok(()));
    assert!(fine.ok);
    assert_eq!(fine.message, "ok");
    assert_eq!(fine.phase, "started");
    assert!(response_to_result(fine).is_ok());
    let bad = node.action_response("a", Err("no".to_string()));
    assert_eq!(response_to_result(bad).unwrap_err(), "no");
}

#[test]
fn nodes_tell_about_themselves() {
    let instance = InstanceConfig {
        id: "a".to_string(),
        rpc_addr: "a:1".to_string(),
        rpc_listen_addr: None,
        p2p_advertise_endpoint: "http://a:2".to_string(),
        work_dir: "w".to_string(),
        capabilities: vec!["s3".to_string()],
        labels: Vec::new(),
    };
    let response = health(&instance, &started("r1"));
    assert!(response.ok);
    assert_eq!(response.current_run_id.as_deref(), Some("r1"));
    assert_eq!(response.node_status, "started");
    assert_eq!(health(&instance, &NodeRuntimeState::new()).node_status, "idle");
    let description = describe(&instance);
    assert_eq!(description.capabilities, vec!["s3".to_string()]);
    assert_eq!(description.p2p_advertise_endpoint, "http://a:2");
}

#[test]
fn closing_collects_errors() {
    let none: Option<String> = None;
    assert!(close_outcome("d", &none, &none, &none, &none).is_ok());
    let broken = Some("x".to_string());
    assert!(close_outcome("d", &broken, &none, &broken, &none).unwrap_err().contains("; "));
    assert!(close_store_outcome("r", "root", &none, &broken)
        .unwrap_err()
        .contains("failed to remove blob store resource dir root: x"));
    assert!(join_errors(&Vec::new()).is_ok());
}

#[test]
fn blob_stores_are_installed_once() {
    let mut node = started("r1");
    match node.take_blob_store("r1", false).unwrap() {
        BlobStoreStep::Open { run_dir, old } => {
            assert_eq!(run_dir, "dir");
            assert!(old.is_none());
        }
        BlobStoreStep::AlreadyOpen => panic!("not open yet"),
    }
    let details = vec![Entry { key: "root_dir".to_string(), value: "root".to_string() }];
    node.install_blob_store("r1", store(7), &details).unwrap();
    assert_eq!(node.node_status(), "blob_store_ready");
    assert_eq!(node.blob_store_of("r1", "put_blob_batch").unwrap().handle, 7);
    assert_eq!(node.run_dir_of("r1").unwrap(), "dir");
    assert!(matches!(node.take_blob_store("r1", false).unwrap(), BlobStoreStep::AlreadyOpen));
    match node.take_blob_store("r1", true).unwrap() {
        BlobStoreStep::Open { old, .. } => assert_eq!(old.unwrap().handle, 7),
        BlobStoreStep::AlreadyOpen => panic!("forced"),
    }
    assert!(node.blob_store_of("r1", "put_blob_batch").is_err());
    assert!(node.take_blob_store("r2", false).is_err());
}

fn sender_request() -> InitSenderRequest {
    InitSenderRequest {
        run_id: "r1".to_string(),
        channel_id: "c".to_string(),
        backend: None,
        root_dir: None,
        reopen: false,
        recover: false,
        force_reinit: false,
        metadata_backend: None,
        experiment: None,
        resource_id: None,
        create_remote_resources: false,
    }
}

fn receiver_request() -> InitReceiverRequest {
    InitReceiverRequest {
        run_id: "r1".to_string(),
        channel_id: "c".to_string(),
        consumer_id: "me".to_string(),
        backend: None,
        root_dir: None,
        start_seq: 0,
        consume_mode: "fanout".to_string(),
        passive_mode: false,
        force_reinit: false,
        metadata_backend: None,
        experiment: None,
        resource_id: None,
        create_remote_resources: false,
    }
}

#[test]
fn channel_ends_are_installed() {
    let mut node = started("r1");
    node.install_metadata_store("r1", metadata(3), false).unwrap();
    assert!(node.sender_wanted(&sender_request()).unwrap());
    let sender = SenderResource {
        channel_id: "c".to_string(),
        handle: 8,
        blob_store: store(1),
        metadata_store: metadata(2),
    };
    node.install_sender("r1", sender).unwrap();
    assert_eq!(node.sender_of("r1").unwrap(), 8);
    assert!(!node.sender_wanted(&sender_request()).unwrap());
    let (wanted, mode) = node.receiver_wanted(&receiver_request()).unwrap();
    assert!(wanted);
    assert_eq!(mode, ConsumeMode::Fanout);
    let receiver = ReceiverResource {
        channel_id: "c".to_string(),
        consumer_id: "me".to_string(),
        handle: 9,
        blob_store: store(1),
        metadata_store: metadata(2),
    };
    node.install_receiver("r1", receiver).unwrap();
    assert_eq!(node.receiver_of("r1").unwrap(), 9);
    node.record_channel_send("r1", "payloads", num(10.0)).unwrap();
    node.record_channel_receiver("r1", "out", num(2.0)).unwrap();
    let poll = node.poll_expr("a", &PollExprRequest { run_id: "r1".to_string() });
    assert!(poll.ok);
    assert!(poll.resources.sender.is_some() && poll.resources.receiver.is_some());
    assert!(!poll.metrics.is_empty());
    let keys: Vec<String> = poll.artifacts.iter().map(|a| a.key.clone()).collect();
    let mut ordered = keys.clone();
    ordered.sort();
    assert_eq!(keys, ordered);
    let other = node.poll_expr("a", &PollExprRequest { run_id: "r2".to_string() });
    assert!(!other.ok);
}

#[test]
fn channel_settings_have_defaults() {
    assert_eq!(parse_consume_mode("fanout").unwrap(), ConsumeMode::Fanout);
    assert_eq!(parse_consume_mode("competitive").unwrap(), ConsumeMode::Competitive);
    assert!(parse_consume_mode("both").is_err());
    let none: Option<String> = None;
    assert_eq!(resource_id_or_run(&none, "r1"), "r1");
    assert_eq!(resource_id_or_run(&Some("x".to_string()), "r1"), "x");
    assert_eq!(
        channel_blob_backend(&Some("s3".to_string()), &None).unwrap(),
        "s3"
    );
    assert_eq!(channel_metadata_backend(&Some("dynamodb".to_string()), &None), "dynamodb");
}

fn poll(req_id: &str, include_result: bool) -> PollRequestRequest {
    PollRequestRequest {
        run_id: "r1".to_string(),
        req_id: req_id.to_string(),
        include_result,
    }
}

#[test]
fn requests_are_polled_until_settled() {
    let mut node = started("r1");
    let accepted = node.create_request("a", "r1", RequestKind::BlobPut.name());
    assert!(accepted.ok);
    assert_eq!(accepted.req_id.as_deref(), Some("blob-put-000001"));
    let id = accepted.req_id.unwrap();
    assert_eq!(node.poll_request("a", &poll(&id, true)).status, RequestStatus::Running);
    node.mark_request_ready("r1", &id).unwrap();
    assert!(node.poll_request("a", &poll(&id, false)).ready);
    let result = BlobPutResult::of(vec![whole(1), whole(2), whole(3)], 30, num(1.0));
    node.settle_request(RequestKind::BlobPut, "r1", &id, Ok(RequestResult::BlobPut(result)))
        .unwrap();
    let response = node.poll_request("a", &poll(&id, true));
    assert_eq!(response.status, RequestStatus::Finished);
    match response.result {
        Some(RequestResult::BlobPut(r)) => assert_eq!((r.count, r.refs.len()), (3, 3)),
        _ => panic!("a put result"),
    }
    let missing = node.poll_request("a", &poll("nope", true));
    assert_eq!(missing.status, RequestStatus::Missing);
    assert!(missing.ok);
    assert_eq!(missing.message, "unknown request id");
}

#[test]
fn failed_requests_say_why() {
    let mut node = started("r1");
    let id = node.create_request("a", "r1", "blob-get").req_id.unwrap();
    node.settle_request(RequestKind::BlobGet, "r1", &id, Err("lost".to_string())).unwrap();
    let response = node.poll_request("a", &poll(&id, true));
    assert_eq!(response.status, RequestStatus::Failed);
    assert_eq!(response.message, "lost");
    assert!(response.result.is_none());
    let unknown = node
        .settle_request(RequestKind::BlobGet, "r1", "blob-get-000009", Err("x".to_string()))
        .unwrap_err();
    assert!(unknown.starts_with("failed to fail blob get request blob-get-000009: "));
    let experiment = RequestResult::Experiment(ExperimentRunResult {
        coordinator_id: "a".to_string(),
        run_id: "r1".to_string(),
        message: "m".to_string(),
    });
    let unknown = node
        .settle_request(RequestKind::Experiment, "r1", "x", Ok(experiment))
        .unwrap_err();
    assert!(unknown.starts_with("failed to finish experiment request x: "));
}

#[test]
fn requests_are_cancelled_and_listed() {
    let mut node = started("r1");
    let first = node.create_request("a", "r1", "channel-receiver").req_id.unwrap();
    let second = node.create_request("a", "r1", "channel-send").req_id.unwrap();
    assert_ne!(first, second);
    assert!(!node.request_cancel_flag("r1", &first).unwrap());
    node.cancel_request(&CancelRequestRequest { run_id: "r1".to_string(), req_id: first.clone() })
        .unwrap();
    assert!(node.request_cancel_flag("r1", &first).unwrap());
    assert!(!node.request_cancel_flag("r1", &second).unwrap());
    let summaries = node.request_summaries_for_run("r1");
    assert_eq!(summaries.len(), 2);
    assert!(node.request_summaries_for_run("r2").is_empty());
    assert!(node.request_cancel_flag("r1", "x").is_err());
}

#[test]
fn put_references_come_in_chunks() {
    let mut node = started("r1");
    let id = node.create_request("a", "r1", "blob-put").req_id.unwrap();
    let refs: Vec<Json> = (0..5).map(whole).collect();
    node.finish_request("r1", &id, RequestResult::BlobPut(BlobPutResult::of(refs, 5, num(1.0))))
        .unwrap();
    let ask = |offset: usize, limit: usize| BlobPutRefsChunkRequest {
        run_id: "r1".to_string(),
        req_id: id.clone(),
        offset,
        limit,
    };
    let first = node.blob_put_refs_chunk("a", &ask(0, 3), "");
    assert!(first.ok && first.has_more);
    assert_eq!((first.count, first.refs.len()), (5, 3));
    let last = node.blob_put_refs_chunk("a", &ask(3, 3), "");
    assert!(last.ok && !last.has_more);
    assert_eq!(last.refs.len(), 2);
    assert!(matches!(last.refs[1], Json::Number(JsonNumber::Int(4))));
    assert!(!node.blob_put_refs_chunk("a", &ask(0, 0), "").ok);
}

fn received(samples: usize) -> ChannelReceiverResult {
    ChannelReceiverResult {
        delivered_count: samples,
        delivered_bytes: 1,
        empty_polls: 0,
        transient_poll_errors: 0,
        timed_out: false,
        cancelled: false,
        eof_seq: None,
        eof_elapsed_ms: None,
        elapsed_ms: num(1.0),
        started_unix_ns: 0,
        finished_unix_ns: 1,
        materialized_dir: "d".to_string(),
        poll_target_ops_per_s: num(1.0),
        poll_concurrency: 1,
        materialize_concurrency: 1,
        delivery_latency: LatencySummary::default(),
        materialize_latency: LatencySummary::default(),
        delivery_latency_samples_ms: (0..samples).map(|i| num(i as f64)).collect(),
        materialize_latency_samples_ms: (0..samples).map(|i| num(i as f64)).collect(),
        failure_messages: Vec::new(),
    }
}

#[test]
fn receiver_samples_come_in_chunks() {
    let mut node = started("r1");
    let id = node.create_request("a", "r1", "channel-receiver").req_id.unwrap();
    node.finish_request("r1", &id, RequestResult::ChannelReceiver(received(4))).unwrap();
    // A poll hands out the result without its samples.
    match node.poll_request("a", &poll(&id, true)).result {
        Some(RequestResult::ChannelReceiver(r)) => {
            assert_eq!(r.delivered_count, 4);
            assert!(r.delivery_latency_samples_ms.is_empty());
        }
        _ => panic!("a receiver result"),
    }
    let ask = |offset: usize| ChannelReceiverSamplesChunkRequest {
        run_id: "r1".to_string(),
        req_id: id.clone(),
        offset,
        limit: 3,
    };
    let first = node.channel_receiver_samples_chunk("a", &ask(0), "");
    assert!(first.ok && first.has_more);
    assert_eq!(first.delivery_count, 4);
    assert_eq!(first.delivery_latency_samples_ms, vec![num(0.0), num(1.0), num(2.0)]);
    let last = node.channel_receiver_samples_chunk("a", &ask(3), "");
    assert!(!last.has_more);
    assert_eq!(last.materialize_latency_samples_ms, vec![num(3.0)]);
}

fn stage(expected: usize) -> PrepareBlobGetBeginRequest {
    PrepareBlobGetBeginRequest {
        run_id: "r1".to_string(),
        plan_id: "p".to_string(),
        expected_ref_count: expected,
        target_ops_per_s: num(5.0),
        max_in_flight: 2,
    }
}

fn chunk(index: u64, refs: Vec<Json>) -> PrepareBlobGetAppendRequest {
    PrepareBlobGetAppendRequest {
        run_id: "r1".to_string(),
        plan_id: "p".to_string(),
        chunk_index: index,
        refs,
    }
}

#[test]
fn gets_are_staged_in_chunks() {
    let mut node = started("r1");
    node.install_blob_store("r1", store(7), &Vec::new()).unwrap();
    node.prepare_blob_get_begin(stage(3)).unwrap();
    node.prepare_blob_get_append(chunk(0, vec![whole(1), whole(2)])).unwrap();
    assert_eq!(
        node.prepare_blob_get_append(chunk(0, vec![whole(3)])).unwrap_err(),
        "unexpected refs chunk_index=0 for plan_id=p, expected 1"
    );
    assert_eq!(
        node.prepare_blob_get_append(chunk(1, vec![whole(3), whole(4)])).unwrap_err(),
        "refs chunks for plan_id=p exceed expected_ref_count=3"
    );
    assert_eq!(
        node.prepare_blob_get_append(chunk(1, Vec::new())).unwrap_err(),
        "refs chunk must not be empty"
    );
    node.prepare_blob_get_append(chunk(1, vec![whole(3)])).unwrap();
    let finish =
        PrepareBlobGetFinishRequest { run_id: "r1".to_string(), plan_id: "p".to_string() };
    let taken = node.take_staging(&finish).unwrap();
    assert_eq!(taken.store, 7);
    assert_eq!(taken.staging.refs.len(), 3);
    assert_eq!(
        node.take_staging(&finish).unwrap_err(),
        "unknown paced get staging plan_id=p"
    );
    let plan = PreparedPacedBlobGet {
        plan_id: "p".to_string(),
        target_ops_per_s: num(5.0),
        max_in_flight: 2,
        refs_handle: 11,
        ref_count: 3,
        materialized_dir: "m".to_string(),
    };
    node.install_plan("r1", plan).unwrap();
    assert_eq!(node.node_status(), "blob_paced_get_ready");
    let start = StartPreparedBlobGetRequest {
        run_id: "r1".to_string(),
        plan_id: "p".to_string(),
        start_after_unix_ns: None,
    };
    assert_eq!(node.take_plan(&start).unwrap().refs_handle, 11);
    assert!(node.take_plan(&start).is_err());
}

#[test]
fn staging_is_checked() {
    let mut node = started("r1");
    let bad = PrepareBlobGetBeginRequest { plan_id: " ".to_string(), ..stage(3) };
    assert_eq!(node.prepare_blob_get_begin(bad).unwrap_err(), "plan_id must not be empty");
    assert_eq!(
        node.prepare_blob_get_begin(stage(0)).unwrap_err(),
        "expected_ref_count must be greater than zero"
    );
    let bad = PrepareBlobGetBeginRequest { target_ops_per_s: num(0.0), ..stage(3) };
    assert_eq!(
        node.prepare_blob_get_begin(bad).unwrap_err(),
        "target_ops_per_s must be a finite positive number"
    );
    let bad = PrepareBlobGetBeginRequest { max_in_flight: 0, ..stage(3) };
    assert_eq!(
        node.prepare_blob_get_begin(bad).unwrap_err(),
        "max_in_flight must be greater than zero"
    );
    node.prepare_blob_get_begin(stage(3)).unwrap();
    node.prepare_blob_get_append(chunk(0, vec![whole(1)])).unwrap();
    let finish =
        PrepareBlobGetFinishRequest { run_id: "r1".to_string(), plan_id: "p".to_string() };
    assert_eq!(
        node.take_staging(&finish).unwrap_err(),
        "prepare_blob_get_finish requires initialized blob_store state"
    );
    node.install_blob_store("r1", store(7), &Vec::new()).unwrap();
    assert_eq!(
        node.take_staging(&finish).unwrap_err(),
        "paced get plan_id=p received 1 refs, expected 3"
    );
}

#[test]
fn put_batches_keep_their_limit_and_order() {
    let mut batch = PutBatch::new(3, 2);
    assert_eq!(batch.start_next(), Some(0));
    assert_eq!(batch.start_next(), Some(1));
    assert_eq!(batch.start_next(), None);
    batch.complete(1, "p1".to_string(), 101);
    assert_eq!(batch.start_next(), Some(2));
    batch.complete(2, "p2".to_string(), 102);
    assert!(!batch.is_done());
    batch.complete(0, "p0".to_string(), 100);
    assert!(batch.is_done());
    let (refs, paths) = batch.finish().unwrap();
    assert_eq!(refs, vec![100, 101, 102]);
    assert_eq!(paths, vec!["p0", "p1", "p2"]);
    let mut batch = PutBatch::new(1, 1);
    batch.start_next();
    assert!(batch.finish().is_err());
}

#[test]
fn get_batches_have_a_file_for_every_reference() {
    let mut batch = GetBatch::new("d".to_string(), vec![40, 50]);
    let step = batch.next().unwrap();
    assert_eq!((step.index, step.reference), (0, 40));
    assert_eq!(step.path, fetched_path("d", 0));
    batch.fetched(Ok("d/0".to_string())).unwrap();
    assert_eq!(
        batch.fetched(Err("gone".to_string())).unwrap_err(),
        "failed to materialize blob 1: gone"
    );
    let step = batch.next().unwrap();
    assert_eq!((step.index, step.reference), (1, 50));
    assert_eq!(step.path, "d/materialized_000001.bin");
    batch.fetched(Ok(step.path)).unwrap();
    assert!(batch.next().is_none());
    let result = batch.finish(7, num(2.5));
    assert_eq!((result.count, result.total_bytes), (2, 7));
    assert_eq!(result.materialized_paths, vec!["d/0", "d/materialized_000001.bin"]);
    assert!(GetBatch::new("d".to_string(), Vec::new()).next().is_none());
}

#[test]
fn put_and_get_requests_are_checked() {
    let put = PutBlobBatchRequest {
        run_id: "r1".to_string(),
        count: 2,
        object_size_bytes: 10,
        max_in_flight: 1,
    };
    assert!(check_put_batch(&put).is_ok());
    assert_eq!(put_total_bytes(&put).unwrap(), 20);
    assert!(check_put_batch(&PutBlobBatchRequest { count: 0, ..put.clone() }).is_err());
    assert!(check_put_batch(&PutBlobBatchRequest { max_in_flight: 0, ..put.clone() }).is_err());
    let huge = PutBlobBatchRequest { object_size_bytes: u64::MAX, ..put };
    assert!(put_total_bytes(&huge).is_err());
    let get = PacedBlobGetRequest {
        run_id: "r1".to_string(),
        refs: Vec::new(),
        target_ops_per_s: num(1.0),
        max_in_flight: 1,
        start_after_unix_ns: None,
    };
    assert!(check_paced_get(&get).is_err());
    assert!(cleanup_payloads_after_put("s3"));
    assert!(put_failed("p", "e").contains("p"));
}

#[test]
fn batches_have_directories_and_files() {
    assert_eq!(unique_batch_id("put", 255), unique_batch_id("put", 255));
    assert!(batch_dir("run", "payloads", "put", 1).starts_with("run/payloads/put-"));
    assert!(payload_path("d", 3) == "d/payload_000003.bin");
    assert_eq!(fetched_path("d", 3), "d/materialized_000003.bin");
    assert_eq!(materialized_paths("d", 2)[1], materialized_path("d", 1));
    assert_eq!(materialized_path("d", 1), "d/materialized_00000001.bin");
    assert_eq!(total_size(&vec![1, 2, 3]), 6);
    assert_eq!(total_size(&vec![u64::MAX, 3]), u64::MAX);
    assert_eq!(wait_ns(10, 4), Some(6));
    assert_eq!(wait_ns(4, 10), None);
}

#[test]
fn artifacts_and_metrics_are_replaced() {
    let mut node = started("r1");
    node.record_blob_put("r1", &vec!["p".to_string()], &vec![whole(1)], num(1.0)).unwrap();
    node.record_blob_put("r1", &vec!["q".to_string()], &vec![whole(2)], num(2.0)).unwrap();
    let run = node.current.as_ref().unwrap();
    let artifacts = run.artifact_list();
    let metrics = run.metric_list();
    assert_eq!(metrics.iter().filter(|m| m.value == num(2.0)).count(), 1);
    assert!(metrics.iter().all(|m| m.value != num(1.0)));
    assert!(!artifacts.is_empty());
    node.record_blob_get("r1", &vec!["m".to_string()], num(3.0)).unwrap();
    node.record_paced_get("r1", "m", num(4.0)).unwrap();
    assert_eq!(node.node_status(), "blob_paced_get_finished");
}
