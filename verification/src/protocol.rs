//! The messages that nodes, triggers and proxies exchange.
use crate::binary64::Real;
use crate::config::ExperimentSpec;
use crate::latency::LatencySummary;
use crate::native;
use crate::native::Json;
use crate::paced::PacedTaskRunReport;
use crate::text;
use vstd::prelude::*;

verus! {

#[derive(Clone, Debug)]
pub struct HealthRequest {}

#[derive(Clone, Debug)]
pub struct HealthResponse {
    pub ok: bool,
    pub instance_id: String,
    pub node_status: String,
    pub current_run_id: Option<String>,
    pub generation: u64,
}

#[derive(Clone, Debug)]
pub struct NodeDescription {
    pub instance_id: String,
    pub rpc_addr: String,
    pub p2p_advertise_endpoint: String,
    pub work_dir: String,
    pub capabilities: Vec<String>,
}

#[derive(Clone, Debug)]
pub struct BeginExprRequest {
    pub run_id: String,
    pub force_reset: bool,
}

#[derive(Clone, Debug)]
pub struct InitBlobStoreRequest {
    pub run_id: String,
    pub backend: String,
    pub root_dir: Option<String>,
    pub force_reinit: bool,
    pub experiment: Option<ExperimentSpec>,
    pub resource_id: Option<String>,
    pub create_remote_resources: bool,
}

#[derive(Clone, Debug)]
pub struct InitMetadataStoreRequest {
    pub run_id: String,
    pub backend: String,
    pub force_reinit: bool,
}

#[derive(Clone, Debug)]
pub struct InitSenderRequest {
    pub run_id: String,
    pub channel_id: String,
    pub backend: Option<String>,
    pub root_dir: Option<String>,
    pub reopen: bool,
    pub recover: bool,
    pub force_reinit: bool,
    pub metadata_backend: Option<String>,
    pub experiment: Option<ExperimentSpec>,
    pub resource_id: Option<String>,
    pub create_remote_resources: bool,
}

#[derive(Clone, Debug)]
pub struct InitReceiverRequest {
    pub run_id: String,
    pub channel_id: String,
    pub consumer_id: String,
    pub backend: Option<String>,
    pub root_dir: Option<String>,
    pub start_seq: i64,
    pub consume_mode: String,
    pub passive_mode: bool,
    pub force_reinit: bool,
    pub metadata_backend: Option<String>,
    pub experiment: Option<ExperimentSpec>,
    pub resource_id: Option<String>,
    pub create_remote_resources: bool,
}

#[derive(Clone, Debug)]
pub struct ExprActionResponse {
    pub ok: bool,
    pub instance_id: String,
    pub run_id: Option<String>,
    pub phase: String,
    pub generation: u64,
    pub message: String,
}

#[derive(Clone, Debug)]
pub struct AcceptedResponse {
    pub ok: bool,
    pub instance_id: String,
    pub run_id: String,
    pub req_id: Option<String>,
    pub message: String,
}

#[derive(Clone, Debug)]
pub struct PutBlobBatchRequest {
    pub run_id: String,
    pub count: usize,
    pub object_size_bytes: u64,
    pub max_in_flight: usize,
}

#[derive(Debug)]
pub struct BlobPutResult {
    pub count: usize,
    pub total_bytes: u64,
    pub elapsed_ms: Real,
    pub refs: Vec<Json>,
}

#[derive(Debug)]
pub struct GetBlobBatchRequest {
    pub run_id: String,
    pub refs: Vec<Json>,
}

#[derive(Debug)]
pub struct BlobGetResult {
    pub count: usize,
    pub total_bytes: u64,
    pub elapsed_ms: Real,
    pub materialized_paths: Vec<String>,
}

#[derive(Debug)]
pub struct PacedBlobGetRequest {
    pub run_id: String,
    pub refs: Vec<Json>,
    pub target_ops_per_s: Real,
    pub max_in_flight: usize,
    pub start_after_unix_ns: Option<u64>,
}

#[derive(Debug)]
pub struct PacedBlobGetResult {
    pub count: usize,
    pub total_bytes: u64,
    pub elapsed_ms: Real,
    pub materialized_dir: String,
    pub paced: PacedTaskRunReport,
}

#[derive(Clone, Debug)]
pub struct PrepareBlobGetBeginRequest {
    pub run_id: String,
    pub plan_id: String,
    pub expected_ref_count: usize,
    pub target_ops_per_s: Real,
    pub max_in_flight: usize,
}

#[derive(Debug)]
pub struct PrepareBlobGetAppendRequest {
    pub run_id: String,
    pub plan_id: String,
    pub chunk_index: u64,
    pub refs: Vec<Json>,
}

#[derive(Clone, Debug)]
pub struct PrepareBlobGetFinishRequest {
    pub run_id: String,
    pub plan_id: String,
}

#[derive(Clone, Debug)]
pub struct StartPreparedBlobGetRequest {
    pub run_id: String,
    pub plan_id: String,
    pub start_after_unix_ns: Option<u64>,
}

#[derive(Clone, Debug)]
pub struct StartChannelReceiverRequest {
    pub run_id: String,
    pub poll_target_ops_per_s: Real,
    pub poll_concurrency: usize,
    pub materialize_concurrency: usize,
    pub output_subdir: String,
    pub max_runtime_ms: Option<u64>,
}

#[derive(Clone, Debug)]
pub struct StartPacedChannelSendRequest {
    pub run_id: String,
    pub count: usize,
    pub object_size_bytes: u64,
    pub target_ops_per_s: Real,
    pub max_in_flight: usize,
    pub payload_strategy: String,
}

#[derive(Debug)]
pub struct ChannelSendResult {
    pub sent_count: usize,
    pub total_bytes: u64,
    pub close_elapsed_ms: Real,
    pub prestage_payload_ms: Real,
    pub payload_strategy: String,
    pub payload_dir: String,
    pub paced: PacedTaskRunReport,
    pub failure_messages: Vec<String>,
}

#[derive(Debug)]
pub struct ChannelReceiverResult {
    pub delivered_count: usize,
    pub delivered_bytes: u64,
    pub empty_polls: u64,
    pub transient_poll_errors: u64,
    pub timed_out: bool,
    pub cancelled: bool,
    pub eof_seq: Option<i64>,
    pub eof_elapsed_ms: Option<Real>,
    pub elapsed_ms: Real,
    pub started_unix_ns: u64,
    pub finished_unix_ns: u64,
    pub materialized_dir: String,
    pub poll_target_ops_per_s: Real,
    pub poll_concurrency: usize,
    pub materialize_concurrency: usize,
    pub delivery_latency: LatencySummary,
    pub materialize_latency: LatencySummary,
    pub delivery_latency_samples_ms: Vec<Real>,
    pub materialize_latency_samples_ms: Vec<Real>,
    pub failure_messages: Vec<String>,
}

#[derive(Clone, Debug)]
pub struct PollRequestRequest {
    pub run_id: String,
    pub req_id: String,
    pub include_result: bool,
}

#[derive(Debug)]
pub struct PollRequestResponse {
    pub ok: bool,
    pub instance_id: String,
    pub run_id: Option<String>,
    pub req_id: String,
    pub status: RequestStatus,
    pub ready: bool,
    pub result: Option<RequestResult>,
    pub message: String,
}

#[derive(Clone, Debug)]
pub struct CancelRequestRequest {
    pub run_id: String,
    pub req_id: String,
}

#[derive(Clone, Copy, Debug, PartialEq, Eq, Structural)]
pub enum RequestStatus {
    Missing,
    Running,
    Finished,
    Failed,
}

impl RequestStatus {
    pub open spec fn name_spec(self) -> Seq<char> {
        match self {
            RequestStatus::Missing => "Missing"@,
            RequestStatus::Running => "Running"@,
            RequestStatus::Finished => "Finished"@,
            RequestStatus::Failed => "Failed"@,
        }
    }

    pub fn name(self) -> (r: String)
        ensures
            r@ == self.name_spec(),
    {
        match self {
            RequestStatus::Missing => "Missing".to_owned(),
            RequestStatus::Running => "Running".to_owned(),
            RequestStatus::Finished => "Finished".to_owned(),
            RequestStatus::Failed => "Failed".to_owned(),
        }
    }
}

#[derive(Debug)]
pub enum RequestResult {
    BlobPut(BlobPutResult),
    BlobGet(BlobGetResult),
    PacedBlobGet(PacedBlobGetResult),
    ChannelSend(ChannelSendResult),
    ChannelReceiver(ChannelReceiverResult),
    Experiment(ExperimentRunResult),
}

#[derive(Clone, Debug)]
pub struct RequestSummary {
    pub req_id: String,
    pub kind: String,
    pub status: RequestStatus,
    pub message: String,
}

#[derive(Clone, Debug)]
pub struct BlobPutRefsChunkRequest {
    pub run_id: String,
    pub req_id: String,
    pub offset: usize,
    pub limit: usize,
}

#[derive(Debug)]
pub struct BlobPutRefsChunkResponse {
    pub ok: bool,
    pub instance_id: String,
    pub run_id: Option<String>,
    pub req_id: String,
    pub status: RequestStatus,
    pub count: usize,
    pub total_bytes: u64,
    pub elapsed_ms: Real,
    pub offset: usize,
    pub refs: Vec<Json>,
    pub has_more: bool,
    pub message: String,
}

#[derive(Clone, Debug)]
pub struct ChannelReceiverSamplesChunkRequest {
    pub run_id: String,
    pub req_id: String,
    pub offset: usize,
    pub limit: usize,
}

#[derive(Debug)]
pub struct ChannelReceiverSamplesChunkResponse {
    pub ok: bool,
    pub instance_id: String,
    pub run_id: Option<String>,
    pub req_id: String,
    pub status: RequestStatus,
    pub offset: usize,
    pub delivery_count: usize,
    pub materialize_count: usize,
    pub delivery_latency_samples_ms: Vec<Real>,
    pub materialize_latency_samples_ms: Vec<Real>,
    pub has_more: bool,
    pub message: String,
}

#[derive(Clone, Debug)]
pub struct PollExprRequest {
    pub run_id: String,
}

#[derive(Debug)]
pub struct PollExprResponse {
    pub ok: bool,
    pub instance_id: String,
    pub run_id: Option<String>,
    pub phase: String,
    pub generation: u64,
    pub resources: ResourceSummary,
    pub artifacts: Vec<Artifact>,
    pub metrics: Vec<MetricRecord>,
    pub requests: Vec<RequestSummary>,
    pub message: String,
}

#[derive(Clone, Debug)]
pub struct ResetExprRequest {
    pub run_id: String,
    pub force_reset: bool,
}

#[derive(Clone, Debug)]
pub struct RunExperimentRequest {
    pub experiment: ExperimentSpec,
}

#[derive(Debug)]
pub struct ExperimentRunResult {
    pub coordinator_id: String,
    pub run_id: String,
    pub message: String,
}

#[derive(Clone, Debug)]
pub struct RunBlobGetRequest {
    pub run_id: String,
    pub peer_instance_id: String,
    pub count: usize,
    pub object_size_bytes: u64,
    pub blob_store_backend: String,
    pub barrier_timeout_ms: u64,
    pub force_reset: bool,
    pub cleanup: bool,
}

#[derive(Clone, Debug)]
pub struct RunBlobGetResponse {
    pub ok: bool,
    pub coordinator_id: String,
    pub peer_instance_id: String,
    pub run_id: String,
    pub prepared_count: usize,
    pub materialized_count: usize,
    pub total_bytes: u64,
    pub peer_put_elapsed_ms: Real,
    pub local_get_elapsed_ms: Real,
    pub message: String,
}

#[derive(Clone, Debug)]
pub struct ResourceSummary {
    pub blob_store: Option<String>,
    pub metadata_store: Option<String>,
    pub sender: Option<String>,
    pub receiver: Option<String>,
}

#[derive(Debug)]
pub struct Artifact {
    pub key: String,
    pub kind: String,
    pub value: Json,
}

#[derive(Debug)]
pub struct MetricRecord {
    pub key: String,
    pub value: Real,
    pub unit: String,
}

// ---------------------------------------------------------------------------------------------
// Copies
// ---------------------------------------------------------------------------------------------
impl Clone for MetricRecord {
    fn clone(&self) -> (r: Self)
        ensures
            r == *self,
    {
        MetricRecord { key: self.key.clone(), value: self.value, unit: self.unit.clone() }
    }
}

impl Artifact {
    pub open spec fn same(self, other: Artifact) -> bool {
        self.key == other.key && self.kind == other.kind && self.value.tree() == other.value.tree()
    }
}

impl Clone for Artifact {
    fn clone(&self) -> (r: Self)
        ensures
            r.same(*self),
    {
        Artifact { key: self.key.clone(), kind: self.kind.clone(), value: self.value.duplicate() }
    }
}

impl BlobPutResult {
    pub open spec fn same(self, other: BlobPutResult) -> bool {
        &&& self.count == other.count
        &&& self.total_bytes == other.total_bytes
        &&& self.elapsed_ms == other.elapsed_ms
        &&& native::trees(self.refs@) == native::trees(other.refs@)
    }
}

impl Clone for BlobPutResult {
    fn clone(&self) -> (r: Self)
        ensures
            r.same(*self),
    {
        let refs = native::copy_json(&self.refs, 0, self.refs.len());
        assert(native::trees(refs@) =~= native::trees(self.refs@));
        BlobPutResult {
            count: self.count,
            total_bytes: self.total_bytes,
            elapsed_ms: self.elapsed_ms,
            refs,
        }
    }
}

impl BlobGetResult {
    pub open spec fn same(self, other: BlobGetResult) -> bool {
        &&& self.count == other.count
        &&& self.total_bytes == other.total_bytes
        &&& self.elapsed_ms == other.elapsed_ms
        &&& self.materialized_paths@ == other.materialized_paths@
    }
}

impl Clone for BlobGetResult {
    fn clone(&self) -> (r: Self)
        ensures
            r.same(*self),
    {
        BlobGetResult {
            count: self.count,
            total_bytes: self.total_bytes,
            elapsed_ms: self.elapsed_ms,
            materialized_paths: text::clone_strings(&self.materialized_paths),
        }
    }
}

impl PacedBlobGetResult {
    pub open spec fn same(self, other: PacedBlobGetResult) -> bool {
        &&& self.count == other.count
        &&& self.total_bytes == other.total_bytes
        &&& self.elapsed_ms == other.elapsed_ms
        &&& self.materialized_dir == other.materialized_dir
        &&& self.paced.same(other.paced)
    }
}

impl Clone for PacedBlobGetResult {
    fn clone(&self) -> (r: Self)
        ensures
            r.same(*self),
    {
        PacedBlobGetResult {
            count: self.count,
            total_bytes: self.total_bytes,
            elapsed_ms: self.elapsed_ms,
            materialized_dir: self.materialized_dir.clone(),
            paced: self.paced.clone(),
        }
    }
}

impl ChannelSendResult {
    pub open spec fn same(self, other: ChannelSendResult) -> bool {
        &&& self.sent_count == other.sent_count
        &&& self.total_bytes == other.total_bytes
        &&& self.close_elapsed_ms == other.close_elapsed_ms
        &&& self.prestage_payload_ms == other.prestage_payload_ms
        &&& self.payload_strategy == other.payload_strategy
        &&& self.payload_dir == other.payload_dir
        &&& self.paced.same(other.paced)
        &&& self.failure_messages@ == other.failure_messages@
    }
}

impl Clone for ChannelSendResult {
    fn clone(&self) -> (r: Self)
        ensures
            r.same(*self),
    {
        ChannelSendResult {
            sent_count: self.sent_count,
            total_bytes: self.total_bytes,
            close_elapsed_ms: self.close_elapsed_ms,
            prestage_payload_ms: self.prestage_payload_ms,
            payload_strategy: self.payload_strategy.clone(),
            payload_dir: self.payload_dir.clone(),
            paced: self.paced.clone(),
            failure_messages: text::clone_strings(&self.failure_messages),
        }
    }
}

impl ChannelReceiverResult {
    /// The same but for the samples of the single elements.
    pub open spec fn same_figures(self, other: ChannelReceiverResult) -> bool {
        &&& self.delivered_count == other.delivered_count
        &&& self.delivered_bytes == other.delivered_bytes
        &&& self.empty_polls == other.empty_polls
        &&& self.transient_poll_errors == other.transient_poll_errors
        &&& self.timed_out == other.timed_out
        &&& self.cancelled == other.cancelled
        &&& self.eof_seq == other.eof_seq
        &&& self.eof_elapsed_ms == other.eof_elapsed_ms
        &&& self.elapsed_ms == other.elapsed_ms
        &&& self.started_unix_ns == other.started_unix_ns
        &&& self.finished_unix_ns == other.finished_unix_ns
        &&& self.materialized_dir == other.materialized_dir
        &&& self.poll_target_ops_per_s == other.poll_target_ops_per_s
        &&& self.poll_concurrency == other.poll_concurrency
        &&& self.materialize_concurrency == other.materialize_concurrency
        &&& self.delivery_latency == other.delivery_latency
        &&& self.materialize_latency == other.materialize_latency
        &&& self.failure_messages@ == other.failure_messages@
    }

    /// A copy without the samples of the single elements.
    pub fn without_samples(&self) -> (r: ChannelReceiverResult)
        ensures
            r.same_figures(*self),
            r.delivery_latency_samples_ms@.len() == 0,
            r.materialize_latency_samples_ms@.len() == 0,
    {
        ChannelReceiverResult {
            delivered_count: self.delivered_count,
            delivered_bytes: self.delivered_bytes,
            empty_polls: self.empty_polls,
            transient_poll_errors: self.transient_poll_errors,
            timed_out: self.timed_out,
            cancelled: self.cancelled,
            eof_seq: self.eof_seq,
            eof_elapsed_ms: self.eof_elapsed_ms,
            elapsed_ms: self.elapsed_ms,
            started_unix_ns: self.started_unix_ns,
            finished_unix_ns: self.finished_unix_ns,
            materialized_dir: self.materialized_dir.clone(),
            poll_target_ops_per_s: self.poll_target_ops_per_s,
            poll_concurrency: self.poll_concurrency,
            materialize_concurrency: self.materialize_concurrency,
            delivery_latency: self.delivery_latency,
            materialize_latency: self.materialize_latency,
            delivery_latency_samples_ms: Vec::new(),
            materialize_latency_samples_ms: Vec::new(),
            failure_messages: text::clone_strings(&self.failure_messages),
        }
    }
}

impl Clone for ExperimentRunResult {
    fn clone(&self) -> (r: Self)
        ensures
            r == *self,
    {
        ExperimentRunResult {
            coordinator_id: self.coordinator_id.clone(),
            run_id: self.run_id.clone(),
            message: self.message.clone(),
        }
    }
}

/// `sent` is what a poll reports of `kept`: the same result, for a receiver without its samples,
/// which are fetched in chunks.
pub open spec fn is_stripped(sent: RequestResult, kept: RequestResult) -> bool {
    match (sent, kept) {
        (RequestResult::BlobPut(a), RequestResult::BlobPut(b)) => a.same(b),
        (RequestResult::BlobGet(a), RequestResult::BlobGet(b)) => a.same(b),
        (RequestResult::PacedBlobGet(a), RequestResult::PacedBlobGet(b)) => a.same(b),
        (RequestResult::ChannelSend(a), RequestResult::ChannelSend(b)) => a.same(b),
        (RequestResult::ChannelReceiver(a), RequestResult::ChannelReceiver(b)) => a.same_figures(b)
            && a.delivery_latency_samples_ms@.len() == 0
            && a.materialize_latency_samples_ms@.len() == 0,
        (RequestResult::Experiment(a), RequestResult::Experiment(b)) => a == b,
        _ => false,
    }
}

pub fn strip_large_request_result(result: &RequestResult) -> (r: RequestResult)
    ensures
        is_stripped(r, *result),
{
    match result {
        RequestResult::BlobPut(x) => RequestResult::BlobPut(x.clone()),
        RequestResult::BlobGet(x) => RequestResult::BlobGet(x.clone()),
        RequestResult::PacedBlobGet(x) => RequestResult::PacedBlobGet(x.clone()),
        RequestResult::ChannelSend(x) => RequestResult::ChannelSend(x.clone()),
        RequestResult::ChannelReceiver(x) => RequestResult::ChannelReceiver(x.without_samples()),
        RequestResult::Experiment(x) => RequestResult::Experiment(x.clone()),
    }
}

/// What is sent of a result is the result: of the same kind, with every figure, path, reference and
/// message of it. Only the two lists of samples of a receiver stay behind.
pub proof fn lemma_what_is_sent_is_the_result(sent: RequestResult, kept: RequestResult)
    requires
        is_stripped(sent, kept),
    ensures
        match kept {
            RequestResult::BlobPut(b) => sent is BlobPut && {
                let a = sent->BlobPut_0;
                &&& a == (BlobPutResult { refs: a.refs, ..b })
                &&& a.refs@.len() == b.refs@.len()
                &&& forall|i: int|
                    0 <= i < b.refs@.len() ==> (#[trigger] a.refs@[i]).tree() == b.refs@[i].tree()
            },
            RequestResult::BlobGet(b) => sent is BlobGet && {
                let a = sent->BlobGet_0;
                &&& a == (BlobGetResult { materialized_paths: a.materialized_paths, ..b })
                &&& a.materialized_paths@ == b.materialized_paths@
            },
            RequestResult::PacedBlobGet(b) => sent is PacedBlobGet && {
                let a = sent->PacedBlobGet_0;
                &&& a == (PacedBlobGetResult { paced: a.paced, ..b })
                &&& a.paced == (PacedTaskRunReport {
                    samples: a.paced.samples,
                    failures: a.paced.failures,
                    ..b.paced
                })
                &&& a.paced.samples@ == b.paced.samples@
                &&& a.paced.failures@ == b.paced.failures@
            },
            RequestResult::ChannelSend(b) => sent is ChannelSend && {
                let a = sent->ChannelSend_0;
                &&& a == (ChannelSendResult {
                    paced: a.paced,
                    failure_messages: a.failure_messages,
                    ..b
                })
                &&& a.paced == (PacedTaskRunReport {
                    samples: a.paced.samples,
                    failures: a.paced.failures,
                    ..b.paced
                })
                &&& a.paced.samples@ == b.paced.samples@
                &&& a.paced.failures@ == b.paced.failures@
                &&& a.failure_messages@ == b.failure_messages@
            },
            RequestResult::ChannelReceiver(b) => sent is ChannelReceiver && {
                let a = sent->ChannelReceiver_0;
                &&& a == (ChannelReceiverResult {
                    delivery_latency_samples_ms: a.delivery_latency_samples_ms,
                    materialize_latency_samples_ms: a.materialize_latency_samples_ms,
                    failure_messages: a.failure_messages,
                    ..b
                })
                &&& a.failure_messages@ == b.failure_messages@
                &&& a.delivery_latency_samples_ms@ == Seq::<Real>::empty()
                &&& a.materialize_latency_samples_ms@ == Seq::<Real>::empty()
            },
            RequestResult::Experiment(b) => sent == kept,
        },
{
    if let RequestResult::BlobPut(b) = kept {
        let a = sent->BlobPut_0;
        assert(native::trees(a.refs@).len() == native::trees(b.refs@).len());
        assert forall|i: int| 0 <= i < b.refs@.len() implies (#[trigger] a.refs@[i]).tree()
            == b.refs@[i].tree() by {
            assert(native::trees(a.refs@)[i] == native::trees(b.refs@)[i]);
        }
    }
}

/// The name of a status is its own.
pub proof fn lemma_status_names()
    ensures
        RequestStatus::Missing.name_spec() == "Missing"@,
        RequestStatus::Running.name_spec() == "Running"@,
        RequestStatus::Finished.name_spec() == "Finished"@,
        RequestStatus::Failed.name_spec() == "Failed"@,
{
}

/// A copy of an artifact has its key, its kind and its value.
pub proof fn lemma_a_copy_of_an_artifact(copy: Artifact, artifact: Artifact)
    requires
        copy.same(artifact),
    ensures
        copy == (Artifact { value: copy.value, ..artifact }),
        copy.value.tree() == artifact.value.tree(),
{
}

} // verus!
