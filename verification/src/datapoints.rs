//! The reports of datapoints and of sweeps: what a run hands out.
use crate::binary64::Real;
use crate::blob_sweep;
use crate::blob_sweep::{GetterReport, GetterSetup, PutterReport, REF_CHUNK_SIZE};
use crate::channel_sweep;
use crate::channel_sweep::{
    AggregatePacedSummary, ChannelSetup, ReceiverAggregate, ReceiverReport,
};
use crate::config::{Entry, ExperimentSpec, InstanceConfig};
use crate::metadata_sweep::{Counter, MetadataWorkload};
use crate::paced::PacedTaskRunReport;
use crate::protocol::ChannelSendResult;
use crate::put_sweep;
use crate::put_sweep::PacedRunSummary;
use crate::sweep::{SweepStopReason, ThroughputSweepPolicy};
use crate::text;
use vstd::prelude::*;
use vstd::string::*;

verus! {

/// 2.0, by which receivers poll faster than they are to receive.
pub const POLL_TARGET_MULTIPLIER: u64 = 0x4000_0000_0000_0000;

/// How the receivers of a datapoint differ.
#[derive(Clone, Copy, Debug, PartialEq, Eq, Structural)]
pub struct ReceiverStats {
    pub sum_ops_per_s: Real,
    pub mean_ops_per_s: Real,
    pub min_ops_per_s: Real,
    pub max_ops_per_s: Real,
    pub min_count: u64,
    pub max_count: u64,
    pub count_stddev: Real,
    pub eof_spread_ms: Real,
}

/// The figures of the receivers that are no extremes of them: sums, means and spreads.
#[derive(Clone, Copy, Debug, PartialEq, Eq, Structural)]
pub struct SpreadFigures {
    pub sum_ops_per_s: Real,
    pub mean_ops_per_s: Real,
    pub count_stddev: Real,
    pub eof_spread_ms: Real,
}

/// How the receivers differ; without receivers everything is zero, and without a receiver that saw
/// the end of the channel there is no spread of it.
pub fn receiver_stats(receivers: &Vec<ReceiverReport>, figures: SpreadFigures) -> (r: ReceiverStats)
    ensures
        receivers@.len() == 0 ==> r == (ReceiverStats {
            sum_ops_per_s: Real::zero_spec(),
            mean_ops_per_s: Real::zero_spec(),
            min_ops_per_s: Real::zero_spec(),
            max_ops_per_s: Real::zero_spec(),
            min_count: 0,
            max_count: 0,
            count_stddev: Real::zero_spec(),
            eof_spread_ms: Real::zero_spec(),
        }),
        receivers@.len() > 0 ==> r == (ReceiverStats {
            sum_ops_per_s: figures.sum_ops_per_s,
            mean_ops_per_s: figures.mean_ops_per_s,
            min_ops_per_s: channel_sweep::min_rate(receivers@),
            max_ops_per_s: channel_sweep::max_rate(receivers@),
            min_count: channel_sweep::min_count(receivers@) as u64,
            max_count: channel_sweep::max_count(receivers@) as u64,
            count_stddev: figures.count_stddev,
            eof_spread_ms: if channel_sweep::eof_range(receivers@) is None {
                Real::zero_spec()
            } else {
                figures.eof_spread_ms
            },
        }),
{
    let extremes = channel_sweep::receiver_extremes(receivers);
    if receivers.len() == 0 {
        let zero = Real::zero();
        ReceiverStats {
            sum_ops_per_s: zero,
            mean_ops_per_s: zero,
            min_ops_per_s: zero,
            max_ops_per_s: zero,
            min_count: 0,
            max_count: 0,
            count_stddev: zero,
            eof_spread_ms: zero,
        }
    } else {
        ReceiverStats {
            sum_ops_per_s: figures.sum_ops_per_s,
            mean_ops_per_s: figures.mean_ops_per_s,
            min_ops_per_s: extremes.min_ops_per_s,
            max_ops_per_s: extremes.max_ops_per_s,
            min_count: extremes.min_count as u64,
            max_count: extremes.max_count as u64,
            count_stddev: figures.count_stddev,
            eof_spread_ms: if extremes.eof_ms.is_none() {
                Real::zero()
            } else {
                figures.eof_spread_ms
            },
        }
    }
}

/// Where a channel datapoint ran and at what rates.
#[derive(Debug)]
pub struct ChannelPoint {
    pub resource_id: String,
    pub channel_id: String,
    pub datapoint_index: usize,
    pub element_count: usize,
    pub duration_seconds: Real,
    pub target_sender_ops_per_s: Real,
    pub expected_receiver_ops_per_s: Real,
    pub delivered_bytes_per_s: Real,
    /// What the sender pushed, divided by its target.
    pub successful_share: Real,
}

/// One datapoint of a channel experiment.
#[derive(Debug)]
pub struct ChannelDatapointReport {
    pub run_id: String,
    pub workload: String,
    pub instance_id: String,
    pub backend: String,
    pub resource_id: String,
    pub channel_id: String,
    pub datapoint_index: usize,
    pub operations: u64,
    pub warmup_operations: u64,
    pub duration_seconds: Real,
    pub object_size_bytes: u64,
    pub total_bytes: u64,
    pub consume_mode: String,
    pub sender_instance_id: String,
    pub receiver_count: usize,
    pub receiver_instance_ids: Vec<String>,
    pub target_sender_ops_per_s: Real,
    pub expected_receiver_ops_per_s: Real,
    pub sender_successful_push_ops_per_s: Real,
    pub sender_limited: bool,
    pub sender_limited_ratio: Real,
    pub aggregate_delivered_ops_per_s: Real,
    pub aggregate_delivered_bytes_per_s: Real,
    pub sum_receiver_ops_per_s: Real,
    pub mean_receiver_ops_per_s: Real,
    pub slowest_receiver_ops_per_s: Real,
    pub fastest_receiver_ops_per_s: Real,
    pub receiver_count_min: u64,
    pub receiver_count_max: u64,
    pub receiver_count_stddev: Real,
    pub eof_time_spread_ms: Real,
    pub payload_strategy: String,
    pub prestage_payload_ms: Real,
    pub poll_strategy: String,
    pub poll_target_multiplier: Real,
    pub delivery_latency_p50_ms: Real,
    pub delivery_latency_p90_ms: Real,
    pub delivery_latency_p99_ms: Real,
    pub materialize_latency_p50_ms: Real,
    pub materialize_latency_p90_ms: Real,
    pub materialize_latency_p99_ms: Real,
    pub store: Vec<Entry>,
    pub paced: AggregatePacedSummary,
    pub sender: ChannelSendResult,
    pub per_receiver: Vec<ReceiverReport>,
}

impl ChannelDatapointReport {
    /// Reports a datapoint.
    pub fn of(
        experiment: &ExperimentSpec,
        setup: &ChannelSetup,
        point: ChannelPoint,
        stats: ReceiverStats,
        aggregate: ReceiverAggregate,
        sender: ChannelSendResult,
        per_receiver: Vec<ReceiverReport>,
    ) -> (r: ChannelDatapointReport)
        ensures
            r.run_id == experiment.run.run_id,
            r.workload == experiment.run.workload,
            r.instance_id == setup.sender_id,
            r.backend == setup.backend,
            r.resource_id == point.resource_id,
            r.channel_id == point.channel_id,
            r.datapoint_index == point.datapoint_index,
            r.operations == point.element_count as u64,
            r.warmup_operations == experiment.benchmark.warmup_operations,
            r.duration_seconds == point.duration_seconds,
            r.object_size_bytes == experiment.benchmark.object_size_bytes,
            r.total_bytes == aggregate.delivered_bytes,
            r.consume_mode == setup.consume_mode,
            r.sender_instance_id == setup.sender_id,
            r.receiver_count == setup.receiver_ids@.len(),
            text::views(r.receiver_instance_ids@) == text::views(setup.receiver_ids@),
            r.target_sender_ops_per_s == point.target_sender_ops_per_s,
            r.expected_receiver_ops_per_s == point.expected_receiver_ops_per_s,
            r.sender_successful_push_ops_per_s == sender.paced.successful_ops_per_s,
            r.sender_limited == r.sender_limited_ratio.lt_spec(setup.policy.saturation_achieved_ratio),
            r.sender_limited_ratio == if Real::zero_spec().lt_spec(point.target_sender_ops_per_s) { point.successful_share } else { Real::zero_spec() },
            r.aggregate_delivered_ops_per_s == aggregate.paced.achieved_ops_per_s,
            r.aggregate_delivered_bytes_per_s == point.delivered_bytes_per_s,
            r.sum_receiver_ops_per_s == stats.sum_ops_per_s,
            r.mean_receiver_ops_per_s == stats.mean_ops_per_s,
            r.slowest_receiver_ops_per_s == stats.min_ops_per_s,
            r.fastest_receiver_ops_per_s == stats.max_ops_per_s,
            r.receiver_count_min == stats.min_count,
            r.receiver_count_max == stats.max_count,
            r.receiver_count_stddev == stats.count_stddev,
            r.eof_time_spread_ms == stats.eof_spread_ms,
            r.payload_strategy == sender.payload_strategy,
            r.prestage_payload_ms == sender.prestage_payload_ms,
            r.poll_strategy@ == channel_sweep::POLL_STRATEGY@,
            r.poll_target_multiplier == (Real { bits: POLL_TARGET_MULTIPLIER }),
            r.delivery_latency_p50_ms == aggregate.delivery_latency.p50_ms,
            r.delivery_latency_p90_ms == aggregate.delivery_latency.p90_ms,
            r.delivery_latency_p99_ms == aggregate.delivery_latency.p99_ms,
            r.materialize_latency_p50_ms == aggregate.materialize_latency.p50_ms,
            r.materialize_latency_p90_ms == aggregate.materialize_latency.p90_ms,
            r.materialize_latency_p99_ms == aggregate.materialize_latency.p99_ms,
            r.store@.len() == 0,
            r.paced == aggregate.paced,
            r.sender == sender,
            r.per_receiver == per_receiver,
    {
        let (ratio, limited) = channel_sweep::sender_limited(
            point.target_sender_ops_per_s,
            point.successful_share,
            &setup.policy,
        );
        ChannelDatapointReport {
            run_id: experiment.run.run_id.clone(),
            workload: experiment.run.workload.clone(),
            instance_id: setup.sender_id.clone(),
            backend: setup.backend.clone(),
            resource_id: point.resource_id,
            channel_id: point.channel_id,
            datapoint_index: point.datapoint_index,
            operations: point.element_count as u64,
            warmup_operations: experiment.benchmark.warmup_operations,
            duration_seconds: point.duration_seconds,
            object_size_bytes: experiment.benchmark.object_size_bytes,
            total_bytes: aggregate.delivered_bytes,
            consume_mode: setup.consume_mode.clone(),
            sender_instance_id: setup.sender_id.clone(),
            receiver_count: setup.receiver_ids.len(),
            receiver_instance_ids: text::clone_strings(&setup.receiver_ids),
            target_sender_ops_per_s: point.target_sender_ops_per_s,
            expected_receiver_ops_per_s: point.expected_receiver_ops_per_s,
            sender_successful_push_ops_per_s: sender.paced.successful_ops_per_s,
            sender_limited: limited,
            sender_limited_ratio: ratio,
            aggregate_delivered_ops_per_s: aggregate.paced.achieved_ops_per_s,
            aggregate_delivered_bytes_per_s: point.delivered_bytes_per_s,
            sum_receiver_ops_per_s: stats.sum_ops_per_s,
            mean_receiver_ops_per_s: stats.mean_ops_per_s,
            slowest_receiver_ops_per_s: stats.min_ops_per_s,
            fastest_receiver_ops_per_s: stats.max_ops_per_s,
            receiver_count_min: stats.min_count,
            receiver_count_max: stats.max_count,
            receiver_count_stddev: stats.count_stddev,
            eof_time_spread_ms: stats.eof_spread_ms,
            payload_strategy: sender.payload_strategy.clone(),
            prestage_payload_ms: sender.prestage_payload_ms,
            poll_strategy: channel_sweep::POLL_STRATEGY.to_owned(),
            poll_target_multiplier: Real { bits: POLL_TARGET_MULTIPLIER },
            delivery_latency_p50_ms: aggregate.delivery_latency.p50_ms,
            delivery_latency_p90_ms: aggregate.delivery_latency.p90_ms,
            delivery_latency_p99_ms: aggregate.delivery_latency.p99_ms,
            materialize_latency_p50_ms: aggregate.materialize_latency.p50_ms,
            materialize_latency_p90_ms: aggregate.materialize_latency.p90_ms,
            materialize_latency_p99_ms: aggregate.materialize_latency.p99_ms,
            store: Vec::new(),
            paced: aggregate.paced,
            sender,
            per_receiver,
        }
    }
}

/// A channel experiment.
#[derive(Debug)]
pub struct ChannelReport {
    pub run_id: String,
    pub workload: String,
    pub instance_id: String,
    pub backend: String,
    pub operations_per_point: u64,
    pub warmup_operations_per_point: u64,
    pub duration_seconds: Real,
    pub concurrency: usize,
    pub object_size_bytes: u64,
    pub consume_mode: String,
    pub sender_instance_id: String,
    pub receiver_count: usize,
    pub receiver_instance_ids: Vec<String>,
    pub stop_reason: SweepStopReason,
    pub datapoints: Vec<ChannelDatapointReport>,
}

impl ChannelReport {
    /// Reports a sweep.
    pub fn of(
        experiment: &ExperimentSpec,
        setup: &ChannelSetup,
        stop_reason: SweepStopReason,
        datapoints: Vec<ChannelDatapointReport>,
    ) -> (r: ChannelReport)
        ensures
            r.run_id == experiment.run.run_id,
            r.workload == experiment.run.workload,
            r.instance_id == setup.sender_id,
            r.backend == setup.backend,
            r.operations_per_point == experiment.benchmark.operations,
            r.warmup_operations_per_point == experiment.benchmark.warmup_operations,
            r.duration_seconds == setup.duration_seconds,
            r.concurrency == experiment.benchmark.concurrency,
            r.object_size_bytes == experiment.benchmark.object_size_bytes,
            r.consume_mode == setup.consume_mode,
            r.sender_instance_id == setup.sender_id,
            r.receiver_count == setup.receiver_ids@.len(),
            text::views(r.receiver_instance_ids@) == text::views(setup.receiver_ids@),
            r.stop_reason == stop_reason,
            r.datapoints == datapoints,
    {
        ChannelReport {
            run_id: experiment.run.run_id.clone(),
            workload: experiment.run.workload.clone(),
            instance_id: setup.sender_id.clone(),
            backend: setup.backend.clone(),
            operations_per_point: experiment.benchmark.operations,
            warmup_operations_per_point: experiment.benchmark.warmup_operations,
            duration_seconds: setup.duration_seconds,
            concurrency: experiment.benchmark.concurrency,
            object_size_bytes: experiment.benchmark.object_size_bytes,
            consume_mode: setup.consume_mode.clone(),
            sender_instance_id: setup.sender_id.clone(),
            receiver_count: setup.receiver_ids.len(),
            receiver_instance_ids: text::clone_strings(&setup.receiver_ids),
            stop_reason,
            datapoints,
        }
    }
}

/// Where a getter datapoint ran and at what rates.
#[derive(Debug)]
pub struct GetterPoint {
    pub resource_id: String,
    pub datapoint_index: usize,
    /// The operations of one getter, or of the only one.
    pub operations: usize,
    pub refs: usize,
    pub rate_per_getter: Real,
    pub rate: Real,
    pub preload_put_ms: Real,
    pub preload_put_concurrency: usize,
    /// The objects put, divided by the time it took.
    pub preload_rate: Real,
}

pub open spec fn preload_rate_spec(point: GetterPoint) -> Real {
    if Real::zero_spec().lt_spec(point.preload_put_ms) {
        point.preload_rate
    } else {
        Real::zero_spec()
    }
}

fn preload_rate(point: &GetterPoint) -> (r: Real)
    ensures
        r == preload_rate_spec(*point),
{
    if Real::zero().lt(point.preload_put_ms) {
        point.preload_rate
    } else {
        Real::zero()
    }
}

/// Whether a getter's report is another one without its samples.
pub open spec fn is_without_samples(r: GetterReport, full: GetterReport) -> bool {
    &&& r == (GetterReport {
        paced: PacedTaskRunReport { samples: r.paced.samples, ..full.paced },
        ..full
    })
    &&& r.paced.samples@.len() == 0
}

fn without_samples(getters: Vec<GetterReport>) -> (r: Vec<GetterReport>)
    ensures
        r@.len() == getters@.len(),
        forall|i: int| #![trigger r@[i]] 0 <= i < getters@.len() ==> is_without_samples(r@[i], getters@[i]),
{
    let ghost all = getters@;
    let mut rest = getters;
    let mut out: Vec<GetterReport> = Vec::new();
    assert(rest@ =~= all.skip(0));
    while rest.len() > 0
        invariant
            out@.len() + rest@.len() == all.len(),
            rest@ == all.skip(out@.len() as int),
            forall|i: int| #![trigger out@[i]] 0 <= i < out@.len() ==> is_without_samples(out@[i], all[i]),
        decreases rest.len(),
    {
        let getter = rest.remove(0);
        assert(getter == all[out@.len() as int]);
        out.push(
            GetterReport {
                instance_id: getter.instance_id,
                count: getter.count,
                total_bytes: getter.total_bytes,
                elapsed_ms: getter.elapsed_ms,
                materialized_dir: getter.materialized_dir,
                paced: getter.paced.without_samples(),
            },
        );
        assert(rest@ =~= all.skip(out@.len() as int));
    }
    out
}

/// One datapoint of an experiment with many getters.
#[derive(Debug)]
pub struct MultiGetterDatapointReport {
    pub run_id: String,
    pub workload: String,
    pub instance_id: String,
    pub backend: String,
    pub resource_id: String,
    pub datapoint_index: usize,
    pub source_instance_id: String,
    pub getter_count: usize,
    pub getter_instance_ids: Vec<String>,
    pub operations: u64,
    pub operations_per_getter: u64,
    pub warmup_operations: u64,
    pub duration_seconds: Real,
    pub object_size_bytes: u64,
    pub total_bytes: u64,
    pub working_set_size: u64,
    pub refs_distribution: String,
    pub getter_reuse_policy: String,
    pub cross_getter_reuse: bool,
    pub refs_chunk_size: u64,
    pub refs_chunk_count: u64,
    pub per_getter_target_ops_per_s: Real,
    pub aggregate_target_ops_per_s: Real,
    pub preload_put_ms: Real,
    pub preload_put_concurrency: u64,
    pub preload_put_ops_per_s: Real,
    pub store: Vec<Entry>,
    pub paced: AggregatePacedSummary,
    pub per_getter: Vec<GetterReport>,
}

impl MultiGetterDatapointReport {
    /// Reports a datapoint.
    pub fn of(
        experiment: &ExperimentSpec,
        instance: &InstanceConfig,
        setup: &GetterSetup,
        point: GetterPoint,
        aggregate: AggregatePacedSummary,
        per_getter: Vec<GetterReport>,
    ) -> (r: MultiGetterDatapointReport)
        requires
            aggregate.completed_tasks * experiment.benchmark.object_size_bytes <= u64::MAX,
        ensures
            r.run_id == experiment.run.run_id,
            r.workload == experiment.run.workload,
            r.instance_id == instance.id,
            r.backend == setup.backend,
            r.resource_id == point.resource_id,
            r.datapoint_index == point.datapoint_index,
            r.source_instance_id == setup.lead_id,
            r.getter_count == setup.follower_ids@.len(),
            text::views(r.getter_instance_ids@) == text::views(setup.follower_ids@),
            r.operations == text::min_int(point.operations * setup.follower_ids@.len(), usize::MAX as int),
            r.operations_per_getter == point.operations as u64,
            r.warmup_operations == 0,
            r.duration_seconds == setup.duration_seconds,
            r.object_size_bytes == experiment.benchmark.object_size_bytes,
            r.total_bytes == aggregate.completed_tasks * experiment.benchmark.object_size_bytes,
            r.working_set_size == point.operations as u64,
            r.refs_distribution@ == "shared-list"@,
            r.getter_reuse_policy@ == "no-repeat"@,
            r.cross_getter_reuse == true,
            r.refs_chunk_size == REF_CHUNK_SIZE as u64,
            r.refs_chunk_count == blob_sweep::chunk_count_spec(point.refs as nat),
            r.per_getter_target_ops_per_s == point.rate_per_getter,
            r.aggregate_target_ops_per_s == point.rate,
            r.preload_put_ms == point.preload_put_ms,
            r.preload_put_concurrency == point.preload_put_concurrency as u64,
            r.preload_put_ops_per_s == preload_rate_spec(point),
            r.store@.len() == 0,
            r.paced == aggregate,
            r.per_getter@.len() == per_getter@.len(),
            forall|i: int| #![trigger r.per_getter@[i]] 0 <= i < per_getter@.len() ==> is_without_samples(r.per_getter@[i], per_getter@[i]),
    {
        let operations: u64 = blob_sweep::operations_of_all(point.operations, setup.follower_ids.len());
        let chunks: usize = blob_sweep::chunk_count(point.refs);
        let preload = preload_rate(&point);
        let stripped = without_samples(per_getter);
        MultiGetterDatapointReport {
            run_id: experiment.run.run_id.clone(),
            workload: experiment.run.workload.clone(),
            instance_id: instance.id.clone(),
            backend: setup.backend.clone(),
            resource_id: point.resource_id,
            datapoint_index: point.datapoint_index,
            source_instance_id: setup.lead_id.clone(),
            getter_count: setup.follower_ids.len(),
            getter_instance_ids: text::clone_strings(&setup.follower_ids),
            operations,
            operations_per_getter: point.operations as u64,
            warmup_operations: 0,
            duration_seconds: setup.duration_seconds,
            object_size_bytes: experiment.benchmark.object_size_bytes,
            total_bytes: aggregate.completed_tasks as u64 * experiment.benchmark.object_size_bytes,
            working_set_size: point.operations as u64,
            refs_distribution: "shared-list".to_owned(),
            getter_reuse_policy: "no-repeat".to_owned(),
            cross_getter_reuse: true,
            refs_chunk_size: REF_CHUNK_SIZE as u64,
            refs_chunk_count: chunks as u64,
            per_getter_target_ops_per_s: point.rate_per_getter,
            aggregate_target_ops_per_s: point.rate,
            preload_put_ms: point.preload_put_ms,
            preload_put_concurrency: point.preload_put_concurrency as u64,
            preload_put_ops_per_s: preload,
            store: Vec::new(),
            paced: aggregate,
            per_getter: stripped,
        }
    }
}

/// An experiment with many getters.
#[derive(Debug)]
pub struct MultiGetterReport {
    pub run_id: String,
    pub workload: String,
    pub instance_id: String,
    pub backend: String,
    pub operations_per_point: u64,
    pub warmup_operations_per_point: u64,
    pub duration_seconds: Real,
    pub concurrency: usize,
    pub object_size_bytes: u64,
    pub getter_count: usize,
    pub source_instance_id: String,
    pub getter_instance_ids: Vec<String>,
    pub stop_reason: SweepStopReason,
    pub datapoints: Vec<MultiGetterDatapointReport>,
}

impl MultiGetterReport {
    /// Reports a sweep.
    pub fn of(
        experiment: &ExperimentSpec,
        instance: &InstanceConfig,
        setup: &GetterSetup,
        stop_reason: SweepStopReason,
        datapoints: Vec<MultiGetterDatapointReport>,
    ) -> (r: MultiGetterReport)
        ensures
            r.run_id == experiment.run.run_id,
            r.workload == experiment.run.workload,
            r.instance_id == instance.id,
            r.backend == setup.backend,
            r.operations_per_point == experiment.benchmark.operations,
            r.warmup_operations_per_point == experiment.benchmark.warmup_operations,
            r.duration_seconds == setup.duration_seconds,
            r.concurrency == experiment.benchmark.concurrency,
            r.object_size_bytes == experiment.benchmark.object_size_bytes,
            r.getter_count == setup.follower_ids@.len(),
            r.source_instance_id == setup.lead_id,
            text::views(r.getter_instance_ids@) == text::views(setup.follower_ids@),
            r.stop_reason == stop_reason,
            r.datapoints == datapoints,
    {
        MultiGetterReport {
            run_id: experiment.run.run_id.clone(),
            workload: experiment.run.workload.clone(),
            instance_id: instance.id.clone(),
            backend: setup.backend.clone(),
            operations_per_point: experiment.benchmark.operations,
            warmup_operations_per_point: experiment.benchmark.warmup_operations,
            duration_seconds: setup.duration_seconds,
            concurrency: experiment.benchmark.concurrency,
            object_size_bytes: experiment.benchmark.object_size_bytes,
            getter_count: setup.follower_ids.len(),
            source_instance_id: setup.lead_id.clone(),
            getter_instance_ids: text::clone_strings(&setup.follower_ids),
            stop_reason,
            datapoints,
        }
    }
}

/// One datapoint of an experiment with one getter. The paced run of the datapoint is that of the
/// getter, and neither has its samples.
#[derive(Debug)]
pub struct SingleGetterDatapointReport {
    pub run_id: String,
    pub workload: String,
    pub instance_id: String,
    pub backend: String,
    pub resource_id: String,
    pub datapoint_index: usize,
    pub getter_instance_id: String,
    pub putter_count: usize,
    pub putter_instance_ids: Vec<String>,
    pub operations: u64,
    pub warmup_operations: u64,
    pub duration_seconds: Real,
    pub object_size_bytes: u64,
    pub total_bytes: u64,
    pub working_set_size: u64,
    pub refs_distribution: String,
    pub getter_reuse_policy: String,
    pub cross_getter_reuse: bool,
    pub refs_chunk_size: u64,
    pub refs_chunk_count: u64,
    pub aggregate_target_ops_per_s: Real,
    pub preload_put_ms: Real,
    pub preload_put_concurrency: u64,
    pub preload_put_ops_per_s: Real,
    pub expected_working_set_bytes: u64,
    pub store: Vec<Entry>,
    pub paced: PacedTaskRunReport,
    pub getter: GetterReport,
    pub per_putter: Vec<PutterReport>,
}

impl SingleGetterDatapointReport {
    /// Reports a datapoint.
    pub fn of(
        experiment: &ExperimentSpec,
        setup: &GetterSetup,
        point: GetterPoint,
        getter: GetterReport,
        per_putter: Vec<PutterReport>,
    ) -> (r: SingleGetterDatapointReport)
        requires
            point.operations * experiment.benchmark.object_size_bytes <= u64::MAX,
        ensures
            r.run_id == experiment.run.run_id,
            r.workload == experiment.run.workload,
            r.instance_id == setup.lead_id,
            r.backend == setup.backend,
            r.resource_id == point.resource_id,
            r.datapoint_index == point.datapoint_index,
            r.getter_instance_id == setup.lead_id,
            r.putter_count == setup.follower_ids@.len(),
            text::views(r.putter_instance_ids@) == text::views(setup.follower_ids@),
            r.operations == point.operations as u64,
            r.warmup_operations == 0,
            r.duration_seconds == setup.duration_seconds,
            r.object_size_bytes == experiment.benchmark.object_size_bytes,
            r.total_bytes == getter.total_bytes,
            r.working_set_size == point.operations as u64,
            r.refs_distribution@ == "even-round-robin"@,
            r.getter_reuse_policy@ == "no-repeat"@,
            r.cross_getter_reuse == false,
            r.refs_chunk_size == REF_CHUNK_SIZE as u64,
            r.refs_chunk_count == blob_sweep::chunk_count_spec(point.operations as nat),
            r.aggregate_target_ops_per_s == point.rate,
            r.preload_put_ms == point.preload_put_ms,
            r.preload_put_concurrency == point.preload_put_concurrency as u64,
            r.preload_put_ops_per_s == preload_rate_spec(point),
            r.expected_working_set_bytes == point.operations * experiment.benchmark.object_size_bytes,
            r.store@.len() == 0,
            is_without_samples(r.getter, getter),
            r.paced.same(r.getter.paced),
            r.per_putter == per_putter,
    {
        let chunks: usize = blob_sweep::chunk_count(point.operations);
        let preload = preload_rate(&point);
        let stripped = GetterReport {
            instance_id: getter.instance_id,
            count: getter.count,
            total_bytes: getter.total_bytes,
            elapsed_ms: getter.elapsed_ms,
            materialized_dir: getter.materialized_dir,
            paced: getter.paced.without_samples(),
        };
        let paced = stripped.paced.clone();
        SingleGetterDatapointReport {
            run_id: experiment.run.run_id.clone(),
            workload: experiment.run.workload.clone(),
            instance_id: setup.lead_id.clone(),
            backend: setup.backend.clone(),
            resource_id: point.resource_id,
            datapoint_index: point.datapoint_index,
            getter_instance_id: setup.lead_id.clone(),
            putter_count: setup.follower_ids.len(),
            putter_instance_ids: text::clone_strings(&setup.follower_ids),
            operations: point.operations as u64,
            warmup_operations: 0,
            duration_seconds: setup.duration_seconds,
            object_size_bytes: experiment.benchmark.object_size_bytes,
            total_bytes: getter.total_bytes,
            working_set_size: point.operations as u64,
            refs_distribution: "even-round-robin".to_owned(),
            getter_reuse_policy: "no-repeat".to_owned(),
            cross_getter_reuse: false,
            refs_chunk_size: REF_CHUNK_SIZE as u64,
            refs_chunk_count: chunks as u64,
            aggregate_target_ops_per_s: point.rate,
            preload_put_ms: point.preload_put_ms,
            preload_put_concurrency: point.preload_put_concurrency as u64,
            preload_put_ops_per_s: preload,
            expected_working_set_bytes: point.operations as u64 * experiment.benchmark.object_size_bytes,
            store: Vec::new(),
            paced,
            getter: stripped,
            per_putter,
        }
    }
}

/// An experiment with one getter.
#[derive(Debug)]
pub struct SingleGetterReport {
    pub run_id: String,
    pub workload: String,
    pub instance_id: String,
    pub backend: String,
    pub operations_per_point: u64,
    pub warmup_operations_per_point: u64,
    pub duration_seconds: Real,
    pub concurrency: usize,
    pub object_size_bytes: u64,
    pub getter_instance_id: String,
    pub putter_count: usize,
    pub putter_instance_ids: Vec<String>,
    pub stop_reason: SweepStopReason,
    pub datapoints: Vec<SingleGetterDatapointReport>,
}

impl SingleGetterReport {
    /// Reports a sweep.
    pub fn of(
        experiment: &ExperimentSpec,
        setup: &GetterSetup,
        stop_reason: SweepStopReason,
        datapoints: Vec<SingleGetterDatapointReport>,
    ) -> (r: SingleGetterReport)
        ensures
            r.run_id == experiment.run.run_id,
            r.workload == experiment.run.workload,
            r.instance_id == setup.lead_id,
            r.backend == setup.backend,
            r.operations_per_point == experiment.benchmark.operations,
            r.warmup_operations_per_point == experiment.benchmark.warmup_operations,
            r.duration_seconds == setup.duration_seconds,
            r.concurrency == experiment.benchmark.concurrency,
            r.object_size_bytes == experiment.benchmark.object_size_bytes,
            r.getter_instance_id == setup.lead_id,
            r.putter_count == setup.follower_ids@.len(),
            text::views(r.putter_instance_ids@) == text::views(setup.follower_ids@),
            r.stop_reason == stop_reason,
            r.datapoints == datapoints,
    {
        SingleGetterReport {
            run_id: experiment.run.run_id.clone(),
            workload: experiment.run.workload.clone(),
            instance_id: setup.lead_id.clone(),
            backend: setup.backend.clone(),
            operations_per_point: experiment.benchmark.operations,
            warmup_operations_per_point: experiment.benchmark.warmup_operations,
            duration_seconds: setup.duration_seconds,
            concurrency: experiment.benchmark.concurrency,
            object_size_bytes: experiment.benchmark.object_size_bytes,
            getter_instance_id: setup.lead_id.clone(),
            putter_count: setup.follower_ids.len(),
            putter_instance_ids: text::clone_strings(&setup.follower_ids),
            stop_reason,
            datapoints,
        }
    }
}

/// One datapoint of a put experiment.
#[derive(Debug)]
pub struct PutDatapointReport {
    pub run_id: String,
    pub workload: String,
    pub instance_id: String,
    pub backend: String,
    pub resource_id: String,
    pub operations: u64,
    pub warmup_operations: u64,
    pub object_size_bytes: u64,
    pub total_bytes: u64,
    pub input_dir: String,
    pub store: Vec<Entry>,
    pub paced: PacedRunSummary,
}

impl PutDatapointReport {
    /// Reports a datapoint with so many operations to measure.
    pub fn of(
        measured_operations: u64,
        experiment: &ExperimentSpec,
        instance: &InstanceConfig,
        backend: &str,
        resource_id: &str,
        input_dir: String,
        store: Vec<Entry>,
        paced: &PacedTaskRunReport,
    ) -> (r: PutDatapointReport)
        ensures
            r.run_id == experiment.run.run_id,
            r.workload == experiment.run.workload,
            r.instance_id == instance.id,
            r.backend@ == backend@,
            r.resource_id@ == resource_id@,
            r.operations == measured_operations,
            r.warmup_operations == experiment.benchmark.warmup_operations,
            r.object_size_bytes == experiment.benchmark.object_size_bytes,
            r.total_bytes == text::min_int(
                measured_operations * experiment.benchmark.object_size_bytes,
                u64::MAX as int,
            ),
            r.input_dir == input_dir,
            r.store == store,
            r.paced.is_of(*paced),
    {
        PutDatapointReport {
            run_id: experiment.run.run_id.clone(),
            workload: experiment.run.workload.clone(),
            instance_id: instance.id.clone(),
            backend: backend.to_owned(),
            resource_id: resource_id.to_owned(),
            operations: measured_operations,
            warmup_operations: experiment.benchmark.warmup_operations,
            object_size_bytes: experiment.benchmark.object_size_bytes,
            total_bytes: put_sweep::put_total_bytes(measured_operations, experiment),
            input_dir,
            store,
            paced: PacedRunSummary::of(paced),
        }
    }
}

/// A put experiment.
#[derive(Debug)]
pub struct PutSweepReport {
    pub run_id: String,
    pub workload: String,
    pub instance_id: String,
    pub backend: String,
    pub operations_per_point: u64,
    pub warmup_operations_per_point: u64,
    pub object_size_bytes: u64,
    pub policy: ThroughputSweepPolicy,
    pub stop_reason: SweepStopReason,
    pub datapoints: Vec<PutDatapointReport>,
}

impl PutSweepReport {
    /// Reports a sweep.
    pub fn new(
        instance: &InstanceConfig,
        experiment: &ExperimentSpec,
        backend: &str,
        policy: ThroughputSweepPolicy,
        stop_reason: SweepStopReason,
        datapoints: Vec<PutDatapointReport>,
    ) -> (r: PutSweepReport)
        ensures
            r.run_id == experiment.run.run_id,
            r.workload == experiment.run.workload,
            r.instance_id == instance.id,
            r.backend@ == backend@,
            r.operations_per_point == experiment.benchmark.operations,
            r.warmup_operations_per_point == experiment.benchmark.warmup_operations,
            r.object_size_bytes == experiment.benchmark.object_size_bytes,
            r.policy == policy,
            r.stop_reason == stop_reason,
            r.datapoints == datapoints,
    {
        PutSweepReport {
            run_id: experiment.run.run_id.clone(),
            workload: experiment.run.workload.clone(),
            instance_id: instance.id.clone(),
            backend: backend.to_owned(),
            operations_per_point: experiment.benchmark.operations,
            warmup_operations_per_point: experiment.benchmark.warmup_operations,
            object_size_bytes: experiment.benchmark.object_size_bytes,
            policy,
            stop_reason,
            datapoints,
        }
    }
}

/// One datapoint of a metadata experiment.
#[derive(Debug)]
pub struct MetadataDatapointReport {
    pub run_id: String,
    pub workload: String,
    pub instance_id: String,
    pub backend: String,
    pub resource_id: String,
    pub channel_id: String,
    pub operation: String,
    pub operations: u64,
    pub warmup_operations: u64,
    pub object_size_bytes: u64,
    pub scan_limit: Option<usize>,
    pub claim_target_count: Option<usize>,
    pub store: Vec<Entry>,
    pub counters: Vec<Counter>,
    pub paced: PacedRunSummary,
}

impl MetadataDatapointReport {
    /// Reports a datapoint.
    pub fn new(
        instance: &InstanceConfig,
        experiment: &ExperimentSpec,
        workload: MetadataWorkload,
        resource_id: String,
        channel_id: String,
        operations: u64,
        store: Vec<Entry>,
        paced: &PacedTaskRunReport,
        counters: Vec<Counter>,
        scan_limit: Option<usize>,
        claim_target_count: Option<usize>,
    ) -> (r: MetadataDatapointReport)
        ensures
            r.run_id == experiment.run.run_id,
            r.workload == experiment.run.workload,
            r.instance_id == instance.id,
            r.backend@ == "dynamodb"@,
            r.resource_id == resource_id,
            r.channel_id == channel_id,
            r.operation@ == workload.operation_spec(),
            r.operations == operations,
            r.warmup_operations == experiment.benchmark.warmup_operations,
            r.object_size_bytes == experiment.benchmark.object_size_bytes,
            r.scan_limit == scan_limit,
            r.claim_target_count == claim_target_count,
            r.store == store,
            r.counters == counters,
            r.paced.is_of(*paced),
    {
        MetadataDatapointReport {
            run_id: experiment.run.run_id.clone(),
            workload: experiment.run.workload.clone(),
            instance_id: instance.id.clone(),
            backend: workload.backend_name().to_owned(),
            resource_id,
            channel_id,
            operation: workload.operation().to_owned(),
            operations,
            warmup_operations: experiment.benchmark.warmup_operations,
            object_size_bytes: experiment.benchmark.object_size_bytes,
            scan_limit,
            claim_target_count,
            store,
            counters,
            paced: PacedRunSummary::of(paced),
        }
    }
}

/// A metadata experiment.
#[derive(Debug)]
pub struct MetadataSweepReport {
    pub run_id: String,
    pub workload: String,
    pub instance_id: String,
    pub backend: String,
    pub operations_per_point: u64,
    pub warmup_operations_per_point: u64,
    pub duration_seconds: Option<Real>,
    pub concurrency: usize,
    pub object_size_bytes: u64,
    pub policy: ThroughputSweepPolicy,
    pub stop_reason: SweepStopReason,
    pub datapoints: Vec<MetadataDatapointReport>,
}

impl MetadataSweepReport {
    /// Reports a sweep.
    pub fn new(
        instance: &InstanceConfig,
        experiment: &ExperimentSpec,
        backend: &str,
        policy: ThroughputSweepPolicy,
        stop_reason: SweepStopReason,
        datapoints: Vec<MetadataDatapointReport>,
    ) -> (r: MetadataSweepReport)
        ensures
            r.run_id == experiment.run.run_id,
            r.workload == experiment.run.workload,
            r.instance_id == instance.id,
            r.backend@ == backend@,
            r.operations_per_point == experiment.benchmark.operations,
            r.warmup_operations_per_point == experiment.benchmark.warmup_operations,
            r.duration_seconds == experiment.benchmark.duration_seconds,
            r.concurrency == experiment.benchmark.concurrency,
            r.object_size_bytes == experiment.benchmark.object_size_bytes,
            r.policy == policy,
            r.stop_reason == stop_reason,
            r.datapoints == datapoints,
    {
        MetadataSweepReport {
            run_id: experiment.run.run_id.clone(),
            workload: experiment.run.workload.clone(),
            instance_id: instance.id.clone(),
            backend: backend.to_owned(),
            operations_per_point: experiment.benchmark.operations,
            warmup_operations_per_point: experiment.benchmark.warmup_operations,
            duration_seconds: experiment.benchmark.duration_seconds,
            concurrency: experiment.benchmark.concurrency,
            object_size_bytes: experiment.benchmark.object_size_bytes,
            policy,
            stop_reason,
            datapoints,
        }
    }
}

/// The rate of the preload is the one that was measured, and zero where it took no time.
pub proof fn lemma_preload_rates(point: GetterPoint)
    ensures
        (Real { bits: 0 }).lt_spec(point.preload_put_ms) ==> preload_rate_spec(point)
            == point.preload_rate,
        !(Real { bits: 0 }).lt_spec(point.preload_put_ms) ==> preload_rate_spec(point) == (Real {
            bits: 0,
        }),
        POLL_TARGET_MULTIPLIER == 0x4000_0000_0000_0000,
{
}

/// A report without its samples is the same in all else: every count, rate and latency, and the
/// failures.
pub proof fn lemma_only_samples_are_left_out(r: GetterReport, full: GetterReport)
    requires
        is_without_samples(r, full),
    ensures
        r.paced.samples@.len() == 0,
        r.paced.failures == full.paced.failures,
        r.paced.total_tasks == full.paced.total_tasks,
        r.paced.completed_tasks == full.paced.completed_tasks,
        r.paced.failed_tasks == full.paced.failed_tasks,
        r.paced.wall_time_ms == full.paced.wall_time_ms,
        r.paced.achieved_ops_per_s == full.paced.achieved_ops_per_s,
        r.paced.offered_latency == full.paced.offered_latency,
        r.paced.service_latency == full.paced.service_latency,
        r.paced.schedule_lag == full.paced.schedule_lag,
        r == (GetterReport { paced: r.paced, ..full }),
{
}

/// What `aggregate_getters` returns of getters: its tasks are those of all getters, and the largest of
/// each latency is that latency of a sample of some getter.
pub proof fn lemma_aggregate_getters_returns(
    getters: &Vec<GetterReport>,
    failures: Vec<String>,
    figures: blob_sweep::GetterFigures,
    r: channel_sweep::AggregatePacedSummary,
)
    requires
        call_ensures(blob_sweep::aggregate_getters, (getters, failures, figures), r),
        0 < blob_sweep::samples_of_all(getters@) <= usize::MAX,
    ensures
        r.total_tasks == blob_sweep::tasks_sum(getters@),
        r.completed_tasks == blob_sweep::completed_sum(getters@),
        r.failed_tasks == blob_sweep::failed_sum(getters@) + failures@.len(),
        r.target_ops_per_s == figures.target_ops_per_s,
        r.achieved_ops_per_s == figures.achieved_ops_per_s,
        r.successful_ops_per_s == figures.successful_ops_per_s,
        blob_sweep::is_a_service_latency(getters@, r.service_latency.max_ms),
        blob_sweep::is_an_offered_latency(getters@, r.offered_latency.max_ms),
        blob_sweep::is_a_schedule_lag(getters@, r.schedule_lag.max_ms),
{
    blob_sweep::lemma_aggregate_figures_are_samples(getters@, figures.service_mean_ms);
    blob_sweep::lemma_aggregate_figures_are_samples(getters@, figures.offered_mean_ms);
    blob_sweep::lemma_aggregate_figures_are_samples(getters@, figures.lag_mean_ms);
}

} // verus!
