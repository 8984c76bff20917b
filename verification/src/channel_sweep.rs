//! The channel experiment: one sender, several receivers, one rate after another.
use crate::binary64;
use crate::binary64::Real;
use crate::config::ExperimentSpec;
use crate::latency::LatencySummary;
use crate::naming;
use crate::participants;
use crate::participants::Role;
use crate::protocol::{
    ChannelReceiverResult, ChannelSendResult, InitReceiverRequest, InitSenderRequest,
    StartChannelReceiverRequest, StartPacedChannelSendRequest,
};
use crate::sweep;
use crate::sweep::ThroughputSweepPolicy;
use crate::text;
use vstd::prelude::*;
use vstd::string::*;

verus! {

/// The failures of one party that a datapoint names.
pub const SHOWN_FAILURES: usize = 16;

/// How payloads are made.
pub const PAYLOAD_STRATEGY: &'static str = "prestage-patch";

/// How receivers poll.
pub const POLL_STRATEGY: &'static str = "paced-try-pop-until-eof";

// ---------------------------------------------------------------------------------------------
// Setting up
// ---------------------------------------------------------------------------------------------
/// How many elements a datapoint may have.
#[derive(Clone, Copy, Debug, PartialEq, Eq, Structural)]
pub struct DatapointElementBounds {
    pub min: usize,
    pub max: usize,
}

pub open spec fn bounds_spec(experiment: ExperimentSpec) -> Result<DatapointElementBounds, Seq<
    char,
>> {
    let min = match experiment.lambda_channel.min_elements_per_datapoint {
        Some(n) => n,
        None => 1usize,
    };
    let max = match experiment.lambda_channel.max_elements_per_datapoint {
        Some(n) => n,
        None => usize::MAX,
    };
    if min == 0 || max == 0 {
        Err("channel datapoint element bounds must be greater than zero"@)
    } else if min > max {
        Err("channel datapoint min elements must be <= max elements"@)
    } else {
        Ok(DatapointElementBounds { min, max })
    }
}

pub fn datapoint_element_bounds(experiment: &ExperimentSpec) -> (r: Result<
    DatapointElementBounds,
    String,
>)
    ensures
        match r {
            Ok(b) => bounds_spec(*experiment) == Ok::<DatapointElementBounds, Seq<char>>(b)
                && 0 < b.min <= b.max,
            Err(m) => bounds_spec(*experiment) == Err::<DatapointElementBounds, Seq<char>>(m@),
        },
{
    let min: usize = match experiment.lambda_channel.min_elements_per_datapoint {
        Some(n) => n,
        None => 1,
    };
    let max: usize = match experiment.lambda_channel.max_elements_per_datapoint {
        Some(n) => n,
        None => usize::MAX,
    };
    if min == 0 || max == 0 {
        return Err("channel datapoint element bounds must be greater than zero".to_owned());
    }
    if min > max {
        return Err("channel datapoint min elements must be <= max elements".to_owned());
    }
    Ok(DatapointElementBounds { min, max })
}

/// The consume mode in lower case; there are two.
pub open spec fn mode_spec(experiment: ExperimentSpec) -> Result<Seq<char>, Seq<char>> {
    let mode = text::normal_spec(experiment.lambda_channel.consume_mode@);
    if mode == "fanout"@ || mode == "competitive"@ {
        Ok(mode)
    } else {
        Err("unsupported channel consume_mode: "@ + mode)
    }
}

pub fn consume_mode(experiment: &ExperimentSpec) -> (r: Result<String, String>)
    ensures
        match r {
            Ok(mode) => mode_spec(*experiment) == Ok::<Seq<char>, Seq<char>>(mode@),
            Err(m) => mode_spec(*experiment) == Err::<Seq<char>, Seq<char>>(m@),
        },
{
    let mode = text::normal(experiment.lambda_channel.consume_mode.as_str());
    if text::same(mode.as_str(), "fanout") || text::same(mode.as_str(), "competitive") {
        Ok(mode)
    } else {
        Err(text::cat2("unsupported channel consume_mode: ", mode.as_str()))
    }
}

/// What a channel experiment runs with.
#[derive(Debug)]
pub struct ChannelSetup {
    pub backend: String,
    pub consume_mode: String,
    pub duration_seconds: Real,
    pub sender_id: String,
    pub receiver_ids: Vec<String>,
    pub policy: ThroughputSweepPolicy,
    pub rates: Vec<Real>,
    pub bounds: DatapointElementBounds,
}

/// What stands in the way of a channel experiment, in the order in which it is looked for.
pub open spec fn setup_problem(e: ExperimentSpec, ladder: Seq<Real>) -> Option<Seq<char>> {
    let backend = text::normal_spec(e.benchmark.backend@);
    let sender = participants::lead_spec(e.participants@, Role::Sender);
    if backend != "s3"@ && backend != "p2p"@ {
        Some("channel.single_sender_multi_receiver requires benchmark.backend = s3 or p2p"@)
    } else if text::trim_spec(e.lambda_channel.metadata_backend@) != "dynamodb"@ {
        Some(
            "channel.single_sender_multi_receiver formal runs require lambda_channel.metadata_backend = dynamodb"@,
        )
    } else if backend == "p2p"@ && text::trim_spec(e.p2p.tracker_backend@) != "dynamodb"@ {
        Some("channel.single_sender_multi_receiver p2p requires p2p.tracker_backend = dynamodb"@)
    } else if mode_spec(e) is Err {
        Some(mode_spec(e)->Err_0)
    } else if e.benchmark.duration_seconds is None {
        Some("channel.single_sender_multi_receiver requires benchmark.duration_seconds"@)
    } else if sender is None {
        Some("channel experiment requires participants"@)
    } else if participants::followers_spec(e.participants@, Role::Receiver, sender->0).len() == 0 {
        Some("channel.single_sender_multi_receiver requires at least one receiver"@)
    } else if sweep::policy_of(e).problem() is Some {
        sweep::policy_of(e).problem()
    } else if sweep::target_rates_spec(e, sweep::policy_of(e), ladder).len() == 0 {
        Some("channel throughput sweep generated no target rates"@)
    } else if bounds_spec(e) is Err {
        Some(bounds_spec(e)->Err_0)
    } else {
        None
    }
}

impl ChannelSetup {
    /// Whether the setup is what the experiment asks for.
    pub open spec fn fits(self, e: ExperimentSpec, ladder: Seq<Real>) -> bool {
        &&& self.backend@ == text::normal_spec(e.benchmark.backend@)
        &&& mode_spec(e) == Ok::<Seq<char>, Seq<char>>(self.consume_mode@)
        &&& e.benchmark.duration_seconds == Some(self.duration_seconds)
        &&& participants::lead_spec(e.participants@, Role::Sender) == Some(self.sender_id@)
        &&& text::views(self.receiver_ids@) == participants::followers_spec(
            e.participants@,
            Role::Receiver,
            self.sender_id@,
        )
        &&& self.receiver_ids@.len() > 0
        &&& self.policy == sweep::policy_of(e)
        &&& self.rates@ == sweep::target_rates_spec(e, self.policy, ladder)
        &&& bounds_spec(e) == Ok::<DatapointElementBounds, Seq<char>>(self.bounds)
    }
}

/// Checks a channel experiment. `ladder` holds the successive rates from the policy's start.
pub fn channel_setup(experiment: &ExperimentSpec, ladder: &Vec<Real>) -> (r: Result<
    ChannelSetup,
    String,
>)
    ensures
        match r {
            Ok(setup) => setup_problem(*experiment, ladder@) is None && setup.fits(
                *experiment,
                ladder@,
            ),
            Err(m) => setup_problem(*experiment, ladder@) == Some(m@),
        },
{
    let backend = text::normal(experiment.benchmark.backend.as_str());
    let p2p = text::same(backend.as_str(), "p2p");
    if !text::same(backend.as_str(), "s3") && !p2p {
        return Err(
            "channel.single_sender_multi_receiver requires benchmark.backend = s3 or p2p".to_owned(),
        );
    }
    let metadata_backend = text::trim(experiment.lambda_channel.metadata_backend.as_str());
    if !text::same(metadata_backend.as_str(), "dynamodb") {
        return Err(
            "channel.single_sender_multi_receiver formal runs require lambda_channel.metadata_backend = dynamodb".to_owned(),
        );
    }
    let tracker_backend = text::trim(experiment.p2p.tracker_backend.as_str());
    if p2p && !text::same(tracker_backend.as_str(), "dynamodb") {
        return Err(
            "channel.single_sender_multi_receiver p2p requires p2p.tracker_backend = dynamodb".to_owned(),
        );
    }
    let consume_mode = match consume_mode(experiment) {
        Ok(mode) => mode,
        Err(m) => {
            return Err(m);
        },
    };
    let duration_seconds = match experiment.benchmark.duration_seconds {
        Some(d) => d,
        None => {
            return Err(
                "channel.single_sender_multi_receiver requires benchmark.duration_seconds".to_owned(),
            );
        },
    };
    let sender_id = match participants::lead_id(&experiment.participants, Role::Sender) {
        Some(id) => id,
        None => {
            return Err("channel experiment requires participants".to_owned());
        },
    };
    let receiver_ids = participants::follower_ids(
        &experiment.participants,
        Role::Receiver,
        sender_id.as_str(),
    );
    assert(receiver_ids@.len() == text::views(receiver_ids@).len());
    if receiver_ids.len() == 0 {
        return Err(
            "channel.single_sender_multi_receiver requires at least one receiver".to_owned(),
        );
    }
    let policy = match sweep::sweep_policy(experiment) {
        Ok(policy) => policy,
        Err(m) => {
            return Err(m);
        },
    };
    let rates = match sweep::target_rates(
        experiment,
        &policy,
        ladder,
        "channel throughput sweep generated no target rates",
    ) {
        Ok(rates) => rates,
        Err(m) => {
            return Err(m);
        },
    };
    let bounds = match datapoint_element_bounds(experiment) {
        Ok(bounds) => bounds,
        Err(m) => {
            return Err(m);
        },
    };
    Ok(
        ChannelSetup {
            backend,
            consume_mode,
            duration_seconds,
            sender_id,
            receiver_ids,
            policy,
            rates,
            bounds,
        },
    )
}

// ---------------------------------------------------------------------------------------------
// Rates
// ---------------------------------------------------------------------------------------------
/// The rate at which all receivers together are to receive: a fanout delivers every element to each
/// of them, which `fanout_rate` says; otherwise each element is delivered once.
pub fn expected_receiver_ops_per_s(mode: &str, sender_rate: Real, fanout_rate: Real) -> (r: Real)
    ensures
        r == if mode@ == "fanout"@ {
            fanout_rate
        } else {
            sender_rate
        },
{
    if text::same(mode, "fanout") {
        fanout_rate
    } else {
        sender_rate
    }
}

/// The rate at which one receiver polls: twice that of the sender in a fanout, twice its share of it
/// otherwise.
pub fn receiver_poll_target_ops_per_s(mode: &str, twice_rate: Real, twice_share: Real) -> (r: Real)
    ensures
        r == if mode@ == "fanout"@ {
            twice_rate
        } else {
            twice_share
        },
{
    if text::same(mode, "fanout") {
        twice_rate
    } else {
        twice_share
    }
}

/// The polls that a receiver has under way: one where receivers compete.
pub fn receiver_poll_concurrency(mode: &str, benchmark_concurrency: usize) -> (r: usize)
    ensures
        r == if mode@ == "competitive"@ || benchmark_concurrency == 0 {
            1usize
        } else {
            benchmark_concurrency
        },
        r > 0,
{
    if text::same(mode, "competitive") || benchmark_concurrency == 0 {
        1
    } else {
        benchmark_concurrency
    }
}

/// Whether the sender fell behind: the share of its target that it pushed, and whether that is below
/// the policy's.
pub fn sender_limited(
    target: Real,
    successful_share: Real,
    policy: &ThroughputSweepPolicy,
) -> (r: (Real, bool))
    ensures
        r.0 == if Real::zero_spec().lt_spec(target) {
            successful_share
        } else {
            Real::zero_spec()
        },
        r.1 == r.0.lt_spec(policy.saturation_achieved_ratio),
{
    let ratio = if Real::zero().lt(target) {
        successful_share
    } else {
        Real::zero()
    };
    (ratio, ratio.lt(policy.saturation_achieved_ratio))
}

// ---------------------------------------------------------------------------------------------
// The steps of a datapoint
// ---------------------------------------------------------------------------------------------
#[derive(Clone, Copy, Debug, PartialEq, Eq, Structural)]
pub enum ChannelStep {
    BeginSender,
    InitSender,
    BeginReceiver { index: usize },
    InitReceiver { index: usize },
    StartReceivers,
    AwaitReady { index: usize },
    Send,
    CancelReceivers,
    FinishReceivers,
    CleanUp,
    Report,
}

impl ChannelStep {
    /// The step that follows, with `n` receivers.
    pub open spec fn next(self, n: usize, sender_failed: bool) -> ChannelStep {
        match self {
            ChannelStep::BeginSender => ChannelStep::InitSender,
            ChannelStep::InitSender => if n > 0 {
                ChannelStep::BeginReceiver { index: 0 }
            } else {
                ChannelStep::StartReceivers
            },
            ChannelStep::BeginReceiver { index } => ChannelStep::InitReceiver { index },
            ChannelStep::InitReceiver { index } => if index + 1 < n {
                ChannelStep::BeginReceiver { index: (index + 1) as usize }
            } else {
                ChannelStep::StartReceivers
            },
            ChannelStep::StartReceivers => if n > 0 {
                ChannelStep::AwaitReady { index: 0 }
            } else {
                ChannelStep::Send
            },
            ChannelStep::AwaitReady { index } => if index + 1 < n {
                ChannelStep::AwaitReady { index: (index + 1) as usize }
            } else {
                ChannelStep::Send
            },
            ChannelStep::Send => if sender_failed {
                ChannelStep::CancelReceivers
            } else {
                ChannelStep::FinishReceivers
            },
            ChannelStep::CancelReceivers => ChannelStep::FinishReceivers,
            ChannelStep::FinishReceivers => ChannelStep::CleanUp,
            ChannelStep::CleanUp => ChannelStep::Report,
            ChannelStep::Report => ChannelStep::Report,
        }
    }

    pub fn following(self, receiver_count: usize, sender_failed: bool) -> (r: ChannelStep)
        ensures
            r == self.next(receiver_count, sender_failed),
    {
        let n: usize = receiver_count;
        match self {
            ChannelStep::BeginSender => ChannelStep::InitSender,
            ChannelStep::InitSender => {
                if n > 0 {
                    ChannelStep::BeginReceiver { index: 0 }
                } else {
                    ChannelStep::StartReceivers
                }
            },
            ChannelStep::BeginReceiver { index } => ChannelStep::InitReceiver { index },
            ChannelStep::InitReceiver { index } => {
                if n > 0 && index < n - 1 {
                    ChannelStep::BeginReceiver { index: index + 1 }
                } else {
                    ChannelStep::StartReceivers
                }
            },
            ChannelStep::StartReceivers => {
                if n > 0 {
                    ChannelStep::AwaitReady { index: 0 }
                } else {
                    ChannelStep::Send
                }
            },
            ChannelStep::AwaitReady { index } => {
                if n > 0 && index < n - 1 {
                    ChannelStep::AwaitReady { index: index + 1 }
                } else {
                    ChannelStep::Send
                }
            },
            ChannelStep::Send => {
                if sender_failed {
                    ChannelStep::CancelReceivers
                } else {
                    ChannelStep::FinishReceivers
                }
            },
            ChannelStep::CancelReceivers => ChannelStep::FinishReceivers,
            ChannelStep::FinishReceivers => ChannelStep::CleanUp,
            ChannelStep::CleanUp => ChannelStep::Report,
            ChannelStep::Report => ChannelStep::Report,
        }
    }

    /// Whether a failure of the step fails the datapoint. Later failures are part of its report.
    pub open spec fn fatal_spec(self) -> bool {
        !(self is CancelReceivers || self is FinishReceivers || self is CleanUp || self is Report)
    }

    pub fn is_fatal(self) -> (r: bool)
        ensures
            r == self.fatal_spec(),
    {
        match self {
            ChannelStep::CancelReceivers => false,
            ChannelStep::FinishReceivers => false,
            ChannelStep::CleanUp => false,
            ChannelStep::Report => false,
            _ => true,
        }
    }

    /// The index of a step, where it has one, is that of a receiver.
    pub open spec fn valid(self, n: usize) -> bool {
        match self {
            ChannelStep::BeginReceiver { index } => index < n,
            ChannelStep::InitReceiver { index } => index < n,
            ChannelStep::AwaitReady { index } => index < n,
            _ => true,
        }
    }

    /// Where a step stands in the order of a datapoint with `n` receivers.
    pub open spec fn rank(self, n: usize) -> int {
        match self {
            ChannelStep::BeginSender => 0,
            ChannelStep::InitSender => 1,
            ChannelStep::BeginReceiver { index } => 2 + 2 * index,
            ChannelStep::InitReceiver { index } => 3 + 2 * index,
            ChannelStep::StartReceivers => 2 + 2 * n,
            ChannelStep::AwaitReady { index } => 3 + 2 * n + index,
            ChannelStep::Send => 3 + 3 * n,
            ChannelStep::CancelReceivers => 4 + 3 * n,
            ChannelStep::FinishReceivers => 5 + 3 * n,
            ChannelStep::CleanUp => 6 + 3 * n,
            ChannelStep::Report => 7 + 3 * n,
        }
    }

    /// The steps come in order, none is left out, and only the cancelling of receivers is skipped,
    /// where the sender succeeded. So every receiver is begun, opened, started and ready before the
    /// sender sends, and every datapoint ends.
    pub proof fn lemma_steps_in_order(self, n: usize, sender_failed: bool)
        requires
            self.valid(n),
            self != ChannelStep::Report,
        ensures
            self.next(n, sender_failed).valid(n),
            self.next(n, sender_failed).rank(n) == if self == ChannelStep::Send && !sender_failed {
                self.rank(n) + 2
            } else {
                self.rank(n) + 1
            },
    {
    }
}

/// Whether a send failed, wholly or in part.
pub fn sender_failed(result: &ChannelSendResult) -> (r: bool)
    ensures
        r == (result.paced.failed_tasks > 0 || result.failure_messages@.len() > 0),
{
    result.paced.failed_tasks > 0 || result.failure_messages.len() > 0
}

// ---------------------------------------------------------------------------------------------
// Requests
// ---------------------------------------------------------------------------------------------
/// The id of the channel of a datapoint.
pub open spec fn channel_id_spec(prefix: Seq<char>, resource_id: Seq<char>) -> Seq<char> {
    naming::id_spec(prefix) + "-"@ + resource_id
}

pub fn channel_id(experiment: &ExperimentSpec, resource_id: &str) -> (r: String)
    ensures
        r@ == channel_id_spec(experiment.lambda_channel.channel_id_prefix@, resource_id@),
{
    let prefix = naming::sanitize_id(experiment.lambda_channel.channel_id_prefix.as_str());
    text::cat3(prefix.as_str(), "-", resource_id)
}

/// The sender of a datapoint creates what its stores need.
pub fn sender_request(
    experiment: ExperimentSpec,
    backend: &str,
    channel_id: &str,
    resource_id: &str,
) -> (r: InitSenderRequest)
    ensures
        r.run_id == experiment.run.run_id,
        r.channel_id@ == channel_id@,
        text::option_is(r.backend, backend@),
        r.root_dir is None,
        !r.reopen,
        !r.recover,
        r.force_reinit,
        r.metadata_backend == Some(experiment.lambda_channel.metadata_backend),
        r.experiment == Some(experiment),
        text::option_is(r.resource_id, resource_id@),
        r.create_remote_resources,
{
    InitSenderRequest {
        run_id: experiment.run.run_id.clone(),
        channel_id: channel_id.to_owned(),
        backend: Some(backend.to_owned()),
        root_dir: None,
        reopen: false,
        recover: false,
        force_reinit: true,
        metadata_backend: Some(experiment.lambda_channel.metadata_backend.clone()),
        experiment: Some(experiment),
        resource_id: Some(resource_id.to_owned()),
        create_remote_resources: true,
    }
}

/// A receiver of a datapoint finds what the sender created, and starts with the first element.
pub fn receiver_request(
    experiment: ExperimentSpec,
    backend: &str,
    consume_mode: &str,
    channel_id: &str,
    receiver_id: &str,
    resource_id: &str,
) -> (r: InitReceiverRequest)
    ensures
        r.run_id == experiment.run.run_id,
        r.channel_id@ == channel_id@,
        r.consumer_id@ == receiver_id@ + "-"@ + resource_id@,
        text::option_is(r.backend, backend@),
        r.root_dir is None,
        r.start_seq == 0,
        r.consume_mode@ == consume_mode@,
        !r.passive_mode,
        r.force_reinit,
        r.metadata_backend == Some(experiment.lambda_channel.metadata_backend),
        r.experiment == Some(experiment),
        text::option_is(r.resource_id, resource_id@),
        !r.create_remote_resources,
{
    InitReceiverRequest {
        run_id: experiment.run.run_id.clone(),
        channel_id: channel_id.to_owned(),
        consumer_id: text::cat3(receiver_id, "-", resource_id),
        backend: Some(backend.to_owned()),
        root_dir: None,
        start_seq: 0,
        consume_mode: consume_mode.to_owned(),
        passive_mode: false,
        force_reinit: true,
        metadata_backend: Some(experiment.lambda_channel.metadata_backend.clone()),
        experiment: Some(experiment),
        resource_id: Some(resource_id.to_owned()),
        create_remote_resources: false,
    }
}

/// Starts a receiver.
pub fn start_receiver_request(
    experiment: &ExperimentSpec,
    consume_mode: &str,
    receiver_id: &str,
    poll_target_ops_per_s: Real,
    max_runtime_ms: u64,
) -> (r: StartChannelReceiverRequest)
    ensures
        r.run_id == experiment.run.run_id,
        r.poll_target_ops_per_s == poll_target_ops_per_s,
        r.poll_concurrency == if consume_mode@ == "competitive"@
            || experiment.benchmark.concurrency == 0 {
            1usize
        } else {
            experiment.benchmark.concurrency
        },
        r.materialize_concurrency == experiment.benchmark.concurrency,
        r.output_subdir@ == receiver_id@,
        r.max_runtime_ms == Some(max_runtime_ms),
{
    StartChannelReceiverRequest {
        run_id: experiment.run.run_id.clone(),
        poll_target_ops_per_s,
        poll_concurrency: receiver_poll_concurrency(consume_mode, experiment.benchmark.concurrency),
        materialize_concurrency: experiment.benchmark.concurrency,
        output_subdir: receiver_id.to_owned(),
        max_runtime_ms: Some(max_runtime_ms),
    }
}

/// Starts the sender.
pub fn send_request(experiment: &ExperimentSpec, element_count: usize, target_ops_per_s: Real) -> (r:
    StartPacedChannelSendRequest)
    ensures
        r.run_id == experiment.run.run_id,
        r.count == element_count,
        r.object_size_bytes == experiment.benchmark.object_size_bytes,
        r.target_ops_per_s == target_ops_per_s,
        r.max_in_flight == experiment.benchmark.concurrency,
        r.payload_strategy@ == PAYLOAD_STRATEGY@,
{
    StartPacedChannelSendRequest {
        run_id: experiment.run.run_id.clone(),
        count: element_count,
        object_size_bytes: experiment.benchmark.object_size_bytes,
        target_ops_per_s,
        max_in_flight: experiment.benchmark.concurrency,
        payload_strategy: PAYLOAD_STRATEGY.to_owned(),
    }
}

/// How long cleaning up one node may take.
pub fn cleanup_timeout_ms(experiment: &ExperimentSpec) -> (r: u64)
    ensures
        r == if experiment.coordination.cleanup_timeout_ms == 0 {
            1u64
        } else {
            experiment.coordination.cleanup_timeout_ms
        },
{
    if experiment.coordination.cleanup_timeout_ms == 0 {
        1
    } else {
        experiment.coordination.cleanup_timeout_ms
    }
}

/// The nodes to clean up: the sender, then the receivers.
pub fn cleanup_targets(setup: &ChannelSetup) -> (r: Vec<String>)
    ensures
        text::views(r@) == seq![setup.sender_id@] + text::views(setup.receiver_ids@),
{
    let mut out: Vec<String> = Vec::new();
    out.push(setup.sender_id.clone());
    let mut i: usize = 0;
    while i < setup.receiver_ids.len()
        invariant
            i <= setup.receiver_ids@.len(),
            out@.len() == i + 1,
            out@[0]@ == setup.sender_id@,
            forall|j: int|
                0 <= j < i ==> (#[trigger] out@[j + 1])@ == setup.receiver_ids@[j]@,
        decreases setup.receiver_ids.len() - i,
    {
        out.push(setup.receiver_ids[i].clone());
        i = i + 1;
    }
    assert(text::views(out@) =~= seq![setup.sender_id@] + text::views(setup.receiver_ids@)) by {
        assert forall|k: int| 0 <= k < out@.len() implies text::views(out@)[k] == (seq![
            setup.sender_id@,
        ] + text::views(setup.receiver_ids@))[k] by {
            if k > 0 {
                assert(out@[(k - 1) + 1]@ == setup.receiver_ids@[k - 1]@);
            }
        }
    }
    out
}

// ---------------------------------------------------------------------------------------------
// Failures of a datapoint
// ---------------------------------------------------------------------------------------------
fn push_line(lines: &mut Vec<String>, line: String)
    ensures
        text::views(final(lines)@) == text::views(old(lines)@).push(line@),
{
    lines.push(line);
    assert(text::views(lines@) =~= text::views(old(lines)@).push(line@));
}

/// Each of the first messages behind a name.
pub open spec fn named_spec(name: Seq<char>, messages: Seq<Seq<char>>) -> Seq<Seq<char>> {
    messages.take(text::min_int(messages.len() as int, SHOWN_FAILURES as int)).map_values(
        |m: Seq<char>| name + ": "@ + m,
    )
}

fn push_named(lines: &mut Vec<String>, name: &str, messages: &Vec<String>)
    ensures
        text::views(final(lines)@) == text::views(old(lines)@) + named_spec(
            name@,
            text::views(messages@),
        ),
{
    let ghost start = text::views(lines@);
    let ghost all = named_spec(name@, text::views(messages@));
    let mut i: usize = 0;
    assert(text::views(lines@) =~= start + all.take(0));
    while i < messages.len() && i < SHOWN_FAILURES
        invariant
            i <= messages@.len(),
            i <= SHOWN_FAILURES,
            all == named_spec(name@, text::views(messages@)),
            text::views(lines@) == start + all.take(i as int),
        decreases messages.len() - i,
    {
        let line = text::cat3(name, ": ", messages[i].as_str());
        assert(all[i as int] == line@);
        push_line(lines, line);
        assert(text::views(lines@) =~= start + all.take(i + 1));
        i = i + 1;
    }
    assert(all.take(i as int) =~= all);
}

/// How cleaning up a node ended.
#[derive(Debug)]
pub enum CleanupOutcome {
    Done,
    Failed(String),
    TimedOut,
}

/// What went wrong in a datapoint that is reported all the same.
#[derive(Debug)]
pub struct FailureLog {
    pub lines: Vec<String>,
}

impl FailureLog {
    pub fn new() -> (r: FailureLog)
        ensures
            r.lines@.len() == 0,
            text::views(r.lines@) == Seq::<Seq<char>>::empty(),
    {
        let r = FailureLog { lines: Vec::new() };
        assert(text::views(r.lines@) =~= Seq::<Seq<char>>::empty());
        r
    }

    /// A receiver whose result could not be had.
    pub fn receiver(&mut self, receiver_id: &str, error: &str)
        ensures
            text::views(final(self).lines@) == text::views(old(self).lines@).push(
                receiver_id@ + ": "@ + error@,
            ),
    {
        push_line(&mut self.lines, text::cat3(receiver_id, ": ", error));
    }

    /// A sender that failed, with the first of its failures.
    pub fn sender(&mut self, result: &ChannelSendResult)
        ensures
            text::views(final(self).lines@) == text::views(old(self).lines@) + (if
            result.paced.failed_tasks > 0 || result.failure_messages@.len() > 0 {
                named_spec("sender"@, text::views(result.failure_messages@))
            } else {
                Seq::empty()
            }),
    {
        if sender_failed(result) {
            push_named(&mut self.lines, "sender", &result.failure_messages);
        } else {
            assert(text::views(self.lines@) + Seq::<Seq<char>>::empty() =~= text::views(
                self.lines@,
            ));
        }
    }

    /// The cleaning up of a node.
    pub fn cleanup(&mut self, target_id: &str, outcome: &CleanupOutcome, timeout_ms: u64)
        ensures
            text::views(final(self).lines@) == match *outcome {
                CleanupOutcome::Done => text::views(old(self).lines@),
                CleanupOutcome::Failed(e) => text::views(old(self).lines@).push(
                    "cleanup "@ + target_id@ + ": "@ + e@,
                ),
                CleanupOutcome::TimedOut => text::views(old(self).lines@).push(
                    "cleanup "@ + target_id@ + ": timed out after "@ + text::dec(timeout_ms as nat)
                        + " ms"@,
                ),
            },
    {
        match outcome {
            CleanupOutcome::Done => {},
            CleanupOutcome::Failed(e) => {
                push_line(&mut self.lines, text::cat4("cleanup ", target_id, ": ", e.as_str()));
            },
            CleanupOutcome::TimedOut => {
                push_line(
                    &mut self.lines,
                    text::cat5(
                        "cleanup ",
                        target_id,
                        ": timed out after ",
                        text::decimal(timeout_ms).as_str(),
                        " ms",
                    ),
                );
            },
        }
    }
}

// ---------------------------------------------------------------------------------------------
// What the receivers did together
// ---------------------------------------------------------------------------------------------
/// A receiver's result under its id, with the rate at which it received.
#[derive(Debug)]
pub struct ReceiverReport {
    pub instance_id: String,
    pub result: ChannelReceiverResult,
    pub delivered_ops_per_s: Real,
    pub delivered_bytes_per_s: Real,
}

impl ReceiverReport {
    /// The report of a receiver, with what it received divided by the time it took.
    pub fn from_result(
        instance_id: &str,
        result: ChannelReceiverResult,
        delivered_ops_per_s: Real,
        delivered_bytes_per_s: Real,
    ) -> (r: ReceiverReport)
        ensures
            r.instance_id@ == instance_id@,
            r.result == result,
            r.delivered_ops_per_s == delivered_ops_per_s,
            r.delivered_bytes_per_s == delivered_bytes_per_s,
    {
        ReceiverReport {
            instance_id: instance_id.to_owned(),
            result,
            delivered_ops_per_s,
            delivered_bytes_per_s,
        }
    }
}

/// What the receivers of a datapoint received together.
#[derive(Debug)]
pub struct ReceiverTotals {
    pub delivered_count: usize,
    pub delivered_bytes: u64,
    /// From the first start to the last end; nothing where that is no time at all.
    pub wall_ns: u64,
    pub delivery: Vec<Real>,
    pub materialize: Vec<Real>,
    pub failure_messages: Vec<String>,
}

pub open spec fn delivered_sum(s: Seq<ReceiverReport>) -> nat
    decreases s.len(),
{
    if s.len() == 0 {
        0
    } else {
        delivered_sum(s.drop_last()) + s.last().result.delivered_count as nat
    }
}

pub open spec fn bytes_sum(s: Seq<ReceiverReport>) -> nat
    decreases s.len(),
{
    if s.len() == 0 {
        0
    } else {
        bytes_sum(s.drop_last()) + s.last().result.delivered_bytes as nat
    }
}

pub open spec fn first_start(s: Seq<ReceiverReport>) -> u64
    decreases s.len(),
{
    if s.len() == 0 {
        u64::MAX
    } else if s.last().result.started_unix_ns < first_start(s.drop_last()) {
        s.last().result.started_unix_ns
    } else {
        first_start(s.drop_last())
    }
}

pub open spec fn last_end(s: Seq<ReceiverReport>) -> u64
    decreases s.len(),
{
    if s.len() == 0 {
        0
    } else if s.last().result.finished_unix_ns > last_end(s.drop_last()) {
        s.last().result.finished_unix_ns
    } else {
        last_end(s.drop_last())
    }
}

/// The time from the first start to the last end of the receivers.
pub open spec fn wall_spec(s: Seq<ReceiverReport>) -> u64 {
    if s.len() == 0 || first_start(s) == u64::MAX || last_end(s) <= first_start(s) {
        0
    } else {
        (last_end(s) - first_start(s)) as u64
    }
}

pub open spec fn all_delivery(s: Seq<ReceiverReport>) -> Seq<Real>
    decreases s.len(),
{
    if s.len() == 0 {
        Seq::empty()
    } else {
        all_delivery(s.drop_last()) + s.last().result.delivery_latency_samples_ms@
    }
}

pub open spec fn all_materialize(s: Seq<ReceiverReport>) -> Seq<Real>
    decreases s.len(),
{
    if s.len() == 0 {
        Seq::empty()
    } else {
        all_materialize(s.drop_last()) + s.last().result.materialize_latency_samples_ms@
    }
}

/// The failures of a datapoint: those logged, then the first of each receiver behind its id.
pub open spec fn all_failures(s: Seq<ReceiverReport>, logged: Seq<Seq<char>>) -> Seq<Seq<char>>
    decreases s.len(),
{
    if s.len() == 0 {
        logged
    } else {
        all_failures(s.drop_last(), logged) + named_spec(
            s.last().instance_id@,
            text::views(s.last().result.failure_messages@),
        )
    }
}

proof fn lemma_sum_grows(s: Seq<ReceiverReport>, n: int)
    requires
        0 <= n <= s.len(),
    ensures
        delivered_sum(s.take(n)) <= delivered_sum(s),
    decreases s.len() - n,
{
    if n < s.len() {
        lemma_sum_grows(s, n + 1);
        assert(s.take(n + 1).drop_last() =~= s.take(n));
    } else {
        assert(s.take(n) =~= s);
    }
}

fn push_samples(out: &mut Vec<Real>, samples: &Vec<Real>)
    ensures
        final(out)@ == old(out)@ + samples@,
{
    let ghost start = out@;
    let mut i: usize = 0;
    assert(out@ =~= start + samples@.take(0));
    while i < samples.len()
        invariant
            i <= samples@.len(),
            out@ == start + samples@.take(i as int),
        decreases samples.len() - i,
    {
        out.push(samples[i]);
        assert(out@ =~= start + samples@.take(i + 1));
        i = i + 1;
    }
    assert(samples@.take(i as int) =~= samples@);
}

/// Adds up what the receivers received.
pub fn receiver_totals(receivers: &Vec<ReceiverReport>, log: FailureLog) -> (r: ReceiverTotals)
    requires
        delivered_sum(receivers@) <= usize::MAX,
    ensures
        r.delivered_count == delivered_sum(receivers@),
        r.delivered_bytes == text::min_int(bytes_sum(receivers@) as int, u64::MAX as int),
        r.wall_ns == wall_spec(receivers@),
        r.delivery@ == all_delivery(receivers@),
        r.materialize@ == all_materialize(receivers@),
        text::views(r.failure_messages@) == all_failures(receivers@, text::views(log.lines@)),
{
    let mut delivered_count: usize = 0;
    let mut delivered_bytes: u64 = 0;
    let mut started: u64 = u64::MAX;
    let mut finished: u64 = 0;
    let mut delivery: Vec<Real> = Vec::new();
    let mut materialize: Vec<Real> = Vec::new();
    let mut failure_messages = log.lines;
    let ghost logged = text::views(failure_messages@);
    let mut i: usize = 0;
    assert(receivers@.take(0) =~= Seq::<ReceiverReport>::empty());
    while i < receivers.len()
        invariant
            i <= receivers@.len(),
            delivered_sum(receivers@) <= usize::MAX,
            delivered_count == delivered_sum(receivers@.take(i as int)),
            delivered_bytes == text::min_int(
                bytes_sum(receivers@.take(i as int)) as int,
                u64::MAX as int,
            ),
            started == first_start(receivers@.take(i as int)),
            finished == last_end(receivers@.take(i as int)),
            delivery@ == all_delivery(receivers@.take(i as int)),
            materialize@ == all_materialize(receivers@.take(i as int)),
            text::views(failure_messages@) == all_failures(receivers@.take(i as int), logged),
        decreases receivers.len() - i,
    {
        assert(receivers@.take(i + 1).drop_last() =~= receivers@.take(i as int));
        proof {
            lemma_sum_grows(receivers@, i + 1);
        }
        let receiver = &receivers[i];
        delivered_count = delivered_count + receiver.result.delivered_count;
        delivered_bytes = delivered_bytes.saturating_add(receiver.result.delivered_bytes);
        if receiver.result.started_unix_ns < started {
            started = receiver.result.started_unix_ns;
        }
        if receiver.result.finished_unix_ns > finished {
            finished = receiver.result.finished_unix_ns;
        }
        push_samples(&mut delivery, &receiver.result.delivery_latency_samples_ms);
        push_samples(&mut materialize, &receiver.result.materialize_latency_samples_ms);
        push_named(
            &mut failure_messages,
            receiver.instance_id.as_str(),
            &receiver.result.failure_messages,
        );
        i = i + 1;
    }
    assert(receivers@.take(i as int) =~= receivers@);
    let wall_ns: u64 = if receivers.len() == 0 || started == u64::MAX || finished <= started {
        0
    } else {
        finished - started
    };
    ReceiverTotals {
        delivered_count,
        delivered_bytes,
        wall_ns,
        delivery,
        materialize,
        failure_messages,
    }
}

/// The summary of a datapoint in the terms of paced tasks: every delivered element counts as a
/// completed task, every failure as a failed one.
#[derive(Debug)]
pub struct AggregatePacedSummary {
    pub target_ops_per_s: Real,
    pub achieved_ops_per_s: Real,
    pub successful_ops_per_s: Real,
    pub total_tasks: usize,
    pub completed_tasks: usize,
    pub failed_tasks: usize,
    pub wall_time_ms: Real,
    pub offered_latency: LatencySummary,
    pub service_latency: LatencySummary,
    pub schedule_lag: LatencySummary,
    pub failure_messages: Vec<String>,
}

/// The figures of the receivers that are not whole numbers.
#[derive(Clone, Copy, Debug)]
pub struct ReceiverFigures {
    pub expected_ops_per_s: Real,
    pub delivered_ops_per_s: Real,
    pub wall_time_ms: Real,
    pub delivery_mean_ms: Real,
    pub materialize_mean_ms: Real,
}

/// What the receivers of a datapoint come to.
#[derive(Debug)]
pub struct ReceiverAggregate {
    pub delivered_bytes: u64,
    pub delivery_latency: LatencySummary,
    pub materialize_latency: LatencySummary,
    pub paced: AggregatePacedSummary,
}

pub fn aggregate_receivers(totals: ReceiverTotals, figures: ReceiverFigures) -> (r:
    ReceiverAggregate)
    ensures
        r.delivered_bytes == totals.delivered_bytes,
        r.delivery_latency == LatencySummary::of(totals.delivery@, figures.delivery_mean_ms),
        r.materialize_latency == LatencySummary::of(
            totals.materialize@,
            figures.materialize_mean_ms,
        ),
        r.paced == (AggregatePacedSummary {
            target_ops_per_s: figures.expected_ops_per_s,
            achieved_ops_per_s: figures.delivered_ops_per_s,
            successful_ops_per_s: figures.delivered_ops_per_s,
            total_tasks: totals.delivered_count,
            completed_tasks: totals.delivered_count,
            failed_tasks: r.paced.failed_tasks,
            wall_time_ms: figures.wall_time_ms,
            offered_latency: r.delivery_latency,
            service_latency: r.delivery_latency,
            schedule_lag: LatencySummary::empty(),
            failure_messages: totals.failure_messages,
        }),
        r.paced.failed_tasks == totals.failure_messages@.len(),
{
    let delivery_latency = LatencySummary::from_samples(&totals.delivery, figures.delivery_mean_ms);
    let materialize_latency = LatencySummary::from_samples(
        &totals.materialize,
        figures.materialize_mean_ms,
    );
    ReceiverAggregate {
        delivered_bytes: totals.delivered_bytes,
        delivery_latency,
        materialize_latency,
        paced: AggregatePacedSummary {
            target_ops_per_s: figures.expected_ops_per_s,
            achieved_ops_per_s: figures.delivered_ops_per_s,
            successful_ops_per_s: figures.delivered_ops_per_s,
            total_tasks: totals.delivered_count,
            completed_tasks: totals.delivered_count,
            failed_tasks: totals.failure_messages.len(),
            wall_time_ms: figures.wall_time_ms,
            offered_latency: delivery_latency,
            service_latency: delivery_latency,
            schedule_lag: LatencySummary::default(),
            failure_messages: totals.failure_messages,
        },
    }
}

/// The extremes among the receivers.
#[derive(Clone, Copy, Debug)]
pub struct ReceiverExtremes {
    pub min_ops_per_s: Real,
    pub max_ops_per_s: Real,
    pub min_count: usize,
    pub max_count: usize,
    /// The first and the last end of the channel that a receiver saw.
    pub eof_ms: Option<(Real, Real)>,
}

pub open spec fn min_rate(s: Seq<ReceiverReport>) -> Real
    decreases s.len(),
{
    if s.len() == 0 {
        Real { bits: binary64::INFINITY }
    } else {
        sweep::smaller(min_rate(s.drop_last()), s.last().delivered_ops_per_s)
    }
}

pub open spec fn max_rate(s: Seq<ReceiverReport>) -> Real
    decreases s.len(),
{
    if s.len() == 0 {
        Real::zero_spec()
    } else {
        sweep::larger(max_rate(s.drop_last()), s.last().delivered_ops_per_s)
    }
}

pub open spec fn min_count(s: Seq<ReceiverReport>) -> usize
    decreases s.len(),
{
    if s.len() == 0 {
        usize::MAX
    } else if s.last().result.delivered_count < min_count(s.drop_last()) {
        s.last().result.delivered_count
    } else {
        min_count(s.drop_last())
    }
}

pub open spec fn max_count(s: Seq<ReceiverReport>) -> usize
    decreases s.len(),
{
    if s.len() == 0 {
        0
    } else if s.last().result.delivered_count > max_count(s.drop_last()) {
        s.last().result.delivered_count
    } else {
        max_count(s.drop_last())
    }
}

/// The first and the last of the ends that receivers saw.
pub open spec fn eof_range(s: Seq<ReceiverReport>) -> Option<(Real, Real)>
    decreases s.len(),
{
    if s.len() == 0 {
        None
    } else {
        let before = eof_range(s.drop_last());
        match s.last().result.eof_elapsed_ms {
            None => before,
            Some(t) => match before {
                None => Some(
                    (
                        sweep::smaller(Real { bits: binary64::INFINITY }, t),
                        sweep::larger(Real::zero_spec(), t),
                    ),
                ),
                Some((lo, hi)) => Some((sweep::smaller(lo, t), sweep::larger(hi, t))),
            },
        }
    }
}

/// The extremes among the receivers; all zero where there is none.
pub fn receiver_extremes(receivers: &Vec<ReceiverReport>) -> (r: ReceiverExtremes)
    ensures
        receivers@.len() == 0 ==> r == (ReceiverExtremes {
            min_ops_per_s: Real::zero_spec(),
            max_ops_per_s: Real::zero_spec(),
            min_count: 0,
            max_count: 0,
            eof_ms: None,
        }),
        receivers@.len() > 0 ==> r == (ReceiverExtremes {
            min_ops_per_s: min_rate(receivers@),
            max_ops_per_s: max_rate(receivers@),
            min_count: min_count(receivers@),
            max_count: max_count(receivers@),
            eof_ms: eof_range(receivers@),
        }),
{
    if receivers.len() == 0 {
        return ReceiverExtremes {
            min_ops_per_s: Real::zero(),
            max_ops_per_s: Real::zero(),
            min_count: 0,
            max_count: 0,
            eof_ms: None,
        };
    }
    let mut lowest = Real { bits: binary64::INFINITY };
    let mut highest = Real::zero();
    let mut fewest: usize = usize::MAX;
    let mut most: usize = 0;
    let mut eof: Option<(Real, Real)> = None;
    let mut i: usize = 0;
    assert(receivers@.take(0) =~= Seq::<ReceiverReport>::empty());
    while i < receivers.len()
        invariant
            i <= receivers@.len(),
            lowest == min_rate(receivers@.take(i as int)),
            highest == max_rate(receivers@.take(i as int)),
            fewest == min_count(receivers@.take(i as int)),
            most == max_count(receivers@.take(i as int)),
            eof == eof_range(receivers@.take(i as int)),
        decreases receivers.len() - i,
    {
        assert(receivers@.take(i + 1).drop_last() =~= receivers@.take(i as int));
        let receiver = &receivers[i];
        lowest = sweep::min_real(lowest, receiver.delivered_ops_per_s);
        highest = sweep::max_real(highest, receiver.delivered_ops_per_s);
        if receiver.result.delivered_count < fewest {
            fewest = receiver.result.delivered_count;
        }
        if receiver.result.delivered_count > most {
            most = receiver.result.delivered_count;
        }
        if let Some(t) = receiver.result.eof_elapsed_ms {
            eof = match eof {
                None => Some(
                    (
                        sweep::min_real(Real { bits: binary64::INFINITY }, t),
                        sweep::max_real(Real::zero(), t),
                    ),
                ),
                Some((lo, hi)) => Some((sweep::min_real(lo, t), sweep::max_real(hi, t))),
            };
        }
        i = i + 1;
    }
    assert(receivers@.take(i as int) =~= receivers@);
    ReceiverExtremes {
        min_ops_per_s: lowest,
        max_ops_per_s: highest,
        min_count: fewest,
        max_count: most,
        eof_ms: eof,
    }
}

// ---------------------------------------------------------------------------------------------
// What the totals say of the receivers
// ---------------------------------------------------------------------------------------------

proof fn lemma_delivered_sum_splits(a: Seq<ReceiverReport>, b: Seq<ReceiverReport>)
    ensures
        delivered_sum(a + b) == delivered_sum(a) + delivered_sum(b),
    decreases b.len(),
{
    if b.len() == 0 {
        assert(a + b =~= a);
    } else {
        lemma_delivered_sum_splits(a, b.drop_last());
        assert((a + b).drop_last() =~= a + b.drop_last());
    }
}

proof fn lemma_bytes_sum_splits(a: Seq<ReceiverReport>, b: Seq<ReceiverReport>)
    ensures
        bytes_sum(a + b) == bytes_sum(a) + bytes_sum(b),
    decreases b.len(),
{
    if b.len() == 0 {
        assert(a + b =~= a);
    } else {
        lemma_bytes_sum_splits(a, b.drop_last());
        assert((a + b).drop_last() =~= a + b.drop_last());
    }
}

proof fn lemma_all_delivery_splits(a: Seq<ReceiverReport>, b: Seq<ReceiverReport>)
    ensures
        all_delivery(a + b) == all_delivery(a) + all_delivery(b),
    decreases b.len(),
{
    if b.len() == 0 {
        assert(a + b =~= a);
        assert(all_delivery(a) + all_delivery(b) =~= all_delivery(a));
    } else {
        lemma_all_delivery_splits(a, b.drop_last());
        assert((a + b).drop_last() =~= a + b.drop_last());
        assert(all_delivery(a + b) =~= all_delivery(a) + all_delivery(b));
    }
}

proof fn lemma_all_materialize_splits(a: Seq<ReceiverReport>, b: Seq<ReceiverReport>)
    ensures
        all_materialize(a + b) == all_materialize(a) + all_materialize(b),
    decreases b.len(),
{
    if b.len() == 0 {
        assert(a + b =~= a);
        assert(all_materialize(a) + all_materialize(b) =~= all_materialize(a));
    } else {
        lemma_all_materialize_splits(a, b.drop_last());
        assert((a + b).drop_last() =~= a + b.drop_last());
        assert(all_materialize(a + b) =~= all_materialize(a) + all_materialize(b));
    }
}

proof fn lemma_all_failures_splits(
    a: Seq<ReceiverReport>,
    b: Seq<ReceiverReport>,
    logged: Seq<Seq<char>>,
)
    ensures
        all_failures(a + b, logged) == all_failures(b, all_failures(a, logged)),
    decreases b.len(),
{
    if b.len() == 0 {
        assert(a + b =~= a);
    } else {
        lemma_all_failures_splits(a, b.drop_last(), logged);
        assert((a + b).drop_last() =~= a + b.drop_last());
    }
}

/// What two groups of receivers did together is what the one did and what the other did: deliveries
/// and bytes add up, samples and failures stand behind each other.
pub proof fn lemma_groups_of_receivers_add_up(
    a: Seq<ReceiverReport>,
    b: Seq<ReceiverReport>,
    logged: Seq<Seq<char>>,
)
    ensures
        delivered_sum(a + b) == delivered_sum(a) + delivered_sum(b),
        bytes_sum(a + b) == bytes_sum(a) + bytes_sum(b),
        all_delivery(a + b) == all_delivery(a) + all_delivery(b),
        all_materialize(a + b) == all_materialize(a) + all_materialize(b),
        all_failures(a + b, logged) == all_failures(b, all_failures(a, logged)),
{
    lemma_delivered_sum_splits(a, b);
    lemma_bytes_sum_splits(a, b);
    lemma_all_delivery_splits(a, b);
    lemma_all_materialize_splits(a, b);
    lemma_all_failures_splits(a, b, logged);
}

/// One receiver alone counts with its own numbers and samples, and its first 16 failures come behind
/// those that are logged, each behind its id.
pub proof fn lemma_one_receiver_counts(r: ReceiverReport, logged: Seq<Seq<char>>)
    ensures
        delivered_sum(seq![r]) == r.result.delivered_count,
        bytes_sum(seq![r]) == r.result.delivered_bytes,
        all_delivery(seq![r]) == r.result.delivery_latency_samples_ms@,
        all_materialize(seq![r]) == r.result.materialize_latency_samples_ms@,
        all_failures(seq![r], logged).take(logged.len() as int) == logged,
        all_failures(seq![r], logged).len() == logged.len() + (if r.result.failure_messages@.len()
            < 16 {
            r.result.failure_messages@.len()
        } else {
            16
        }),
        forall|k: int|
            #![trigger all_failures(seq![r], logged)[k]]
            logged.len() <= k < all_failures(seq![r], logged).len() ==> all_failures(
                seq![r],
                logged,
            )[k] == r.instance_id@ + ": "@ + r.result.failure_messages@[k - logged.len()]@,
{
    assert(seq![r].drop_last() =~= Seq::<ReceiverReport>::empty());
    let none = Seq::<ReceiverReport>::empty();
    assert(delivered_sum(none) == 0 && bytes_sum(none) == 0);
    assert(all_delivery(seq![r]) =~= r.result.delivery_latency_samples_ms@) by {
        assert(all_delivery(none) =~= Seq::<Real>::empty());
    }
    assert(all_materialize(seq![r]) =~= r.result.materialize_latency_samples_ms@) by {
        assert(all_materialize(none) =~= Seq::<Real>::empty());
    }
    assert(all_failures(none, logged) == logged);
    assert(all_failures(seq![r], logged).take(logged.len() as int) =~= logged);
}

/// The receivers together take the time from the earliest start to the latest end of any of them, and
/// no time where no receiver ends after the earliest start.
pub proof fn lemma_wall_spans_all(s: Seq<ReceiverReport>)
    requires
        exists|i: int| 0 <= i < s.len() && (#[trigger] s[i]).result.started_unix_ns < u64::MAX,
    ensures
        forall|i: int, j: int|
            #![trigger s[i], s[j]]
            0 <= i < s.len() && 0 <= j < s.len() ==> wall_spec(s) >= s[i].result.finished_unix_ns
                - s[j].result.started_unix_ns,
        wall_spec(s) > 0 ==> spans_wall(s),
{
    lemma_first_start(s);
    lemma_last_end(s);
    if wall_spec(s) > 0 {
        let j = choose|j: int|
            0 <= j < s.len() && (#[trigger] s[j]).result.started_unix_ns == first_start(s);
        let i = choose|i: int|
            0 <= i < s.len() && (#[trigger] s[i]).result.finished_unix_ns == last_end(s);
        assert(s[i].result.finished_unix_ns - s[j].result.started_unix_ns == wall_spec(s));
    }
}

/// Whether the time that the receivers take runs from a start to an end of receivers.
pub open spec fn spans_wall(s: Seq<ReceiverReport>) -> bool {
    exists|i: int, j: int|
        #![trigger s[i], s[j]]
        0 <= i < s.len() && 0 <= j < s.len() && s[i].result.finished_unix_ns
            - s[j].result.started_unix_ns == wall_spec(s)
}

proof fn lemma_first_start(s: Seq<ReceiverReport>)
    ensures
        forall|i: int|
            0 <= i < s.len() ==> first_start(s) <= (#[trigger] s[i]).result.started_unix_ns,
        first_start(s) == u64::MAX || exists|i: int|
            0 <= i < s.len() && (#[trigger] s[i]).result.started_unix_ns == first_start(s),
    decreases s.len(),
{
    if s.len() > 0 {
        let init = s.drop_last();
        lemma_first_start(init);
        assert forall|i: int| 0 <= i < s.len() implies first_start(s) <= (
        #[trigger] s[i]).result.started_unix_ns by {
            if i < init.len() {
                assert(first_start(init) <= init[i].result.started_unix_ns);
            }
        }
        if first_start(s) != u64::MAX {
            if first_start(s) == s.last().result.started_unix_ns {
                assert(s[s.len() - 1].result.started_unix_ns == first_start(s));
            } else {
                let i = choose|i: int|
                    0 <= i < init.len() && (#[trigger] init[i]).result.started_unix_ns
                        == first_start(init);
                assert(s[i].result.started_unix_ns == first_start(s));
            }
        }
    }
}

proof fn lemma_last_end(s: Seq<ReceiverReport>)
    ensures
        forall|i: int|
            0 <= i < s.len() ==> last_end(s) >= (#[trigger] s[i]).result.finished_unix_ns,
        last_end(s) == 0 || exists|i: int|
            0 <= i < s.len() && (#[trigger] s[i]).result.finished_unix_ns == last_end(s),
    decreases s.len(),
{
    if s.len() > 0 {
        let init = s.drop_last();
        lemma_last_end(init);
        assert forall|i: int| 0 <= i < s.len() implies last_end(s) >= (
        #[trigger] s[i]).result.finished_unix_ns by {
            if i < init.len() {
                assert(last_end(init) >= init[i].result.finished_unix_ns);
            }
        }
        if last_end(s) != 0 {
            if last_end(s) == s.last().result.finished_unix_ns {
                assert(s[s.len() - 1].result.finished_unix_ns == last_end(s));
            } else {
                let i = choose|i: int|
                    0 <= i < init.len() && (#[trigger] init[i]).result.finished_unix_ns
                        == last_end(init);
                assert(s[i].result.finished_unix_ns == last_end(s));
            }
        }
    }
}

/// Every receiver delivered between the smallest and the largest number of elements, and some receiver
/// delivered each.
pub proof fn lemma_counts_are_the_extremes(s: Seq<ReceiverReport>)
    ensures
        forall|i: int|
            0 <= i < s.len() ==> min_count(s) <= (#[trigger] s[i]).result.delivered_count
                <= max_count(s),
        s.len() > 0 ==> delivered_by_one(s, min_count(s)) && delivered_by_one(s, max_count(s)),
    decreases s.len(),
{
    if s.len() > 0 {
        let init = s.drop_last();
        lemma_counts_are_the_extremes(init);
        assert forall|i: int| 0 <= i < s.len() implies min_count(s) <= (
        #[trigger] s[i]).result.delivered_count <= max_count(s) by {
            if i < init.len() {
                assert(min_count(init) <= init[i].result.delivered_count <= max_count(init));
            }
        }
        let x = s[s.len() - 1].result.delivered_count;
        assert(delivered_by_one(s, x));
        if init.len() > 0 {
            let i = choose|i: int|
                0 <= i < init.len() && (#[trigger] init[i]).result.delivered_count == min_count(init);
            assert(s[i].result.delivered_count == min_count(init));
            let j = choose|j: int|
                0 <= j < init.len() && (#[trigger] init[j]).result.delivered_count == max_count(init);
            assert(s[j].result.delivered_count == max_count(init));
        }
    }
}

/// Whether some receiver delivered that many elements.
pub open spec fn delivered_by_one(s: Seq<ReceiverReport>, n: usize) -> bool {
    exists|i: int| 0 <= i < s.len() && (#[trigger] s[i]).result.delivered_count == n
}

/// Every receiver delivered at a rate between the lowest and the highest, and each of the two is the
/// rate of a receiver (the highest is zero where no rate is above it).
pub proof fn lemma_rates_are_the_extremes(s: Seq<ReceiverReport>)
    requires
        forall|i: int| 0 <= i < s.len() ==> !(#[trigger] s[i]).delivered_ops_per_s.is_nan_spec(),
    ensures
        !min_rate(s).is_nan_spec() && !max_rate(s).is_nan_spec(),
        forall|i: int|
            0 <= i < s.len() ==> min_rate(s).le_spec((#[trigger] s[i]).delivered_ops_per_s)
                && s[i].delivered_ops_per_s.le_spec(max_rate(s)),
        min_rate(s) == (Real { bits: 0x7ff0_0000_0000_0000 }) || received_at(s, min_rate(s)),
        max_rate(s) == (Real { bits: 0 }) || received_at(s, max_rate(s)),
    decreases s.len(),
{
    if s.len() > 0 {
        let init = s.drop_last();
        assert forall|i: int| 0 <= i < init.len() implies !(
        #[trigger] init[i]).delivered_ops_per_s.is_nan_spec() by {
            assert(!s[i].delivered_ops_per_s.is_nan_spec());
        }
        lemma_rates_are_the_extremes(init);
        let x = s[s.len() - 1].delivered_ops_per_s;
        assert(!x.is_nan_spec());
        sweep::lemma_larger_and_smaller(max_rate(init), x);
        sweep::lemma_larger_and_smaller(min_rate(init), x);
        assert forall|i: int| 0 <= i < s.len() implies min_rate(s).le_spec(
            (#[trigger] s[i]).delivered_ops_per_s,
        ) && s[i].delivered_ops_per_s.le_spec(max_rate(s)) by {
            if i < init.len() {
                assert(min_rate(init).le_spec(init[i].delivered_ops_per_s));
                assert(init[i].delivered_ops_per_s.le_spec(max_rate(init)));
            }
        }
        assert(received_at(s, x));
        if received_at(init, min_rate(init)) {
            let i = choose|i: int|
                0 <= i < init.len() && (#[trigger] init[i]).delivered_ops_per_s == min_rate(init);
            assert(s[i].delivered_ops_per_s == min_rate(init));
        }
        if received_at(init, max_rate(init)) {
            let i = choose|i: int|
                0 <= i < init.len() && (#[trigger] init[i]).delivered_ops_per_s == max_rate(init);
            assert(s[i].delivered_ops_per_s == max_rate(init));
        }
    }
}

/// Whether some receiver delivered at that rate.
pub open spec fn received_at(s: Seq<ReceiverReport>, rate: Real) -> bool {
    exists|i: int| 0 <= i < s.len() && (#[trigger] s[i]).delivered_ops_per_s == rate
}

/// Whether a receiver saw the end of the channel after that time.
pub open spec fn saw_the_end(s: Seq<ReceiverReport>, t: Real) -> bool {
    exists|i: int| 0 <= i < s.len() && (#[trigger] s[i]).result.eof_elapsed_ms == Some(t)
}

/// There is a range of the times after which the receivers saw the end of the channel just where one
/// of them saw it. It holds every such time, and both its ends are such times (the upper one is zero
/// where no time is above it).
pub proof fn lemma_eof_range_spans_all(s: Seq<ReceiverReport>)
    requires
        forall|i: int|
            0 <= i < s.len() && (#[trigger] s[i]).result.eof_elapsed_ms is Some
                ==> !s[i].result.eof_elapsed_ms->0.is_nan_spec(),
    ensures
        eof_range(s) is Some <==> exists|t: Real| saw_the_end(s, t),
        eof_range(s) is Some ==> {
            let lo = (eof_range(s)->0).0;
            let hi = (eof_range(s)->0).1;
            &&& !lo.is_nan_spec() && !hi.is_nan_spec()
            &&& forall|t: Real| #[trigger] saw_the_end(s, t) ==> lo.le_spec(t) && t.le_spec(hi)
            &&& lo == (Real { bits: 0x7ff0_0000_0000_0000 }) || saw_the_end(s, lo)
            &&& hi == (Real { bits: 0 }) || saw_the_end(s, hi)
        },
    decreases s.len(),
{
    if s.len() > 0 {
        let init = s.drop_last();
        assert forall|i: int|
            0 <= i < init.len() && (#[trigger] init[i]).result.eof_elapsed_ms is Some implies !init[i].result.eof_elapsed_ms->0.is_nan_spec() by {
            assert(s[i].result.eof_elapsed_ms is Some);
        }
        lemma_eof_range_spans_all(init);
        assert forall|t: Real| #[trigger] saw_the_end(init, t) implies saw_the_end(s, t) by {
            let i = choose|i: int|
                0 <= i < init.len() && (#[trigger] init[i]).result.eof_elapsed_ms == Some(t);
            assert(s[i].result.eof_elapsed_ms == Some(t));
        }
        let last = s[s.len() - 1].result.eof_elapsed_ms;
        assert forall|t: Real| #[trigger] saw_the_end(s, t) implies saw_the_end(init, t) || last
            == Some(t) by {
            let i = choose|i: int|
                0 <= i < s.len() && (#[trigger] s[i]).result.eof_elapsed_ms == Some(t);
            if i < init.len() {
                assert(init[i].result.eof_elapsed_ms == Some(t));
            }
        }
        if last is Some {
            let t = last->0;
            assert(!t.is_nan_spec());
            assert(saw_the_end(s, t));
            if eof_range(init) is Some {
                sweep::lemma_larger_and_smaller((eof_range(init)->0).0, t);
                sweep::lemma_larger_and_smaller((eof_range(init)->0).1, t);
            } else {
                sweep::lemma_larger_and_smaller(Real { bits: binary64::INFINITY }, t);
                sweep::lemma_larger_and_smaller(Real::zero_spec(), t);
                assert forall|u: Real| #[trigger] saw_the_end(s, u) implies u == t by {}
            }
        } else if eof_range(s) is Some {
            let t = choose|t: Real| saw_the_end(init, t);
            assert(saw_the_end(s, t));
        }
    }
}

/// Bounds on the elements of a datapoint are refused just where one of them is zero or the lower one
/// exceeds the upper one. What an experiment sets is kept; without a lower bound one element is
/// enough, and without an upper bound any number is.
pub proof fn lemma_element_bounds(e: ExperimentSpec)
    ensures
        bounds_spec(e) is Err <==> {
            let lower = e.lambda_channel.min_elements_per_datapoint;
            let upper = e.lambda_channel.max_elements_per_datapoint;
            ||| lower == Some(0usize)
            ||| upper == Some(0usize)
            ||| lower is Some && upper is Some && lower->0 > upper->0
        },
        bounds_spec(e) is Ok ==> {
            let bounds = bounds_spec(e)->Ok_0;
            let lower = e.lambda_channel.min_elements_per_datapoint;
            let upper = e.lambda_channel.max_elements_per_datapoint;
            &&& 1 <= bounds.min <= bounds.max
            &&& lower is Some ==> bounds.min == lower->0
            &&& lower is None ==> bounds.min == 1
            &&& upper is Some ==> bounds.max == upper->0
            &&& upper is None ==> bounds.max == usize::MAX
        },
{
}

/// The receivers either all get every element or compete for them; there is no third way.
pub proof fn lemma_two_consume_modes(e: ExperimentSpec)
    ensures
        mode_spec(e) is Ok <==> {
            let mode = text::normal_spec(e.lambda_channel.consume_mode@);
            mode == "fanout"@ || mode == "competitive"@
        },
        mode_spec(e) is Ok ==> mode_spec(e)->Ok_0 == text::normal_spec(
            e.lambda_channel.consume_mode@,
        ),
        mode_spec(e) is Err ==> mode_spec(e)->Err_0 == "unsupported channel consume_mode: "@
            + text::normal_spec(e.lambda_channel.consume_mode@),
{
}

/// A channel experiment is taken just where blobs lie in S3 or at peers, metadata and the tracker in
/// DynamoDB, it says how to consume and for how long, it has a sender and a receiver beside it, and
/// its sweep has rates and bounds that make sense.
pub proof fn lemma_channel_experiments_that_are_taken(e: ExperimentSpec, ladder: Seq<Real>)
    ensures
        setup_problem(e, ladder) is None <==> {
            let backend = text::normal_spec(e.benchmark.backend@);
            let sender = participants::lead_spec(e.participants@, Role::Sender);
            &&& backend == "s3"@ || backend == "p2p"@
            &&& text::trim_spec(e.lambda_channel.metadata_backend@) == "dynamodb"@
            &&& backend == "p2p"@ ==> text::trim_spec(e.p2p.tracker_backend@) == "dynamodb"@
            &&& mode_spec(e) is Ok
            &&& e.benchmark.duration_seconds is Some
            &&& sender is Some
            &&& participants::followers_spec(e.participants@, Role::Receiver, sender->0).len() > 0
            &&& sweep::policy_of(e).problem() is None
            &&& sweep::target_rates_spec(e, sweep::policy_of(e), ladder).len() > 0
            &&& bounds_spec(e) is Ok
        },
{
    reveal_strlit("s3");
    reveal_strlit("p2p");
    assert("s3"@.len() != "p2p"@.len());
}

impl ChannelStep {
    /// An error ends a datapoint up to the sending and with it; what comes after is done whatever
    /// happens.
    pub proof fn lemma_fatal_up_to_the_sending(self, n: usize)
        requires
            self.valid(n),
        ensures
            self.fatal_spec() <==> self.rank(n) <= ChannelStep::Send.rank(n),
    {
    }

    /// A datapoint begins and opens the sender, then each receiver in turn, then starts them all,
    /// waits for each in turn, sends, gathers, cleans up and reports.
    pub proof fn lemma_steps_by_name(self, n: usize, sender_failed: bool)
        requires
            self.valid(n),
            n > 0,
        ensures
            self is BeginSender ==> self.next(n, sender_failed) is InitSender,
            self is InitSender ==> self.next(n, sender_failed) == (ChannelStep::BeginReceiver {
                index: 0,
            }),
            self matches ChannelStep::BeginReceiver { index } ==> self.next(n, sender_failed) == (
            ChannelStep::InitReceiver { index }),
            self is StartReceivers ==> self.next(n, sender_failed) == (ChannelStep::AwaitReady {
                index: 0,
            }),
            self.next(n, sender_failed) is StartReceivers <==> self == (ChannelStep::InitReceiver {
                index: (n - 1) as usize,
            }),
            self.next(n, sender_failed) is Send <==> self == (ChannelStep::AwaitReady {
                index: (n - 1) as usize,
            }),
            self.next(n, sender_failed) is CancelReceivers <==> self is Send && sender_failed,
            self.next(n, sender_failed) is CleanUp <==> self is FinishReceivers,
            self.next(n, sender_failed) is Report <==> self is CleanUp || self is Report,
    {
    }
}

/// The id of a channel holds the id of the resources of its datapoint, so two datapoints of one
/// experiment have two channels.
pub proof fn lemma_channels_differ(prefix: Seq<char>, a: Seq<char>, b: Seq<char>)
    requires
        channel_id_spec(prefix, a) == channel_id_spec(prefix, b),
    ensures
        a == b,
        channel_id_spec(prefix, a) == naming::id_spec(prefix) + "-"@ + a,
{
    let start = naming::id_spec(prefix) + "-"@;
    assert(a =~= (start + a).skip(start.len() as int));
    assert(b =~= (start + b).skip(start.len() as int));
}

/// Where just one thing is wrong with a channel experiment, it is told.
pub proof fn lemma_channel_setup_problems(e: ExperimentSpec, ladder: Seq<Real>)
    ensures
        ({
            let backend = text::normal_spec(e.benchmark.backend@);
            let sender = participants::lead_spec(e.participants@, Role::Sender);
            let m = backend != "s3"@ && backend != "p2p"@;
            let n = text::trim_spec(e.lambda_channel.metadata_backend@) != "dynamodb"@;
            let p = backend == "p2p"@ && text::trim_spec(e.p2p.tracker_backend@) != "dynamodb"@;
            let q = mode_spec(e) is Err;
            let r = e.benchmark.duration_seconds is None;
            let s = sender is None;
            let t = participants::followers_spec(e.participants@, Role::Receiver, sender->0).len() == 0;
            let u = sweep::policy_of(e).problem() is Some;
            let v = sweep::target_rates_spec(e, sweep::policy_of(e), ladder).len() == 0;
            let w = bounds_spec(e) is Err;
            &&& m && !n && !p && !q && !r && !s && !t && !u && !v && !w ==> setup_problem(e, ladder) == Some("channel.single_sender_multi_receiver requires benchmark.backend = s3 or p2p"@)
            &&& n && !m && !p && !q && !r && !s && !t && !u && !v && !w ==> setup_problem(e, ladder) == Some("channel.single_sender_multi_receiver formal runs require lambda_channel.metadata_backend = dynamodb"@)
            &&& p && !m && !n && !q && !r && !s && !t && !u && !v && !w ==> setup_problem(e, ladder) == Some("channel.single_sender_multi_receiver p2p requires p2p.tracker_backend = dynamodb"@)
            &&& q && !m && !n && !p && !r && !s && !t && !u && !v && !w ==> setup_problem(e, ladder) == Some(mode_spec(e)->Err_0)
            &&& r && !m && !n && !p && !q && !s && !t && !u && !v && !w ==> setup_problem(e, ladder) == Some("channel.single_sender_multi_receiver requires benchmark.duration_seconds"@)
            &&& s && !m && !n && !p && !q && !r && !t && !u && !v && !w ==> setup_problem(e, ladder) == Some("channel experiment requires participants"@)
            &&& t && !m && !n && !p && !q && !r && !s && !u && !v && !w ==> setup_problem(e, ladder) == Some("channel.single_sender_multi_receiver requires at least one receiver"@)
            &&& u && !m && !n && !p && !q && !r && !s && !t && !v && !w ==> setup_problem(e, ladder) == sweep::policy_of(e).problem()
            &&& v && !m && !n && !p && !q && !r && !s && !t && !u && !w ==> setup_problem(e, ladder) == Some("channel throughput sweep generated no target rates"@)
            &&& w && !m && !n && !p && !q && !r && !s && !t && !u && !v ==> setup_problem(e, ladder) == Some(bounds_spec(e)->Err_0)
        }),
{
}

impl ChannelSetup {
    /// What a channel experiment is set up with is what it asks for: its backend and its way to
    /// consume, its duration, a sender and at least one receiver among those who take part, rates
    /// within its limit and the bounds of its datapoints.
    pub proof fn lemma_setup_is_the_experiments(self, e: ExperimentSpec, ladder: Seq<Real>, i: int)
        requires
            self.fits(e, ladder),
        ensures
            self.backend@ == text::normal_spec(e.benchmark.backend@),
            self.consume_mode@ == "fanout"@ || self.consume_mode@ == "competitive"@,
            self.consume_mode@ == text::normal_spec(e.lambda_channel.consume_mode@),
            e.benchmark.duration_seconds == Some(self.duration_seconds),
            Some(self.sender_id@) == participants::lead_spec(e.participants@, Role::Sender),
            self.receiver_ids@.len() > 0,
            self.receiver_ids@.len() == participants::followers_spec(
                e.participants@,
                Role::Receiver,
                self.sender_id@,
            ).len(),
            0 <= i < self.receiver_ids@.len() ==> self.receiver_ids@[i]@
                == participants::followers_spec(e.participants@, Role::Receiver, self.sender_id@)[i],
            e.throughput_sweep.max_ops_per_s is Some ==> self.policy.max_ops_per_s
                == e.throughput_sweep.max_ops_per_s->0,
            self.rates@ == sweep::target_rates_spec(e, sweep::policy_of(e), ladder),
            1 <= self.bounds.min <= self.bounds.max,
    {
        sweep::lemma_policy_is_the_experiments(e);
        let all = participants::followers_spec(e.participants@, Role::Receiver, self.sender_id@);
        assert(text::views(self.receiver_ids@).len() == all.len());
        if 0 <= i < self.receiver_ids@.len() {
            assert(text::views(self.receiver_ids@)[i] == all[i]);
        }
    }
}

/// What `receiver_totals` returns of receivers: all that they delivered together, the time from the
/// first start to the last end of any of them, and their samples, each kind with its own.
pub proof fn lemma_receiver_totals_returns(
    receivers: &Vec<ReceiverReport>,
    log: FailureLog,
    r: ReceiverTotals,
)
    requires
        call_ensures(receiver_totals, (receivers, log), r),
    ensures
        r.delivered_count == delivered_sum(receivers@),
        bytes_sum(receivers@) <= u64::MAX ==> r.delivered_bytes == bytes_sum(receivers@),
        bytes_sum(receivers@) > u64::MAX ==> r.delivered_bytes == u64::MAX,
        receivers@.len() == 1 ==> {
            let one = receivers@[0].result;
            &&& r.delivered_count == one.delivered_count
            &&& r.delivered_bytes == one.delivered_bytes
            &&& r.delivery@ == one.delivery_latency_samples_ms@
            &&& r.materialize@ == one.materialize_latency_samples_ms@
        },
        r.delivery@ == all_delivery(receivers@),
        r.materialize@ == all_materialize(receivers@),
        (exists|i: int|
            0 <= i < receivers@.len() && (#[trigger] receivers@[i]).result.started_unix_ns < u64::MAX)
            ==> forall|i: int, j: int|
            #![trigger receivers@[i], receivers@[j]]
            0 <= i < receivers@.len() && 0 <= j < receivers@.len() ==> r.wall_ns
                >= receivers@[i].result.finished_unix_ns - receivers@[j].result.started_unix_ns,
{
    if receivers@.len() == 1 {
        assert(receivers@ =~= seq![receivers@[0]]);
        lemma_one_receiver_counts(receivers@[0], text::views(log.lines@));
    }
    if exists|i: int|
        0 <= i < receivers@.len() && (#[trigger] receivers@[i]).result.started_unix_ns < u64::MAX {
        lemma_wall_spans_all(receivers@);
    }
}

/// What `aggregate_receivers` returns: the bytes and the deliveries of the totals, and the latencies of
/// their samples, each kind from its own.
pub proof fn lemma_aggregate_receivers_returns(
    totals: ReceiverTotals,
    figures: ReceiverFigures,
    r: ReceiverAggregate,
)
    requires
        call_ensures(aggregate_receivers, (totals, figures), r),
        0 < totals.delivery@.len() <= usize::MAX,
        0 < totals.materialize@.len() <= usize::MAX,
    ensures
        r.delivered_bytes == totals.delivered_bytes,
        r.paced.total_tasks == totals.delivered_count,
        r.paced.completed_tasks == totals.delivered_count,
        r.paced.failed_tasks == totals.failure_messages@.len(),
        r.paced.target_ops_per_s == figures.expected_ops_per_s,
        r.paced.achieved_ops_per_s == figures.delivered_ops_per_s,
        r.paced.successful_ops_per_s == figures.delivered_ops_per_s,
        r.delivery_latency.count == totals.delivery@.len(),
        totals.delivery@.contains(r.delivery_latency.max_ms),
        totals.delivery@.contains(r.delivery_latency.p50_ms),
        r.materialize_latency.count == totals.materialize@.len(),
        totals.materialize@.contains(r.materialize_latency.max_ms),
        totals.materialize@.contains(r.materialize_latency.p50_ms),
        r.paced.offered_latency == r.delivery_latency && r.paced.service_latency
            == r.delivery_latency,
{
    crate::latency::lemma_summary_is_of_samples(totals.delivery@, figures.delivery_mean_ms);
    crate::latency::lemma_summary_is_of_samples(totals.materialize@, figures.materialize_mean_ms);
}

} // verus!
