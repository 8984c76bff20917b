//! Speaking to the nodes of an experiment: which node, what an answer means, and when to ask again.
use crate::binary64::Real;
use crate::config::{ExperimentSpec, InstanceConfig, InstancesConfig, ParticipantConfig};
use crate::protocol::{
    AcceptedResponse, BlobGetResult, BlobPutResult, ChannelReceiverResult,
    ChannelReceiverSamplesChunkRequest, ChannelReceiverSamplesChunkResponse, ChannelSendResult,
    PacedBlobGetResult, PollRequestResponse, RequestResult, RequestStatus,
};
use crate::roles;
use crate::text;
use vstd::prelude::*;
use vstd::string::*;

verus! {

/// The pause between two looks at whether a receiver is ready.
pub const READY_POLL_INTERVAL_MS: u64 = 500;

/// The pause between two looks at the result of a channel request.
pub const CHANNEL_RESULT_POLL_INTERVAL_MS: u64 = 5_000;

/// The pause between two looks at the result of a blob request.
pub const BLOB_RESULT_POLL_INTERVAL_MS: u64 = 10;

/// The samples that are fetched at a time.
pub const RECEIVER_SAMPLE_CHUNK_SIZE: usize = 16_384;

// ---------------------------------------------------------------------------------------------
// Which node
// ---------------------------------------------------------------------------------------------
/// The node to call for a target: none where it is this one.
pub fn route<'a>(instances: &'a InstancesConfig, own_id: &str, target_id: &str) -> (r: Result<
    Option<&'a InstanceConfig>,
    String,
>)
    ensures
        match r {
            Ok(None) => target_id@ == own_id@,
            Ok(Some(target)) => {
                &&& target_id@ != own_id@
                &&& exists|i: int|
                    #[trigger] instances.first_with_id(target_id@, i) && *target
                        == instances.instances@[i]
            },
            Err(m) => {
                &&& target_id@ != own_id@
                &&& !instances.has_id(target_id@)
                &&& m@ == "unknown target instance id: "@ + target_id@
            },
        },
{
    if text::same(target_id, own_id) {
        return Ok(None);
    }
    match instances.find_instance(target_id) {
        Some(target) => Ok(Some(target)),
        None => Err(text::cat2("unknown target instance id: ", target_id)),
    }
}

/// What is said of a call that failed.
pub fn rpc_failed(method: &str, target_id: &str, error: &str) -> (r: String)
    ensures
        r@ == method@ + " RPC failed for "@ + target_id@ + ": "@ + error@,
{
    text::cat5(method, " RPC failed for ", target_id, ": ", error)
}

// ---------------------------------------------------------------------------------------------
// Participants
// ---------------------------------------------------------------------------------------------
pub open spec fn label_is(p: ParticipantConfig, label: Seq<char>) -> bool {
    p.label matches Some(l) && l@ == label
}

pub open spec fn with_label_from(
    participants: Seq<ParticipantConfig>,
    label: Seq<char>,
    i: int,
) -> Option<Seq<char>>
    decreases participants.len() - i,
{
    if i < 0 || i >= participants.len() {
        None
    } else if label_is(participants[i], label) {
        Some(participants[i].instance_id@)
    } else {
        with_label_from(participants, label, i + 1)
    }
}

/// The first participant with a label.
pub fn participant_by_label(experiment: &ExperimentSpec, label: &str) -> (r: Option<String>)
    ensures
        text::option_view(r) == with_label_from(experiment.participants@, label@, 0),
{
    let mut i: usize = 0;
    while i < experiment.participants.len()
        invariant
            i <= experiment.participants@.len(),
            with_label_from(experiment.participants@, label@, 0) == with_label_from(
                experiment.participants@,
                label@,
                i as int,
            ),
        decreases experiment.participants.len() - i,
    {
        if text::option_same(&experiment.participants[i].label, label) {
            return Some(experiment.participants[i].instance_id.clone());
        }
        i = i + 1;
    }
    None
}

/// The first participant.
pub fn first_participant_id(experiment: &ExperimentSpec) -> (r: Option<String>)
    ensures
        text::option_view(r) == roles::first_participant_spec(*experiment),
{
    if experiment.participants.len() > 0 {
        Some(experiment.participants[0].instance_id.clone())
    } else {
        None
    }
}

// ---------------------------------------------------------------------------------------------
// Requests
// ---------------------------------------------------------------------------------------------
pub open spec fn req_id_problem(target_id: Seq<char>, accepted: AcceptedResponse) -> Option<
    Seq<char>,
> {
    if !accepted.ok {
        Some("target "@ + target_id + " rejected request: "@ + accepted.message@)
    } else if accepted.req_id is None {
        Some("target "@ + target_id + " accepted request without req_id"@)
    } else {
        None
    }
}

/// The id of an accepted request.
pub fn req_id(target_id: &str, accepted: &AcceptedResponse) -> (r: Result<String, String>)
    ensures
        match r {
            Ok(id) => req_id_problem(target_id@, *accepted) is None && accepted.req_id == Some(id),
            Err(m) => req_id_problem(target_id@, *accepted) == Some(m@),
        },
{
    if !accepted.ok {
        return Err(
            text::cat4("target ", target_id, " rejected request: ", accepted.message.as_str()),
        );
    }
    match &accepted.req_id {
        Some(id) => Ok(id.clone()),
        None => Err(text::cat3("target ", target_id, " accepted request without req_id")),
    }
}

/// Whether a failed poll is worth another: the connection, not the request, is at fault.
pub open spec fn is_transient_poll_spec(error: Seq<char>) -> bool {
    let e = text::lower_spec(error);
    ||| text::contains_spec(e, "deadline"@)
    ||| text::contains_spec(e, "timed out"@)
    ||| text::contains_spec(e, "timeout"@)
    ||| text::contains_spec(e, "connection reset"@)
    ||| text::contains_spec(e, "broken pipe"@)
    ||| text::contains_spec(e, "transport"@)
}

pub fn is_transient_poll_error(error: &str) -> (r: bool)
    ensures
        r == is_transient_poll_spec(error@),
{
    let e = text::lower(error);
    let e = e.as_str();
    text::contains(e, "deadline") || text::contains(e, "timed out") || text::contains(e, "timeout")
        || text::contains(e, "connection reset") || text::contains(e, "broken pipe")
        || text::contains(e, "transport")
}

pub open spec fn response_problem(
    target_id: Seq<char>,
    req_id: Seq<char>,
    response: PollRequestResponse,
) -> Option<Seq<char>> {
    roles::finished_problem(
        target_id,
        req_id,
        response.status,
        response.result is Some,
        response.message@,
    )
}

/// Why waiting for a receiver to be ready ends in failure.
pub open spec fn ready_problem(
    target_id: Seq<char>,
    req_id: Seq<char>,
    response: PollRequestResponse,
    past_deadline: bool,
) -> Option<Seq<char>> {
    if response.ready {
        None
    } else if response_problem(target_id, req_id, response) is Some {
        response_problem(target_id, req_id, response)
    } else if past_deadline {
        Some(
            "timed out waiting for receiver readiness target "@ + target_id + " req_id="@ + req_id,
        )
    } else {
        None
    }
}

/// Whether a receiver is ready, after a poll; it is polled again until it is.
pub fn after_ready_poll(
    target_id: &str,
    req_id: &str,
    response: PollRequestResponse,
    past_deadline: bool,
) -> (r: Result<bool, String>)
    ensures
        match r {
            Ok(ready) => ready_problem(target_id@, req_id@, response, past_deadline) is None
                && ready == response.ready,
            Err(m) => ready_problem(target_id@, req_id@, response, past_deadline) == Some(m@),
        },
{
    if response.ready {
        return Ok(true);
    }
    if let Err(m) = roles::ensure_finished_result(
        target_id,
        req_id,
        response.status,
        response.result,
        response.message.as_str(),
    ) {
        return Err(m);
    }
    if past_deadline {
        return Err(
            text::cat4(
                "timed out waiting for receiver readiness target ",
                target_id,
                " req_id=",
                req_id,
            ),
        );
    }
    Ok(false)
}

/// Why waiting for a result ends in failure. A `patient` wait forgives transient poll failures
/// until its deadline.
pub open spec fn result_problem(
    target_id: Seq<char>,
    req_id: Seq<char>,
    poll: Result<PollRequestResponse, String>,
    past_deadline: bool,
    barrier_timeout_ms: u64,
    patient: bool,
) -> Option<Seq<char>> {
    match poll {
        Err(e) => if patient && is_transient_poll_spec(e@) && !past_deadline {
            None
        } else {
            Some(e@)
        },
        Ok(response) => if response_problem(target_id, req_id, response) is Some {
            response_problem(target_id, req_id, response)
        } else if response.status == RequestStatus::Running && past_deadline {
            Some(
                "timed out waiting for target "@ + target_id + " req_id="@ + req_id + " after "@
                    + text::dec(barrier_timeout_ms as nat) + " ms"@,
            )
        } else {
            None
        },
    }
}

/// The result of a request, after a poll; it is polled again while there is none.
pub fn after_result_poll(
    target_id: &str,
    req_id: &str,
    poll: Result<PollRequestResponse, String>,
    past_deadline: bool,
    barrier_timeout_ms: u64,
    patient: bool,
) -> (r: Result<Option<RequestResult>, String>)
    ensures
        match result_problem(
            target_id@,
            req_id@,
            poll,
            past_deadline,
            barrier_timeout_ms,
            patient,
        ) {
            Some(problem) => r matches Err(m) && m@ == problem,
            None => r == Ok::<Option<RequestResult>, String>(
                match poll {
                    Ok(response) if response.status == RequestStatus::Finished => response.result,
                    _ => None,
                },
            ),
        },
{
    let response = match poll {
        Ok(response) => response,
        Err(e) => {
            if patient && is_transient_poll_error(e.as_str()) && !past_deadline {
                return Ok(None);
            }
            return Err(e);
        },
    };
    match roles::ensure_finished_result(
        target_id,
        req_id,
        response.status,
        response.result,
        response.message.as_str(),
    ) {
        Err(m) => Err(m),
        Ok(Some(result)) => Ok(Some(result)),
        Ok(None) => {
            if past_deadline {
                Err(
                    text::cat7(
                        "timed out waiting for target ",
                        target_id,
                        " req_id=",
                        req_id,
                        " after ",
                        text::decimal(barrier_timeout_ms).as_str(),
                        " ms",
                    ),
                )
            } else {
                Ok(None)
            }
        },
    }
}

/// A poll that the polled node refused counts as failed; a remote refusal names the node.
pub fn accept_poll(response: PollRequestResponse, remote: bool, target_id: &str) -> (r: Result<
    PollRequestResponse,
    String,
>)
    ensures
        match r {
            Ok(p) => response.ok && p == response,
            Err(m) => !response.ok && m@ == if remote {
                "target "@ + target_id@ + " rejected poll_request: "@ + response.message@
            } else {
                response.message@
            },
        },
{
    if response.ok {
        Ok(response)
    } else if remote {
        Err(
            text::cat4("target ", target_id, " rejected poll_request: ", response.message.as_str()),
        )
    } else {
        Err(response.message)
    }
}

/// A patient wait outlives transient failures, and every wait outlives none once its time is up.
pub proof fn lemma_waits_end(
    target_id: Seq<char>,
    req_id: Seq<char>,
    poll: Result<PollRequestResponse, String>,
    barrier_timeout_ms: u64,
    patient: bool,
)
    requires
        !(poll matches Ok(p) && p.status == RequestStatus::Finished && p.result is Some),
    ensures
        result_problem(target_id, req_id, poll, true, barrier_timeout_ms, patient) is Some,
{
}

// ---------------------------------------------------------------------------------------------
// Results of the expected kind
// ---------------------------------------------------------------------------------------------
/// What is said of a result of the wrong kind.
pub open spec fn unexpected_spec(target_id: Seq<char>, what: Seq<char>, shown: Seq<char>) -> Seq<
    char,
> {
    "target "@ + target_id + " returned unexpected result for "@ + what + ": "@ + shown
}

fn unexpected(target_id: &str, what: &str, shown: &str) -> (r: String)
    ensures
        r@ == unexpected_spec(target_id@, what@, shown@),
{
    text::cat6("target ", target_id, " returned unexpected result for ", what, ": ", shown)
}

/// The result of a put.
pub fn expect_blob_put(target_id: &str, result: RequestResult, shown: &str) -> (r: Result<
    BlobPutResult,
    String,
>)
    ensures
        match result {
            RequestResult::BlobPut(x) => r == Ok::<BlobPutResult, String>(x),
            _ => r matches Err(m) && m@ == unexpected_spec(target_id@, "blob put"@, shown@),
        },
{
    match result {
        RequestResult::BlobPut(x) => Ok(x),
        _ => Err(unexpected(target_id, "blob put", shown)),
    }
}

/// The result of a get.
pub fn expect_blob_get(target_id: &str, result: RequestResult, shown: &str) -> (r: Result<
    BlobGetResult,
    String,
>)
    ensures
        match result {
            RequestResult::BlobGet(x) => r == Ok::<BlobGetResult, String>(x),
            _ => r matches Err(m) && m@ == unexpected_spec(target_id@, "blob get"@, shown@),
        },
{
    match result {
        RequestResult::BlobGet(x) => Ok(x),
        _ => Err(unexpected(target_id, "blob get", shown)),
    }
}

/// The result of a paced get; `what` names its kind.
pub fn expect_paced_get(target_id: &str, result: RequestResult, what: &str, shown: &str) -> (r: Result<
    PacedBlobGetResult,
    String,
>)
    ensures
        match result {
            RequestResult::PacedBlobGet(x) => r == Ok::<PacedBlobGetResult, String>(x),
            _ => r matches Err(m) && m@ == unexpected_spec(target_id@, what@, shown@),
        },
{
    match result {
        RequestResult::PacedBlobGet(x) => Ok(x),
        _ => Err(unexpected(target_id, what, shown)),
    }
}

/// The result of a send.
pub fn expect_channel_send(target_id: &str, result: RequestResult, shown: &str) -> (r: Result<
    ChannelSendResult,
    String,
>)
    ensures
        match result {
            RequestResult::ChannelSend(x) => r == Ok::<ChannelSendResult, String>(x),
            _ => r matches Err(m) && m@ == unexpected_spec(target_id@, "channel send"@, shown@),
        },
{
    match result {
        RequestResult::ChannelSend(x) => Ok(x),
        _ => Err(unexpected(target_id, "channel send", shown)),
    }
}

/// The result of a receiver.
pub fn expect_channel_receiver(target_id: &str, result: RequestResult, shown: &str) -> (r: Result<
    ChannelReceiverResult,
    String,
>)
    ensures
        match result {
            RequestResult::ChannelReceiver(x) => r == Ok::<ChannelReceiverResult, String>(x),
            _ => r matches Err(m) && m@ == unexpected_spec(target_id@, "channel receiver"@, shown@),
        },
{
    match result {
        RequestResult::ChannelReceiver(x) => Ok(x),
        _ => Err(unexpected(target_id, "channel receiver", shown)),
    }
}

// ---------------------------------------------------------------------------------------------
// Samples in chunks
// ---------------------------------------------------------------------------------------------
/// Fetches the samples of a receiver chunk by chunk.
#[derive(Debug)]
pub struct SampleFetch {
    pub offset: usize,
    pub delivery: Vec<Real>,
    pub materialize: Vec<Real>,
}

pub open spec fn fetch_problem(
    fetch: SampleFetch,
    target_id: Seq<char>,
    response: ChannelReceiverSamplesChunkResponse,
) -> Option<Seq<char>> {
    let delivered = fetch.delivery@.len() + response.delivery_latency_samples_ms@.len();
    let materialized = fetch.materialize@.len() + response.materialize_latency_samples_ms@.len();
    if !response.ok {
        Some(
            "target "@ + target_id + " rejected channel receiver samples chunk: "@
                + response.message@,
        )
    } else if response.status != RequestStatus::Finished {
        Some(
            "target "@ + target_id + " channel receiver samples are not ready: "@
                + response.status.name_spec() + ": "@ + response.message@,
        )
    } else if response.has_more {
        None
    } else if delivered != response.delivery_count {
        Some(
            "target "@ + target_id + " returned "@ + text::dec(delivered as nat)
                + " delivery samples, expected "@ + text::dec(response.delivery_count as nat),
        )
    } else if materialized != response.materialize_count {
        Some(
            "target "@ + target_id + " returned "@ + text::dec(materialized as nat)
                + " materialize samples, expected "@ + text::dec(
                response.materialize_count as nat,
            ),
        )
    } else {
        None
    }
}

impl SampleFetch {
    pub fn new() -> (r: SampleFetch)
        ensures
            r.offset == 0,
            r.delivery@.len() == 0,
            r.materialize@.len() == 0,
    {
        SampleFetch { offset: 0, delivery: Vec::new(), materialize: Vec::new() }
    }

    /// The request for the next chunk.
    pub fn request(&self, run_id: &str, req_id: &str) -> (r: ChannelReceiverSamplesChunkRequest)
        ensures
            r.run_id@ == run_id@,
            r.req_id@ == req_id@,
            r.offset == self.offset,
            r.limit == RECEIVER_SAMPLE_CHUNK_SIZE,
    {
        ChannelReceiverSamplesChunkRequest {
            run_id: run_id.to_owned(),
            req_id: req_id.to_owned(),
            offset: self.offset,
            limit: RECEIVER_SAMPLE_CHUNK_SIZE,
        }
    }

    /// Takes a chunk. The fetch is over once there are no more.
    pub fn take(&mut self, target_id: &str, response: ChannelReceiverSamplesChunkResponse) -> (r:
        Result<bool, String>)
        ensures
            match fetch_problem(*old(self), target_id@, response) {
                Some(problem) => r matches Err(m) && m@ == problem,
                None => {
                    &&& r == Ok::<bool, String>(!response.has_more)
                    &&& final(self).delivery@ == old(self).delivery@
                        + response.delivery_latency_samples_ms@
                    &&& final(self).materialize@ == old(self).materialize@
                        + response.materialize_latency_samples_ms@
                    &&& final(self).offset == if response.has_more {
                        text::min_int(
                            old(self).offset + RECEIVER_SAMPLE_CHUNK_SIZE,
                            usize::MAX as int,
                        )
                    } else {
                        old(self).offset as int
                    }
                },
            },
    {
        if !response.ok {
            return Err(
                text::cat4(
                    "target ",
                    target_id,
                    " rejected channel receiver samples chunk: ",
                    response.message.as_str(),
                ),
            );
        }
        if response.status != RequestStatus::Finished {
            return Err(
                text::cat6(
                    "target ",
                    target_id,
                    " channel receiver samples are not ready: ",
                    response.status.name().as_str(),
                    ": ",
                    response.message.as_str(),
                ),
            );
        }
        let mut delivery = response.delivery_latency_samples_ms;
        let mut materialize = response.materialize_latency_samples_ms;
        self.delivery.append(&mut delivery);
        self.materialize.append(&mut materialize);
        if response.has_more {
            self.offset = self.offset.saturating_add(RECEIVER_SAMPLE_CHUNK_SIZE);
            return Ok(false);
        }
        if self.delivery.len() != response.delivery_count {
            return Err(
                text::cat6(
                    "target ",
                    target_id,
                    " returned ",
                    text::decimal(self.delivery.len() as u64).as_str(),
                    " delivery samples, expected ",
                    text::decimal(response.delivery_count as u64).as_str(),
                ),
            );
        }
        if self.materialize.len() != response.materialize_count {
            return Err(
                text::cat6(
                    "target ",
                    target_id,
                    " returned ",
                    text::decimal(self.materialize.len() as u64).as_str(),
                    " materialize samples, expected ",
                    text::decimal(response.materialize_count as u64).as_str(),
                ),
            );
        }
        Ok(true)
    }

    /// A receiver result with its samples back in it.
    pub fn into_result(self, result: ChannelReceiverResult) -> (r: ChannelReceiverResult)
        ensures
            r == (ChannelReceiverResult {
                delivery_latency_samples_ms: self.delivery,
                materialize_latency_samples_ms: self.materialize,
                ..result
            }),
    {
        let mut result = result;
        result.delivery_latency_samples_ms = self.delivery;
        result.materialize_latency_samples_ms = self.materialize;
        result
    }
}

// ---------------------------------------------------------------------------------------------
// What the answers of targets come to
// ---------------------------------------------------------------------------------------------
/// The participant with a label is the first that has it.
pub proof fn lemma_participant_by_label(
    participants: Seq<ParticipantConfig>,
    label: Seq<char>,
    i: int,
    k: int,
)
    requires
        0 <= i <= k <= participants.len(),
        forall|j: int|
            i <= j < k ==> !((#[trigger] participants[j]).label is Some
                && participants[j].label->0@ == label),
    ensures
        k == participants.len() ==> with_label_from(participants, label, i) is None,
        k < participants.len() && participants[k].label is Some && participants[k].label->0@ == label
            ==> with_label_from(participants, label, i) == Some(participants[k].instance_id@),
    decreases k - i,
{
    if i < k {
        assert(!(participants[i].label is Some && participants[i].label->0@ == label));
        lemma_participant_by_label(participants, label, i + 1, k);
    }
}

/// A request is accepted just where the target says so and names it. What a target says against one is
/// told.
pub proof fn lemma_requests_that_are_accepted(target_id: Seq<char>, accepted: AcceptedResponse)
    ensures
        req_id_problem(target_id, accepted) is None <==> accepted.ok && accepted.req_id is Some,
        !accepted.ok ==> req_id_problem(target_id, accepted) == Some(
            "target "@ + target_id + " rejected request: "@ + accepted.message@,
        ),
        accepted.ok && accepted.req_id is None ==> req_id_problem(target_id, accepted) == Some(
            "target "@ + target_id + " accepted request without req_id"@,
        ),
{
}

/// An error passes by itself where it speaks of a deadline, of a timeout or of the connection, whatever
/// the case of the letters and whatever else it says.
pub proof fn lemma_errors_that_pass(error: Seq<char>, a: Seq<char>, b: Seq<char>)
    ensures
        text::lower_spec(error) == a + "deadline"@ + b ==> is_transient_poll_spec(error),
        text::lower_spec(error) == a + "timed out"@ + b ==> is_transient_poll_spec(error),
        text::lower_spec(error) == a + "timeout"@ + b ==> is_transient_poll_spec(error),
        text::lower_spec(error) == a + "connection reset"@ + b ==> is_transient_poll_spec(error),
        text::lower_spec(error) == a + "broken pipe"@ + b ==> is_transient_poll_spec(error),
        text::lower_spec(error) == a + "transport"@ + b ==> is_transient_poll_spec(error),
        is_transient_poll_spec(error) ==> {
            let e = text::lower_spec(error);
            ||| text::contains_spec(e, "deadline"@)
            ||| text::contains_spec(e, "timed out"@)
            ||| text::contains_spec(e, "timeout"@)
            ||| text::contains_spec(e, "connection reset"@)
            ||| text::contains_spec(e, "broken pipe"@)
            ||| text::contains_spec(e, "transport"@)
        },
{
    text::lemma_contains_what_is_there(a, "deadline"@, b);
    text::lemma_contains_what_is_there(a, "timed out"@, b);
    text::lemma_contains_what_is_there(a, "timeout"@, b);
    text::lemma_contains_what_is_there(a, "connection reset"@, b);
    text::lemma_contains_what_is_there(a, "broken pipe"@, b);
    text::lemma_contains_what_is_there(a, "transport"@, b);
}

/// A receiver that is ready is no problem, whatever its status. One that is not is waited for up to the
/// deadline, unless it has failed, ended without a result or is not known.
pub proof fn lemma_waits_for_readiness(
    target_id: Seq<char>,
    req_id: Seq<char>,
    response: PollRequestResponse,
    past_deadline: bool,
)
    ensures
        ready_problem(target_id, req_id, response, past_deadline) is None <==> response.ready || ((
        response.status is Running || (response.status is Finished && response.result is Some))
            && !past_deadline),
{
}

/// A result is waited for while the request runs and the deadline is not past. An error of a poll ends
/// the waiting, except one that passes by itself where the caller is patient and has time left.
pub proof fn lemma_waits_for_results(
    target_id: Seq<char>,
    req_id: Seq<char>,
    poll: Result<PollRequestResponse, String>,
    past_deadline: bool,
    barrier_timeout_ms: u64,
    patient: bool,
)
    ensures
        ({
            let problem = result_problem(
                target_id,
                req_id,
                poll,
                past_deadline,
                barrier_timeout_ms,
                patient,
            );
            &&& poll is Err ==> (problem is None <==> patient && is_transient_poll_spec(
                poll->Err_0@,
            ) && !past_deadline)
            &&& poll is Err && problem is Some ==> problem->0 == poll->Err_0@
            &&& poll is Ok ==> (problem is None <==> (poll->Ok_0.status is Running && !past_deadline)
                || (poll->Ok_0.status is Finished && poll->Ok_0.result is Some))
            &&& poll is Ok && poll->Ok_0.status is Running && past_deadline ==> problem->0
                == "timed out waiting for target "@ + target_id + " req_id="@ + req_id + " after "@
                + text::dec(barrier_timeout_ms as nat) + " ms"@
        }),
{
}

/// Samples are taken as long as the target has more of them. Once it has no more, as many of each kind
/// must have come as it counted.
pub proof fn lemma_samples_that_are_taken(
    fetch: SampleFetch,
    target_id: Seq<char>,
    response: ChannelReceiverSamplesChunkResponse,
)
    ensures
        fetch_problem(fetch, target_id, response) is None <==> response.ok
            && response.status is Finished && (response.has_more || (fetch.delivery@.len()
            + response.delivery_latency_samples_ms@.len() == response.delivery_count
            && fetch.materialize@.len() + response.materialize_latency_samples_ms@.len()
            == response.materialize_count)),
{
}

/// A result of another kind is told with what was asked for.
pub proof fn lemma_unexpected_results_are_told(
    target_id: Seq<char>,
    what: Seq<char>,
    shown: Seq<char>,
)
    ensures
        unexpected_spec(target_id, what, shown) == "target "@ + target_id
            + " returned unexpected result for "@ + what + ": "@ + shown,
{
}

/// How often targets are asked, and how many samples are fetched at a time.
pub proof fn lemma_paces_of_asking()
    ensures
        READY_POLL_INTERVAL_MS == 500,
        CHANNEL_RESULT_POLL_INTERVAL_MS == 5_000,
        BLOB_RESULT_POLL_INTERVAL_MS == 10,
        RECEIVER_SAMPLE_CHUNK_SIZE == 16_384,
{
}

} // verus!
