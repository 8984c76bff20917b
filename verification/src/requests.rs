//! Requests that a node works on: accepted, polled, cancelled, finished, and read in chunks.
use crate::binary64::Real;
use crate::native;
use crate::paced;
use crate::protocol;
use crate::protocol::{
    AcceptedResponse, BlobPutRefsChunkRequest, BlobPutRefsChunkResponse, CancelRequestRequest,
    ChannelReceiverSamplesChunkRequest, ChannelReceiverSamplesChunkResponse, PollExprRequest,
    PollExprResponse, PollRequestRequest, PollRequestResponse, RequestResult, RequestStatus,
    RequestSummary, ResourceSummary,
};
use crate::state;
use crate::state::{NodeRuntimeState, RequestRecord};
use crate::text;
use vstd::prelude::*;
use vstd::string::*;

verus! {

// ---------------------------------------------------------------------------------------------
// Accepting
// ---------------------------------------------------------------------------------------------
impl RequestRecord {
    /// A request that has just been accepted.
    pub open spec fn is_new(self, run_id: Seq<char>, kind: Seq<char>, seq: nat) -> bool {
        &&& self.run_id@ == run_id
        &&& self.kind@ == kind
        &&& self.seq == seq
        &&& self.req_id@ == state::request_id(kind, seq)
        &&& self.status is Running
        &&& !self.ready
        &&& !self.cancelled
        &&& self.result is None
        &&& self.error is None
    }
}

/// From `before` to `after` one request of the given kind was added.
pub open spec fn request_added(
    before: NodeRuntimeState,
    after: NodeRuntimeState,
    run_id: Seq<char>,
    kind: Seq<char>,
) -> bool {
    &&& after.next_request_seq == before.next_request_seq + 1
    &&& after.generation == before.generation + 1
    &&& state::phase_moved(before.current, after.current, run_id, "request_running:"@ + kind)
    &&& exists|i: int, record: RequestRecord|
        0 <= i <= before.requests@.len() && record.is_new(
            run_id,
            kind,
            after.next_request_seq as nat,
        ) && after.requests@ == #[trigger] before.requests@.insert(i, record)
}

proof fn lemma_fresh_id(before: NodeRuntimeState, kind: Seq<char>, i: int)
    requires
        before.wf(),
        before.can_advance(),
        0 <= i < before.requests@.len(),
    ensures
        before.requests@[i].req_id@ != state::request_id(
            kind,
            (before.next_request_seq + 1) as nat,
        ),
{
    let r = before.requests@[i];
    if r.req_id@ == state::request_id(kind, (before.next_request_seq + 1) as nat) {
        text::lemma_numbered_names_differ(
            r.kind@,
            r.seq as nat,
            kind,
            (before.next_request_seq + 1) as nat,
            6,
        );
    }
}

impl NodeRuntimeState {
    /// Accepts a request of the given kind.
    pub fn create_request(&mut self, instance_id: &str, run_id: &str, kind: &str) -> (r:
        AcceptedResponse)
        requires
            old(self).wf(),
            old(self).can_advance(),
        ensures
            final(self).wf(),
            r.instance_id@ == instance_id@,
            r.run_id@ == run_id@,
            r.ok == !text::is_blank_spec(run_id@),
            !r.ok ==> {
                &&& *final(self) == *old(self)
                &&& r.req_id is None
                &&& r.message@ == "run_id must not be empty"@
            },
            r.ok ==> {
                &&& request_added(*old(self), *final(self), run_id@, kind@)
                &&& text::option_view(r.req_id) == Some(
                    state::request_id(kind@, final(self).next_request_seq as nat),
                )
                &&& r.message@ == "request accepted"@
                &&& forall|i: int|
                    0 <= i < old(self).requests@.len() ==> (
                    #[trigger] old(self).requests@[i]).req_id@ != r.req_id->0@
            },
    {
        if text::is_blank(run_id) {
            return AcceptedResponse {
                ok: false,
                instance_id: instance_id.to_owned(),
                run_id: run_id.to_owned(),
                req_id: None,
                message: "run_id must not be empty".to_owned(),
            };
        }
        let seq: u64 = self.next_request_seq + 1;
        let req_id = text::cat3(kind, "-", text::decimal_padded(seq, 6).as_str());
        let mut i: usize = 0;
        while i < self.requests.len() && text::text_before(
            self.requests[i].req_id.as_str(),
            req_id.as_str(),
        )
            invariant
                i <= self.requests@.len(),
                *self == *old(self),
                forall|j: int|
                    0 <= j < i ==> text::lex_before(
                        (#[trigger] self.requests@[j]).req_id@,
                        req_id@,
                    ),
            decreases self.requests.len() - i,
        {
            i = i + 1;
        }
        let record = RequestRecord {
            run_id: run_id.to_owned(),
            req_id: req_id.clone(),
            kind: kind.to_owned(),
            seq,
            status: RequestStatus::Running,
            ready: false,
            cancelled: false,
            result: None,
            error: None,
        };
        let ghost before = *self;
        let ghost added = record;
        proof {
            assert forall|j: int| 0 <= j < before.requests@.len() implies (
            #[trigger] before.requests@[j]).req_id@ != req_id@ by {
                lemma_fresh_id(before, kind@, j);
            }
            if i < before.requests@.len() {
                text::lemma_lex_total(before.requests@[i as int].req_id@, req_id@);
            }
        }
        self.requests.insert(i, record);
        self.next_request_seq = seq;
        self.move_phase(run_id, text::cat2("request_running:", kind));
        self.generation = self.generation + 1;
        proof {
            let out = self.requests@;
            assert(out == before.requests@.insert(i as int, added));
            assert forall|x: int, y: int| 0 <= x < y < out.len() implies text::lex_before(
                (#[trigger] out[x]).req_id@,
                (#[trigger] out[y]).req_id@,
            ) by {
                if x == i {
                    if y - 1 > i {
                        text::lemma_lex_transitive(
                            req_id@,
                            before.requests@[i as int].req_id@,
                            before.requests@[y - 1].req_id@,
                        );
                    }
                } else if y != i && x < i && y > i {
                    assert(text::lex_before(
                        before.requests@[x].req_id@,
                        before.requests@[y - 1].req_id@,
                    ));
                }
            }
            assert(added.is_new(run_id@, kind@, self.next_request_seq as nat));
            if before.current is Some {
                assert(before.current->0.wf());
            }
        }
        AcceptedResponse {
            ok: true,
            instance_id: instance_id.to_owned(),
            run_id: run_id.to_owned(),
            req_id: Some(req_id),
            message: "request accepted".to_owned(),
        }
    }
}

// ---------------------------------------------------------------------------------------------
// Progress
// ---------------------------------------------------------------------------------------------
/// The error for a request that the node does not know.
pub open spec fn unknown_request(run_id: Seq<char>, req_id: Seq<char>) -> Seq<char> {
    "unknown req_id="@ + req_id + " for run_id="@ + run_id
}

fn unknown_request_text(run_id: &str, req_id: &str) -> (r: String)
    ensures
        r@ == unknown_request(run_id@, req_id@),
{
    text::cat4("unknown req_id=", req_id, " for run_id=", run_id)
}

/// From `before` to `after` the record of one request became `record`, and nothing else changed
/// but the phase of its run and the generation.
pub open spec fn request_moved(
    before: NodeRuntimeState,
    after: NodeRuntimeState,
    run_id: Seq<char>,
    req_id: Seq<char>,
    record: RequestRecord,
    phase: Seq<char>,
) -> bool {
    &&& before.has_request(run_id, req_id)
    &&& after.next_request_seq == before.next_request_seq
    &&& after.generation == before.generation + 1
    &&& state::phase_moved(
        before.current,
        after.current,
        run_id,
        phase + before.request(run_id, req_id).kind@,
    )
    &&& exists|i: int|
        before.is_request(run_id, req_id, i) && after.requests@ == #[trigger] before.requests@.update(
            i,
            record,
        )
}

/// A request that moved is still there, under the same id, with its new record.
pub proof fn lemma_moved_request_is_found(
    before: NodeRuntimeState,
    after: NodeRuntimeState,
    run_id: Seq<char>,
    req_id: Seq<char>,
    record: RequestRecord,
    phase: Seq<char>,
)
    requires
        before.wf(),
        after.wf(),
        request_moved(before, after, run_id, req_id, record, phase),
        record.run_id@ == run_id,
        record.req_id@ == req_id,
    ensures
        after.has_request(run_id, req_id),
        after.request(run_id, req_id) == record,
{
    let i = choose|i: int|
        before.is_request(run_id, req_id, i) && after.requests@
            == #[trigger] before.requests@.update(i, record);
    assert(after.is_request(run_id, req_id, i));
    let k = choose|k: int| after.is_request(run_id, req_id, k);
    after.lemma_request_unique(run_id, req_id, i, k);
}

/// Other requests keep their records when one moves.
pub proof fn lemma_other_requests_keep(
    before: NodeRuntimeState,
    after: NodeRuntimeState,
    run_id: Seq<char>,
    req_id: Seq<char>,
    record: RequestRecord,
    phase: Seq<char>,
    other_run: Seq<char>,
    other_req: Seq<char>,
)
    requires
        before.wf(),
        after.wf(),
        request_moved(before, after, run_id, req_id, record, phase),
        before.has_request(other_run, other_req),
        other_run != run_id || other_req != req_id,
    ensures
        after.has_request(other_run, other_req),
        after.request(other_run, other_req) == before.request(other_run, other_req),
{
    let i = choose|i: int|
        before.is_request(run_id, req_id, i) && after.requests@
            == #[trigger] before.requests@.update(i, record);
    let k = choose|k: int| before.is_request(other_run, other_req, k);
    assert(i != k);
    assert(after.is_request(other_run, other_req, k));
    let m = choose|m: int| after.is_request(other_run, other_req, m);
    after.lemma_request_unique(other_run, other_req, k, m);
}

/// A request that has just been accepted is known under its id, is running, and has no result.
pub proof fn lemma_added_request_is_running(
    before: NodeRuntimeState,
    after: NodeRuntimeState,
    run_id: Seq<char>,
    kind: Seq<char>,
)
    requires
        before.wf(),
        after.wf(),
        request_added(before, after, run_id, kind),
    ensures
        after.has_request(run_id, state::request_id(kind, after.next_request_seq as nat)),
        after.request(
            run_id,
            state::request_id(kind, after.next_request_seq as nat),
        ).is_new(run_id, kind, after.next_request_seq as nat),
{
    let id = state::request_id(kind, after.next_request_seq as nat);
    let (i, record) = choose|i: int, record: RequestRecord|
        0 <= i <= before.requests@.len() && record.is_new(
            run_id,
            kind,
            after.next_request_seq as nat,
        ) && after.requests@ == #[trigger] before.requests@.insert(i, record);
    assert(after.requests@[i] == record);
    assert(after.is_request(run_id, id, i));
    let k = choose|k: int| after.is_request(run_id, id, k);
    after.lemma_request_unique(run_id, id, i, k);
}

impl NodeRuntimeState {
    /// Marks a request as ready for others to rely on.
    pub fn mark_request_ready(&mut self, run_id: &str, req_id: &str) -> (r: Result<(), String>)
        requires
            old(self).wf(),
            old(self).can_advance(),
        ensures
            final(self).wf(),
            match r {
                Ok(_) => request_moved(
                    *old(self),
                    *final(self),
                    run_id@,
                    req_id@,
                    (RequestRecord { ready: true, ..old(self).request(run_id@, req_id@) }),
                    "request_ready:"@,
                ),
                Err(e) => !old(self).has_request(run_id@, req_id@) && e@ == unknown_request(
                    run_id@,
                    req_id@,
                ) && *final(self) == *old(self),
            },
    {
        match self.position(run_id, req_id) {
            None => Err(unknown_request_text(run_id, req_id)),
            Some(i) => {
                let ghost before = *self;
                proof {
                    let k = choose|k: int| before.is_request(run_id@, req_id@, k);
                    before.lemma_request_unique(run_id@, req_id@, i as int, k);
                }
                let kind = self.requests[i].kind.clone();
                self.requests[i].ready = true;
                self.move_phase(run_id, text::cat2("request_ready:", kind.as_str()));
                self.generation = self.generation + 1;
                proof {
                    assert(self.requests@ =~= before.requests@.update(
                        i as int,
                        (RequestRecord { ready: true, ..before.request(run_id@, req_id@) }),
                    ));
                    lemma_wf_after_update(before, *self, i as int);
                }
                Ok(())
            },
        }
    }

    /// Asks a request to stop.
    pub fn cancel_request(&mut self, request: &CancelRequestRequest) -> (r: Result<(), String>)
        requires
            old(self).wf(),
            old(self).can_advance(),
        ensures
            final(self).wf(),
            match r {
                Ok(_) => request_moved(
                    *old(self),
                    *final(self),
                    request.run_id@,
                    request.req_id@,
                    (RequestRecord {
                        cancelled: true,
                        ..old(self).request(request.run_id@, request.req_id@)
                    }),
                    "request_cancelled:"@,
                ),
                Err(e) => !old(self).has_request(request.run_id@, request.req_id@) && e@
                    == unknown_request(request.run_id@, request.req_id@) && *final(self)
                    == *old(self),
            },
    {
        let run_id = request.run_id.as_str();
        let req_id = request.req_id.as_str();
        match self.position(run_id, req_id) {
            None => Err(unknown_request_text(run_id, req_id)),
            Some(i) => {
                let ghost before = *self;
                proof {
                    let k = choose|k: int| before.is_request(run_id@, req_id@, k);
                    before.lemma_request_unique(run_id@, req_id@, i as int, k);
                }
                let kind = self.requests[i].kind.clone();
                self.requests[i].cancelled = true;
                self.move_phase(run_id, text::cat2("request_cancelled:", kind.as_str()));
                self.generation = self.generation + 1;
                proof {
                    assert(self.requests@ =~= before.requests@.update(
                        i as int,
                        (RequestRecord { cancelled: true, ..before.request(run_id@, req_id@) }),
                    ));
                    lemma_wf_after_update(before, *self, i as int);
                }
                Ok(())
            },
        }
    }

    /// Whether a request was asked to stop.
    pub fn request_cancel_flag(&self, run_id: &str, req_id: &str) -> (r: Result<bool, String>)
        requires
            self.wf(),
        ensures
            match r {
                Ok(b) => self.has_request(run_id@, req_id@) && b == self.request(
                    run_id@,
                    req_id@,
                ).cancelled,
                Err(e) => !self.has_request(run_id@, req_id@) && e@ == unknown_request(
                    run_id@,
                    req_id@,
                ),
            },
    {
        match self.position(run_id, req_id) {
            None => Err(unknown_request_text(run_id, req_id)),
            Some(i) => {
                proof {
                    let k = choose|k: int| self.is_request(run_id@, req_id@, k);
                    self.lemma_request_unique(run_id@, req_id@, i as int, k);
                }
                Ok(self.requests[i].cancelled)
            },
        }
    }

    /// Records the result of a request.
    pub fn finish_request(&mut self, run_id: &str, req_id: &str, result: RequestResult) -> (r:
        Result<(), String>)
        requires
            old(self).wf(),
            old(self).can_advance(),
        ensures
            final(self).wf(),
            match r {
                Ok(_) => request_moved(
                    *old(self),
                    *final(self),
                    run_id@,
                    req_id@,
                    (RequestRecord {
                        status: RequestStatus::Finished,
                        result: Some(result),
                        error: None,
                        ..old(self).request(run_id@, req_id@)
                    }),
                    "request_finished:"@,
                ),
                Err(e) => !old(self).has_request(run_id@, req_id@) && e@ == unknown_request(
                    run_id@,
                    req_id@,
                ) && *final(self) == *old(self),
            },
    {
        match self.position(run_id, req_id) {
            None => Err(unknown_request_text(run_id, req_id)),
            Some(i) => {
                let ghost before = *self;
                proof {
                    let k = choose|k: int| before.is_request(run_id@, req_id@, k);
                    before.lemma_request_unique(run_id@, req_id@, i as int, k);
                }
                let kind = self.requests[i].kind.clone();
                self.requests[i].status = RequestStatus::Finished;
                self.requests[i].result = Some(result);
                self.requests[i].error = None;
                self.move_phase(run_id, text::cat2("request_finished:", kind.as_str()));
                self.generation = self.generation + 1;
                proof {
                    assert(self.requests@ =~= before.requests@.update(
                        i as int,
                        (RequestRecord {
                            status: RequestStatus::Finished,
                            result: Some(result),
                            error: None,
                            ..before.request(run_id@, req_id@)
                        }),
                    ));
                    lemma_wf_after_update(before, *self, i as int);
                }
                Ok(())
            },
        }
    }

    /// Records why a request failed.
    pub fn fail_request(&mut self, run_id: &str, req_id: &str, error: String) -> (r: Result<
        (),
        String,
    >)
        requires
            old(self).wf(),
            old(self).can_advance(),
        ensures
            final(self).wf(),
            match r {
                Ok(_) => request_moved(
                    *old(self),
                    *final(self),
                    run_id@,
                    req_id@,
                    (RequestRecord {
                        status: RequestStatus::Failed,
                        result: None,
                        error: Some(error),
                        ..old(self).request(run_id@, req_id@)
                    }),
                    "request_failed:"@,
                ),
                Err(e) => !old(self).has_request(run_id@, req_id@) && e@ == unknown_request(
                    run_id@,
                    req_id@,
                ) && *final(self) == *old(self),
            },
    {
        match self.position(run_id, req_id) {
            None => Err(unknown_request_text(run_id, req_id)),
            Some(i) => {
                let ghost before = *self;
                proof {
                    let k = choose|k: int| before.is_request(run_id@, req_id@, k);
                    before.lemma_request_unique(run_id@, req_id@, i as int, k);
                }
                let kind = self.requests[i].kind.clone();
                self.requests[i].status = RequestStatus::Failed;
                self.requests[i].result = None;
                self.requests[i].error = Some(error);
                self.move_phase(run_id, text::cat2("request_failed:", kind.as_str()));
                self.generation = self.generation + 1;
                proof {
                    assert(self.requests@ =~= before.requests@.update(
                        i as int,
                        (RequestRecord {
                            status: RequestStatus::Failed,
                            result: None,
                            error: Some(error),
                            ..before.request(run_id@, req_id@)
                        }),
                    ));
                    lemma_wf_after_update(before, *self, i as int);
                }
                Ok(())
            },
        }
    }
}

proof fn lemma_wf_after_update(before: NodeRuntimeState, after: NodeRuntimeState, i: int)
    requires
        before.wf(),
        0 <= i < before.requests@.len(),
        after.requests@.len() == before.requests@.len(),
        forall|j: int|
            0 <= j < before.requests@.len() && j != i ==> #[trigger] after.requests@[j]
                == before.requests@[j],
        after.requests@[i].req_id == before.requests@[i].req_id,
        after.requests@[i].kind == before.requests@[i].kind,
        after.requests@[i].seq == before.requests@[i].seq,
        after.next_request_seq == before.next_request_seq,
        match (before.current, after.current) {
            (None, None) => true,
            (Some(a), Some(b)) => b == (state::ExprState { phase: b.phase, ..a }),
            _ => false,
        },
    ensures
        after.wf(),
{
    assert forall|x: int, y: int| 0 <= x < y < after.requests@.len() implies text::lex_before(
        (#[trigger] after.requests@[x]).req_id@,
        (#[trigger] after.requests@[y]).req_id@,
    ) by {
        assert(text::lex_before(before.requests@[x].req_id@, before.requests@[y].req_id@));
    }
    if before.current is Some {
        assert(before.current->0.wf());
    }
}

// ---------------------------------------------------------------------------------------------
// Kinds of requests
// ---------------------------------------------------------------------------------------------
/// What a node works on in the background.
#[derive(Clone, Copy, Debug, PartialEq, Eq, Structural)]
pub enum RequestKind {
    BlobPut,
    BlobGet,
    PacedBlobGet,
    PreparedBlobGet,
    ChannelSend,
    ChannelReceiver,
    Experiment,
}

impl RequestKind {
    pub open spec fn name_spec(self) -> Seq<char> {
        match self {
            RequestKind::BlobPut => "blob-put"@,
            RequestKind::BlobGet => "blob-get"@,
            RequestKind::PacedBlobGet => "blob-get-paced"@,
            RequestKind::PreparedBlobGet => "blob-get-prepared"@,
            RequestKind::ChannelSend => "channel-send"@,
            RequestKind::ChannelReceiver => "channel-receiver"@,
            RequestKind::Experiment => "experiment"@,
        }
    }

    /// The kind under which a request is recorded.
    pub fn name(self) -> (r: &'static str)
        ensures
            r@ == self.name_spec(),
    {
        match self {
            RequestKind::BlobPut => "blob-put",
            RequestKind::BlobGet => "blob-get",
            RequestKind::PacedBlobGet => "blob-get-paced",
            RequestKind::PreparedBlobGet => "blob-get-prepared",
            RequestKind::ChannelSend => "channel-send",
            RequestKind::ChannelReceiver => "channel-receiver",
            RequestKind::Experiment => "experiment",
        }
    }

    pub open spec fn label_spec(self) -> Seq<char> {
        match self {
            RequestKind::BlobPut => "blob put"@,
            RequestKind::BlobGet => "blob get"@,
            RequestKind::PacedBlobGet => "paced blob get"@,
            RequestKind::PreparedBlobGet => "prepared blob get"@,
            RequestKind::ChannelSend => "channel send"@,
            RequestKind::ChannelReceiver => "channel receiver"@,
            RequestKind::Experiment => "experiment"@,
        }
    }

    /// The kind in messages.
    pub fn label(self) -> (r: &'static str)
        ensures
            r@ == self.label_spec(),
    {
        match self {
            RequestKind::BlobPut => "blob put",
            RequestKind::BlobGet => "blob get",
            RequestKind::PacedBlobGet => "paced blob get",
            RequestKind::PreparedBlobGet => "prepared blob get",
            RequestKind::ChannelSend => "channel send",
            RequestKind::ChannelReceiver => "channel receiver",
            RequestKind::Experiment => "experiment",
        }
    }
}

/// What a request becomes once its work is done, well or not.
pub open spec fn settled(record: RequestRecord, outcome: Result<RequestResult, String>) -> RequestRecord {
    match outcome {
        Ok(result) => RequestRecord {
            status: RequestStatus::Finished,
            result: Some(result),
            error: None,
            ..record
        },
        Err(error) => RequestRecord {
            status: RequestStatus::Failed,
            result: None,
            error: Some(error),
            ..record
        },
    }
}

impl NodeRuntimeState {
    /// Records what became of a request; the message says so where the node knows it no more.
    pub fn settle_request(
        &mut self,
        kind: RequestKind,
        run_id: &str,
        req_id: &str,
        outcome: Result<RequestResult, String>,
    ) -> (r: Result<(), String>)
        requires
            old(self).wf(),
            old(self).can_advance(),
        ensures
            final(self).wf(),
            match r {
                Ok(_) => request_moved(
                    *old(self),
                    *final(self),
                    run_id@,
                    req_id@,
                    settled(old(self).request(run_id@, req_id@), outcome),
                    if outcome is Ok {
                        "request_finished:"@
                    } else {
                        "request_failed:"@
                    },
                ),
                Err(m) => {
                    &&& !old(self).has_request(run_id@, req_id@)
                    &&& *final(self) == *old(self)
                    &&& m@ == (if outcome is Ok {
                        "failed to finish "@
                    } else {
                        "failed to fail "@
                    }) + kind.label_spec() + " request "@ + req_id@ + ": "@ + unknown_request(
                        run_id@,
                        req_id@,
                    )
                },
            },
    {
        match outcome {
            Ok(result) => match self.finish_request(run_id, req_id, result) {
                Ok(_) => Ok(()),
                Err(m) => Err(
                    text::cat6(
                        "failed to finish ",
                        kind.label(),
                        " request ",
                        req_id,
                        ": ",
                        m.as_str(),
                    ),
                ),
            },
            Err(error) => match self.fail_request(run_id, req_id, error) {
                Ok(_) => Ok(()),
                Err(m) => Err(
                    text::cat6(
                        "failed to fail ",
                        kind.label(),
                        " request ",
                        req_id,
                        ": ",
                        m.as_str(),
                    ),
                ),
            },
        }
    }
}

// ---------------------------------------------------------------------------------------------
// Polling
// ---------------------------------------------------------------------------------------------
/// The error of a request, or its kind and status in words.
pub open spec fn request_message(record: RequestRecord) -> Seq<char> {
    match record.error {
        Some(e) => e@,
        None => record.kind@ + " request is "@ + record.status.name_spec(),
    }
}

fn request_message_text(record: &RequestRecord) -> (r: String)
    ensures
        r@ == request_message(*record),
{
    match &record.error {
        Some(e) => e.clone(),
        None => text::cat3(record.kind.as_str(), " request is ", record.status.name().as_str()),
    }
}

/// The answer to a poll.
pub open spec fn poll_answer(
    state: NodeRuntimeState,
    instance_id: Seq<char>,
    request: PollRequestRequest,
    r: PollRequestResponse,
) -> bool {
    let record = state.request(request.run_id@, request.req_id@);
    &&& r.ok
    &&& r.instance_id@ == instance_id
    &&& text::option_view(r.run_id) == Some(request.run_id@)
    &&& r.req_id@ == request.req_id@
    &&& if !state.has_request(request.run_id@, request.req_id@) {
        &&& r.status is Missing
        &&& !r.ready
        &&& r.result is None
        &&& r.message@ == "unknown request id"@
    } else {
        &&& r.status == record.status
        &&& r.ready == record.ready
        &&& r.message@ == request_message(record)
        &&& match r.result {
            Some(sent) => request.include_result && record.result is Some && protocol::is_stripped(
                sent,
                record.result->0,
            ),
            None => !request.include_result || record.result is None,
        }
    }
}

impl NodeRuntimeState {
    /// Reports the state of a request.
    pub fn poll_request(&self, instance_id: &str, request: &PollRequestRequest) -> (r:
        PollRequestResponse)
        requires
            self.wf(),
        ensures
            poll_answer(*self, instance_id@, *request, r),
    {
        match self.position(request.run_id.as_str(), request.req_id.as_str()) {
            None => PollRequestResponse {
                ok: true,
                instance_id: instance_id.to_owned(),
                run_id: Some(request.run_id.clone()),
                req_id: request.req_id.clone(),
                status: RequestStatus::Missing,
                ready: false,
                result: None,
                message: "unknown request id".to_owned(),
            },
            Some(i) => {
                proof {
                    let k = choose|k: int| self.is_request(request.run_id@, request.req_id@, k);
                    self.lemma_request_unique(request.run_id@, request.req_id@, i as int, k);
                }
                let record = &self.requests[i];
                let result = if request.include_result {
                    match &record.result {
                        Some(x) => Some(protocol::strip_large_request_result(x)),
                        None => None,
                    }
                } else {
                    None
                };
                PollRequestResponse {
                    ok: true,
                    instance_id: instance_id.to_owned(),
                    run_id: Some(record.run_id.clone()),
                    req_id: record.req_id.clone(),
                    status: record.status,
                    ready: record.ready,
                    result,
                    message: request_message_text(record),
                }
            },
        }
    }
}

/// After a request has finished, a poll that asks for it reports the result.
pub proof fn lemma_poll_after_finish(
    before: NodeRuntimeState,
    after: NodeRuntimeState,
    instance_id: Seq<char>,
    request: PollRequestRequest,
    result: RequestResult,
    response: PollRequestResponse,
)
    requires
        before.wf(),
        after.wf(),
        request.include_result,
        before.has_request(request.run_id@, request.req_id@),
        request_moved(
            before,
            after,
            request.run_id@,
            request.req_id@,
            (RequestRecord {
                status: RequestStatus::Finished,
                result: Some(result),
                error: None,
                ..before.request(request.run_id@, request.req_id@)
            }),
            "request_finished:"@,
        ),
        poll_answer(after, instance_id, request, response),
    ensures
        response.status is Finished,
        response.result is Some,
        protocol::is_stripped(response.result->0, result),
{
    lemma_moved_request_is_found(
        before,
        after,
        request.run_id@,
        request.req_id@,
        (RequestRecord {
            status: RequestStatus::Finished,
            result: Some(result),
            error: None,
            ..before.request(request.run_id@, request.req_id@)
        }),
        "request_finished:"@,
    );
}

/// After a request has failed, a poll reports the error and no result.
pub proof fn lemma_poll_after_failure(
    before: NodeRuntimeState,
    after: NodeRuntimeState,
    instance_id: Seq<char>,
    request: PollRequestRequest,
    error: String,
    response: PollRequestResponse,
)
    requires
        before.wf(),
        after.wf(),
        before.has_request(request.run_id@, request.req_id@),
        request_moved(
            before,
            after,
            request.run_id@,
            request.req_id@,
            (RequestRecord {
                status: RequestStatus::Failed,
                result: None,
                error: Some(error),
                ..before.request(request.run_id@, request.req_id@)
            }),
            "request_failed:"@,
        ),
        poll_answer(after, instance_id, request, response),
    ensures
        response.status is Failed,
        response.result is None,
        response.message@ == error@,
{
    lemma_moved_request_is_found(
        before,
        after,
        request.run_id@,
        request.req_id@,
        (RequestRecord {
            status: RequestStatus::Failed,
            result: None,
            error: Some(error),
            ..before.request(request.run_id@, request.req_id@)
        }),
        "request_failed:"@,
    );
}

// ---------------------------------------------------------------------------------------------
// Chunks
// ---------------------------------------------------------------------------------------------
/// Where a chunk that starts at `offset` begins in a list of `len`.
pub open spec fn chunk_start(len: int, offset: int) -> int {
    text::min_int(offset, len)
}

/// Where a chunk of at most `limit` items from `offset` on ends in a list of `len`.
pub open spec fn chunk_end(len: int, offset: int, limit: int) -> int {
    text::min_int(chunk_start(len, offset) + limit, len)
}

/// The items of a chunk.
pub open spec fn chunk_of<T>(items: Seq<T>, offset: int, limit: int) -> Seq<T> {
    items.subrange(
        chunk_start(items.len() as int, offset),
        chunk_end(items.len() as int, offset, limit),
    )
}

fn bounds_of_chunk(len: usize, offset: usize, limit: usize) -> (r: (usize, usize))
    ensures
        r.0 == chunk_start(len as int, offset as int),
        r.1 == chunk_end(len as int, offset as int, limit as int),
        r.0 <= r.1 <= len,
{
    let start: usize = if offset < len {
        offset
    } else {
        len
    };
    let end: usize = if limit < len - start {
        start + limit
    } else {
        len
    };
    (start, end)
}

/// A chunk that is not there: of an unknown request, of one that has not finished, of one with
/// another result, or of no size.
pub open spec fn empty_refs_chunk(r: BlobPutRefsChunkResponse, offset: usize) -> bool {
    r.count == 0 && r.total_bytes == 0 && r.elapsed_ms == Real::zero_spec() && r.offset == offset
        && r.refs@.len() == 0 && !r.has_more
}

/// The answer to a request for a chunk of the references of a put. `shown` is how a result of
/// another kind prints.
pub open spec fn refs_chunk_answer(
    state: NodeRuntimeState,
    instance_id: Seq<char>,
    request: BlobPutRefsChunkRequest,
    shown: Seq<char>,
    r: BlobPutRefsChunkResponse,
) -> bool {
    let record = state.request(request.run_id@, request.req_id@);
    &&& r.instance_id@ == instance_id
    &&& text::option_view(r.run_id) == Some(request.run_id@)
    &&& r.req_id@ == request.req_id@
    &&& if request.limit == 0 {
        &&& !r.ok
        &&& r.status is Missing
        &&& empty_refs_chunk(r, request.offset)
        &&& r.message@ == "refs chunk limit must be greater than zero"@
    } else if !state.has_request(request.run_id@, request.req_id@) {
        &&& r.ok
        &&& r.status is Missing
        &&& empty_refs_chunk(r, request.offset)
        &&& r.message@ == "unknown request id"@
    } else if record.status is Finished && record.result is Some {
        match record.result->0 {
            RequestResult::BlobPut(put) => {
                let len = put.refs@.len() as int;
                let start = chunk_start(len, request.offset as int);
                let end = chunk_end(len, request.offset as int, request.limit as int);
                &&& r.ok
                &&& r.status is Finished
                &&& r.count == put.count
                &&& r.total_bytes == put.total_bytes
                &&& r.elapsed_ms == put.elapsed_ms
                &&& r.offset == start
                &&& native::trees(r.refs@) == chunk_of(
                    native::trees(put.refs@),
                    request.offset as int,
                    request.limit as int,
                )
                &&& r.has_more == (end < len)
                &&& r.message@ == "blob put refs chunk "@ + text::dec(start as nat) + ".."@
                    + text::dec(end as nat) + "/"@ + text::dec(len as nat)
            },
            _ => {
                &&& !r.ok
                &&& r.status is Finished
                &&& empty_refs_chunk(r, request.offset)
                &&& r.message@ == "request result is not BlobPut: "@ + shown
            },
        }
    } else {
        &&& r.ok
        &&& r.status == record.status
        &&& empty_refs_chunk(r, request.offset)
        &&& r.message@ == request_message(record)
    }
}

impl NodeRuntimeState {
    /// A chunk of the references that a put request left.
    pub fn blob_put_refs_chunk(
        &self,
        instance_id: &str,
        request: &BlobPutRefsChunkRequest,
        shown: &str,
    ) -> (r: BlobPutRefsChunkResponse)
        requires
            self.wf(),
        ensures
            refs_chunk_answer(*self, instance_id@, *request, shown@, r),
    {
        let mut r = BlobPutRefsChunkResponse {
            ok: true,
            instance_id: instance_id.to_owned(),
            run_id: Some(request.run_id.clone()),
            req_id: request.req_id.clone(),
            status: RequestStatus::Missing,
            count: 0,
            total_bytes: 0,
            elapsed_ms: Real::zero(),
            offset: request.offset,
            refs: Vec::new(),
            has_more: false,
            message: String::new(),
        };
        if request.limit == 0 {
            r.ok = false;
            r.message = "refs chunk limit must be greater than zero".to_owned();
            return r;
        }
        match self.position(request.run_id.as_str(), request.req_id.as_str()) {
            None => {
                r.message = "unknown request id".to_owned();
                r
            },
            Some(i) => {
                proof {
                    let k = choose|k: int| self.is_request(request.run_id@, request.req_id@, k);
                    self.lemma_request_unique(request.run_id@, request.req_id@, i as int, k);
                }
                let record = &self.requests[i];
                r.status = record.status;
                if record.status == RequestStatus::Finished && record.result.is_some() {
                    match &record.result {
                        Some(RequestResult::BlobPut(put)) => {
                            let len: usize = put.refs.len();
                            let (start, end) = bounds_of_chunk(len, request.offset, request.limit);
                            r.count = put.count;
                            r.total_bytes = put.total_bytes;
                            r.elapsed_ms = put.elapsed_ms;
                            r.offset = start;
                            r.refs = native::copy_json(&put.refs, start, end);
                            r.has_more = end < len;
                            r.message =
                            text::cat6(
                                "blob put refs chunk ",
                                text::decimal(start as u64).as_str(),
                                "..",
                                text::decimal(end as u64).as_str(),
                                "/",
                                text::decimal(len as u64).as_str(),
                            );
                        },
                        _ => {
                            r.ok = false;
                            r.message = text::cat2("request result is not BlobPut: ", shown);
                        },
                    }
                } else {
                    r.message = request_message_text(record);
                }
                r
            },
        }
    }
}

pub open spec fn empty_samples_chunk(r: ChannelReceiverSamplesChunkResponse) -> bool {
    r.delivery_count == 0 && r.materialize_count == 0 && r.delivery_latency_samples_ms@.len() == 0
        && r.materialize_latency_samples_ms@.len() == 0 && !r.has_more
}

/// The answer to a request for a chunk of the samples of a receiver. `shown` is how a result of
/// another kind prints.
pub open spec fn samples_chunk_answer(
    state: NodeRuntimeState,
    instance_id: Seq<char>,
    request: ChannelReceiverSamplesChunkRequest,
    shown: Seq<char>,
    r: ChannelReceiverSamplesChunkResponse,
) -> bool {
    let record = state.request(request.run_id@, request.req_id@);
    &&& r.instance_id@ == instance_id
    &&& text::option_view(r.run_id) == Some(request.run_id@)
    &&& r.req_id@ == request.req_id@
    &&& r.offset == request.offset
    &&& if request.limit == 0 {
        &&& !r.ok
        &&& r.status is Missing
        &&& empty_samples_chunk(r)
        &&& r.message@ == "samples chunk limit must be greater than zero"@
    } else if !state.has_request(request.run_id@, request.req_id@) {
        &&& r.ok
        &&& r.status is Missing
        &&& empty_samples_chunk(r)
        &&& r.message@ == "unknown request id"@
    } else if record.status is Finished && record.result is Some {
        match record.result->0 {
            RequestResult::ChannelReceiver(recv) => {
                let d = recv.delivery_latency_samples_ms@;
                let m = recv.materialize_latency_samples_ms@;
                let offset = request.offset as int;
                let limit = request.limit as int;
                &&& r.ok
                &&& r.status is Finished
                &&& r.delivery_count == d.len()
                &&& r.materialize_count == m.len()
                &&& r.delivery_latency_samples_ms@ == chunk_of(d, offset, limit)
                &&& r.materialize_latency_samples_ms@ == chunk_of(m, offset, limit)
                &&& r.has_more == (chunk_end(d.len() as int, offset, limit) < d.len() || chunk_end(
                    m.len() as int,
                    offset,
                    limit,
                ) < m.len())
                &&& r.message@ == "channel receiver samples chunk offset="@ + text::dec(
                    request.offset as nat,
                ) + " limit="@ + text::dec(request.limit as nat)
            },
            _ => {
                &&& !r.ok
                &&& r.status is Finished
                &&& empty_samples_chunk(r)
                &&& r.message@ == "request result is not ChannelReceiver: "@ + shown
            },
        }
    } else {
        &&& r.ok
        &&& r.status == record.status
        &&& empty_samples_chunk(r)
        &&& r.message@ == request_message(record)
    }
}

impl NodeRuntimeState {
    /// A chunk of the latency samples that a receiver request left.
    pub fn channel_receiver_samples_chunk(
        &self,
        instance_id: &str,
        request: &ChannelReceiverSamplesChunkRequest,
        shown: &str,
    ) -> (r: ChannelReceiverSamplesChunkResponse)
        requires
            self.wf(),
        ensures
            samples_chunk_answer(*self, instance_id@, *request, shown@, r),
    {
        let mut r = ChannelReceiverSamplesChunkResponse {
            ok: true,
            instance_id: instance_id.to_owned(),
            run_id: Some(request.run_id.clone()),
            req_id: request.req_id.clone(),
            status: RequestStatus::Missing,
            offset: request.offset,
            delivery_count: 0,
            materialize_count: 0,
            delivery_latency_samples_ms: Vec::new(),
            materialize_latency_samples_ms: Vec::new(),
            has_more: false,
            message: String::new(),
        };
        if request.limit == 0 {
            r.ok = false;
            r.message = "samples chunk limit must be greater than zero".to_owned();
            return r;
        }
        match self.position(request.run_id.as_str(), request.req_id.as_str()) {
            None => {
                r.message = "unknown request id".to_owned();
                r
            },
            Some(i) => {
                proof {
                    let k = choose|k: int| self.is_request(request.run_id@, request.req_id@, k);
                    self.lemma_request_unique(request.run_id@, request.req_id@, i as int, k);
                }
                let record = &self.requests[i];
                r.status = record.status;
                if record.status == RequestStatus::Finished && record.result.is_some() {
                    match &record.result {
                        Some(RequestResult::ChannelReceiver(recv)) => {
                            let d = &recv.delivery_latency_samples_ms;
                            let m = &recv.materialize_latency_samples_ms;
                            let (d0, d1) = bounds_of_chunk(d.len(), request.offset, request.limit);
                            let (m0, m1) = bounds_of_chunk(m.len(), request.offset, request.limit);
                            r.delivery_count = d.len();
                            r.materialize_count = m.len();
                            r.delivery_latency_samples_ms = paced::copy_range(d, d0, d1);
                            r.materialize_latency_samples_ms = paced::copy_range(m, m0, m1);
                            r.has_more = d1 < d.len() || m1 < m.len();
                            r.message =
                            text::cat4(
                                "channel receiver samples chunk offset=",
                                text::decimal(request.offset as u64).as_str(),
                                " limit=",
                                text::decimal(request.limit as u64).as_str(),
                            );
                        },
                        _ => {
                            r.ok = false;
                            r.message =
                            text::cat2("request result is not ChannelReceiver: ", shown);
                        },
                    }
                } else {
                    r.message = request_message_text(record);
                }
                r
            },
        }
    }
}

/// The chunks of a list from `offset` on, `limit` items each, put together.
pub open spec fn all_chunks<T>(items: Seq<T>, offset: int, limit: int) -> Seq<T>
    decreases items.len() - offset,
{
    if limit <= 0 || offset < 0 {
        Seq::empty()
    } else if chunk_end(items.len() as int, offset, limit) < items.len() {
        chunk_of(items, offset, limit) + all_chunks(items, offset + limit, limit)
    } else {
        chunk_of(items, offset, limit)
    }
}

/// Reading a list chunk by chunk until there is no more gives the whole list.
pub proof fn lemma_chunks_cover<T>(items: Seq<T>, offset: int, limit: int)
    requires
        0 < limit,
        0 <= offset <= items.len(),
    ensures
        all_chunks(items, offset, limit) == items.skip(offset),
    decreases items.len() - offset,
{
    let len = items.len() as int;
    if chunk_end(len, offset, limit) < len {
        lemma_chunks_cover(items, offset + limit, limit);
        assert(chunk_of(items, offset, limit) + items.skip(offset + limit) =~= items.skip(offset));
    } else {
        assert(chunk_of(items, offset, limit) =~= items.skip(offset));
    }
}

// ---------------------------------------------------------------------------------------------
// The whole run
// ---------------------------------------------------------------------------------------------
/// One line of a run's summary.
pub open spec fn summary_of(r: RequestRecord) -> (Seq<char>, Seq<char>, RequestStatus, Seq<char>) {
    (
        r.req_id@,
        r.kind@,
        r.status,
        match r.error {
            Some(e) => e@,
            None => r.status.name_spec(),
        },
    )
}

pub open spec fn summary_views(v: Seq<RequestSummary>) -> Seq<
    (Seq<char>, Seq<char>, RequestStatus, Seq<char>),
> {
    v.map_values(|s: RequestSummary| (s.req_id@, s.kind@, s.status, s.message@))
}

/// The requests of a run, in the order of their ids.
pub open spec fn summaries_of(records: Seq<RequestRecord>, run_id: Seq<char>) -> Seq<
    (Seq<char>, Seq<char>, RequestStatus, Seq<char>),
>
    decreases records.len(),
{
    if records.len() == 0 {
        Seq::empty()
    } else {
        let init = summaries_of(records.drop_last(), run_id);
        if records.last().run_id@ == run_id {
            init.push(summary_of(records.last()))
        } else {
            init
        }
    }
}

impl NodeRuntimeState {
    pub fn request_summaries_for_run(&self, run_id: &str) -> (r: Vec<RequestSummary>)
        ensures
            summary_views(r@) == summaries_of(self.requests@, run_id@),
    {
        let mut out: Vec<RequestSummary> = Vec::new();
        let mut i: usize = 0;
        assert(summary_views(out@) =~= summaries_of(self.requests@.take(0), run_id@));
        while i < self.requests.len()
            invariant
                i <= self.requests@.len(),
                summary_views(out@) == summaries_of(self.requests@.take(i as int), run_id@),
            decreases self.requests.len() - i,
        {
            assert(self.requests@.take(i + 1).drop_last() =~= self.requests@.take(i as int));
            let record = &self.requests[i];
            if text::same(record.run_id.as_str(), run_id) {
                let message = match &record.error {
                    Some(e) => e.clone(),
                    None => record.status.name(),
                };
                let ghost before = out@;
                out.push(
                    RequestSummary {
                        req_id: record.req_id.clone(),
                        kind: record.kind.clone(),
                        status: record.status,
                        message,
                    },
                );
                assert(summary_views(out@) =~= summary_views(before).push(summary_of(*record)));
            }
            i = i + 1;
        }
        assert(self.requests@.take(self.requests@.len() as int) =~= self.requests@);
        out
    }

    /// Reports the current run.
    pub fn poll_expr(&self, instance_id: &str, request: &PollExprRequest) -> (r: PollExprResponse)
        ensures
            r.instance_id@ == instance_id@,
            r.generation == self.generation,
            text::option_view(r.run_id) == self.current_run_id(),
            r.phase@ == self.status_spec(),
            r.ok == (self.current matches Some(e) && e.run_id@ == request.run_id@),
            r.message@ == (match self.current {
                None => "node has no active expr"@,
                Some(e) => if e.run_id@ == request.run_id@ {
                    "expr state snapshot"@
                } else {
                    "node is running run_id="@ + e.run_id@ + "; poll requested run_id="@
                        + request.run_id@
                },
            }),
            match self.current {
                None => {
                    &&& r.resources.blob_store is None
                    &&& r.resources.metadata_store is None
                    &&& r.resources.sender is None
                    &&& r.resources.receiver is None
                    &&& r.artifacts@.len() == 0
                    &&& r.metrics@.len() == 0
                    &&& r.requests@.len() == 0
                },
                Some(e) => {
                    &&& text::option_view(r.resources.blob_store) == e.blob_store_text()
                    &&& text::option_view(r.resources.metadata_store) == e.metadata_store_text()
                    &&& text::option_view(r.resources.sender) == (match e.sender {
                        Some(s) => Some(s.channel_id@),
                        None => None,
                    })
                    &&& text::option_view(r.resources.receiver) == (match e.receiver {
                        Some(s) => Some(s.channel_id@ + ":"@ + s.consumer_id@),
                        None => None,
                    })
                    &&& r.artifacts@.len() == e.artifacts@.len()
                    &&& forall|i: int|
                        0 <= i < r.artifacts@.len() ==> (#[trigger] r.artifacts@[i]).same(
                            e.artifacts@[i],
                        )
                    &&& r.metrics@ == e.metrics@
                    &&& summary_views(r.requests@) == summaries_of(self.requests@, e.run_id@)
                },
            },
    {
        match &self.current {
            None => PollExprResponse {
                ok: false,
                instance_id: instance_id.to_owned(),
                run_id: None,
                phase: "idle".to_owned(),
                generation: self.generation,
                resources: ResourceSummary {
                    blob_store: None,
                    metadata_store: None,
                    sender: None,
                    receiver: None,
                },
                artifacts: Vec::new(),
                metrics: Vec::new(),
                requests: Vec::new(),
                message: "node has no active expr".to_owned(),
            },
            Some(current) => {
                let ok = text::same(current.run_id.as_str(), request.run_id.as_str());
                let message = if ok {
                    "expr state snapshot".to_owned()
                } else {
                    text::cat4(
                        "node is running run_id=",
                        current.run_id.as_str(),
                        "; poll requested run_id=",
                        request.run_id.as_str(),
                    )
                };
                PollExprResponse {
                    ok,
                    instance_id: instance_id.to_owned(),
                    run_id: Some(current.run_id.clone()),
                    phase: current.phase.clone(),
                    generation: self.generation,
                    resources: current.resource_summary(),
                    artifacts: current.artifact_list(),
                    metrics: current.metric_list(),
                    requests: self.request_summaries_for_run(current.run_id.as_str()),
                    message,
                }
            },
        }
    }
}

// ---------------------------------------------------------------------------------------------
// What the answers say of the requests
// ---------------------------------------------------------------------------------------------
/// A request ends once: with its result and no error, or with its error and no result. What it is
/// does not change by that, nor whether it is ready or cancelled.
pub proof fn lemma_a_request_ends(record: RequestRecord, outcome: Result<RequestResult, String>)
    ensures
        settled(record, outcome).run_id == record.run_id,
        settled(record, outcome).req_id == record.req_id,
        settled(record, outcome).kind == record.kind,
        settled(record, outcome).seq == record.seq,
        settled(record, outcome).ready == record.ready,
        settled(record, outcome).cancelled == record.cancelled,
        outcome is Ok ==> settled(record, outcome).status is Finished && settled(
            record,
            outcome,
        ).result == Some(outcome->Ok_0) && settled(record, outcome).error is None,
        outcome is Err ==> settled(record, outcome).status is Failed && settled(
            record,
            outcome,
        ).result is None && settled(record, outcome).error == Some(outcome->Err_0),
{
}

/// Accepting a request keeps every other one and adds just one.
pub proof fn lemma_accepting_keeps_the_others(
    before: NodeRuntimeState,
    after: NodeRuntimeState,
    run_id: Seq<char>,
    kind: Seq<char>,
    other_run: Seq<char>,
    other_req: Seq<char>,
)
    requires
        before.wf(),
        after.wf(),
        request_added(before, after, run_id, kind),
        before.has_request(other_run, other_req),
    ensures
        after.requests@.len() == before.requests@.len() + 1,
        after.next_request_seq == before.next_request_seq + 1,
        after.has_request(other_run, other_req),
        after.request(other_run, other_req) == before.request(other_run, other_req),
{
    let (i, record) = choose|i: int, record: RequestRecord|
        0 <= i <= before.requests@.len() && record.is_new(
            run_id,
            kind,
            after.next_request_seq as nat,
        ) && after.requests@ == #[trigger] before.requests@.insert(i, record);
    let k = choose|k: int| before.is_request(other_run, other_req, k);
    let moved = if k < i {
        k
    } else {
        k + 1
    };
    assert(after.requests@[moved] == before.requests@[k]);
    assert(after.is_request(other_run, other_req, moved));
    let m = choose|m: int| after.is_request(other_run, other_req, m);
    after.lemma_request_unique(other_run, other_req, moved, m);
}

/// The id of a request begins with its kind and counts the requests, so that no two requests of a kind
/// share one.
pub proof fn lemma_requests_have_own_ids(kind: Seq<char>, i: nat, j: nat)
    requires
        state::request_id(kind, i) == state::request_id(kind, j),
    ensures
        i == j,
        state::request_id(kind, i).len() >= kind.len() + 7,
        state::request_id(kind, i).take(kind.len() as int) == kind,
{
    reveal_strlit("-");
    text::lemma_padded_reads_back(i, 6);
    text::lemma_padded_reads_back(j, 6);
    let start = kind + "-"@;
    assert(state::request_id(kind, i).skip(start.len() as int) =~= text::dec_padded(i, 6));
    assert(state::request_id(kind, j).skip(start.len() as int) =~= text::dec_padded(j, 6));
    assert(state::request_id(kind, i).take(kind.len() as int) =~= kind);
}

/// A poll is answered with the request it asks for: with its status and whether it is ready, with its
/// error where it has one, and with a result just where one is asked for and there is one. A request
/// that is not there is missing, which is no error.
pub proof fn lemma_polls_tell_the_truth(
    state: NodeRuntimeState,
    instance_id: Seq<char>,
    request: PollRequestRequest,
    r: PollRequestResponse,
)
    requires
        poll_answer(state, instance_id, request, r),
    ensures
        r.ok,
        r.instance_id@ == instance_id,
        r.req_id@ == request.req_id@,
        r.run_id is Some && r.run_id->0@ == request.run_id@,
        !state.has_request(request.run_id@, request.req_id@) ==> r.status is Missing && !r.ready
            && r.result is None && r.message@ == "unknown request id"@,
        state.has_request(request.run_id@, request.req_id@) ==> {
            let record = state.request(request.run_id@, request.req_id@);
            &&& r.status == record.status
            &&& r.ready == record.ready
            &&& r.result is Some <==> request.include_result && record.result is Some
            &&& r.result is Some ==> protocol::is_stripped(r.result->0, record.result->0)
            &&& record.error is Some ==> r.message@ == record.error->0@
            &&& record.error is None ==> r.message@ == record.kind@ + " request is "@
                + record.status.name_spec()
        },
{
}

/// A chunk holds the items from its offset on, no more than the limit, and as many as there are.
pub proof fn lemma_chunk_items<T>(items: Seq<T>, offset: int, limit: int)
    requires
        0 <= offset,
        0 <= limit,
    ensures
        offset >= items.len() ==> chunk_of(items, offset, limit).len() == 0,
        offset < items.len() <= offset + limit ==> chunk_of(items, offset, limit).len()
            == items.len() - offset,
        offset + limit < items.len() ==> chunk_of(items, offset, limit).len() == limit,
        forall|k: int|
            0 <= k < chunk_of(items, offset, limit).len() ==> #[trigger] chunk_of(
                items,
                offset,
                limit,
            )[k] == items[offset + k],
{
}

/// A request for references of a finished put is answered with those references, in order, and there
/// is more just where the put has references behind them. The figures are those of the whole put.
pub proof fn lemma_refs_are_handed_out(
    state: NodeRuntimeState,
    instance_id: Seq<char>,
    request: BlobPutRefsChunkRequest,
    shown: Seq<char>,
    r: BlobPutRefsChunkResponse,
)
    requires
        refs_chunk_answer(state, instance_id, request, shown, r),
    ensures
        r.instance_id@ == instance_id,
        r.req_id@ == request.req_id@,
        r.run_id is Some && r.run_id->0@ == request.run_id@,
        request.limit == 0 ==> !r.ok,
        request.limit > 0 && !state.has_request(request.run_id@, request.req_id@) ==> r.ok
            && r.status is Missing && r.refs@.len() == 0 && !r.has_more,
        request.limit > 0 && state.has_request(request.run_id@, request.req_id@) ==> {
            let record = state.request(request.run_id@, request.req_id@);
            &&& r.status == record.status
            &&& !(record.status is Finished) ==> r.ok && r.refs@.len() == 0 && !r.has_more
            &&& record.status is Finished && record.result is Some && !(
            record.result->0 is BlobPut) ==> !r.ok && r.refs@.len() == 0
            &&& record.status is Finished && record.result is Some
                && record.result->0 is BlobPut ==> {
                let put = record.result->0->BlobPut_0;
                &&& r.ok
                &&& r.count == put.count && r.total_bytes == put.total_bytes && r.elapsed_ms
                    == put.elapsed_ms
                &&& r.has_more <==> request.offset + request.limit < put.refs@.len()
                &&& r.has_more ==> r.refs@.len() == request.limit
                &&& !r.has_more && request.offset <= put.refs@.len() ==> r.refs@.len()
                    == put.refs@.len() - request.offset
                &&& request.offset <= put.refs@.len() ==> r.offset == request.offset
                &&& forall|k: int|
                    0 <= k < r.refs@.len() ==> (#[trigger] r.refs@[k]).tree()
                        == put.refs@[request.offset + k].tree()
            }
        },
{
    let record = state.request(request.run_id@, request.req_id@);
    if request.limit > 0 && state.has_request(request.run_id@, request.req_id@)
        && record.status is Finished && record.result is Some && record.result->0 is BlobPut {
        let put = record.result->0->BlobPut_0;
        let all = native::trees(put.refs@);
        let part = native::trees(r.refs@);
        assert(part.len() == r.refs@.len());
        lemma_chunk_items(all, request.offset as int, request.limit as int);
        assert forall|k: int| 0 <= k < r.refs@.len() implies (#[trigger] r.refs@[k]).tree()
            == put.refs@[request.offset + k].tree() by {
            assert(part[k] == all[request.offset + k]);
        }
    }
}

/// A request for samples of a finished receiver is answered with both kinds of samples from the same
/// offset on, each kind with its own samples and their number, and there is more just where samples
/// of either kind are left.
pub proof fn lemma_samples_are_handed_out(
    state: NodeRuntimeState,
    instance_id: Seq<char>,
    request: ChannelReceiverSamplesChunkRequest,
    shown: Seq<char>,
    r: ChannelReceiverSamplesChunkResponse,
)
    requires
        samples_chunk_answer(state, instance_id, request, shown, r),
    ensures
        r.instance_id@ == instance_id,
        r.req_id@ == request.req_id@,
        r.run_id is Some && r.run_id->0@ == request.run_id@,
        r.offset == request.offset,
        request.limit == 0 ==> !r.ok,
        request.limit > 0 && !state.has_request(request.run_id@, request.req_id@) ==> r.ok
            && r.status is Missing && !r.has_more,
        request.limit > 0 && state.has_request(request.run_id@, request.req_id@) ==> {
            let record = state.request(request.run_id@, request.req_id@);
            &&& r.status == record.status
            &&& !(record.status is Finished) ==> r.ok && !r.has_more
                && r.delivery_latency_samples_ms@.len() == 0
                && r.materialize_latency_samples_ms@.len() == 0
            &&& record.status is Finished && record.result is Some && !(
            record.result->0 is ChannelReceiver) ==> !r.ok
            &&& record.status is Finished && record.result is Some
                && record.result->0 is ChannelReceiver ==> {
                let kept = record.result->0->ChannelReceiver_0;
                let d = kept.delivery_latency_samples_ms@;
                let m = kept.materialize_latency_samples_ms@;
                &&& r.ok
                &&& r.delivery_count == d.len() && r.materialize_count == m.len()
                &&& r.has_more <==> request.offset + request.limit < d.len() || request.offset
                    + request.limit < m.len()
                &&& is_piece(r.delivery_latency_samples_ms@, d, request.offset as int, request.limit as int)
                &&& is_piece(
                    r.materialize_latency_samples_ms@,
                    m,
                    request.offset as int,
                    request.limit as int,
                )
            }
        },
{
    let record = state.request(request.run_id@, request.req_id@);
    if request.limit > 0 && state.has_request(request.run_id@, request.req_id@)
        && record.status is Finished && record.result is Some
        && record.result->0 is ChannelReceiver {
        let kept = record.result->0->ChannelReceiver_0;
        lemma_chunk_items(
            kept.delivery_latency_samples_ms@,
            request.offset as int,
            request.limit as int,
        );
        lemma_chunk_items(
            kept.materialize_latency_samples_ms@,
            request.offset as int,
            request.limit as int,
        );
    }
}

/// Whether a piece holds the items of a list from an offset on, up to a limit or to the end.
pub open spec fn is_piece<T>(piece: Seq<T>, items: Seq<T>, offset: int, limit: int) -> bool {
    &&& offset + limit <= items.len() ==> piece.len() == limit
    &&& offset <= items.len() < offset + limit ==> piece.len() == items.len() - offset
    &&& items.len() < offset ==> piece.len() == 0
    &&& forall|k: int| 0 <= k < piece.len() ==> #[trigger] piece[k] == items[offset + k]
}

/// The requests of a run are listed in their order, each once, and no others.
pub proof fn lemma_requests_are_listed(a: Seq<RequestRecord>, b: Seq<RequestRecord>, run_id: Seq<char>)
    ensures
        summaries_of(a + b, run_id) == summaries_of(a, run_id) + summaries_of(b, run_id),
        a.len() == 1 && a[0].run_id@ != run_id ==> summaries_of(a, run_id).len() == 0,
        a.len() == 1 && a[0].run_id@ == run_id ==> {
            &&& summaries_of(a, run_id).len() == 1
            &&& summaries_of(a, run_id)[0].0 == a[0].req_id@
            &&& summaries_of(a, run_id)[0].1 == a[0].kind@
            &&& summaries_of(a, run_id)[0].2 == a[0].status
            &&& a[0].error is Some ==> summaries_of(a, run_id)[0].3 == a[0].error->0@
            &&& a[0].error is None ==> summaries_of(a, run_id)[0].3 == a[0].status.name_spec()
        },
    decreases b.len(),
{
    if a.len() == 1 {
        assert(summaries_of(a.drop_last(), run_id).len() == 0);
    }
    if b.len() == 0 {
        assert(a + b =~= a);
        assert(summaries_of(a, run_id) + summaries_of(b, run_id) =~= summaries_of(a, run_id));
    } else {
        lemma_requests_are_listed(a, b.drop_last(), run_id);
        assert((a + b).drop_last() =~= a + b.drop_last());
        assert(summaries_of(a + b, run_id) =~= summaries_of(a, run_id) + summaries_of(b, run_id));
    }
}

/// Each kind of request has a name of its own, and the words that a reader sees.
pub proof fn lemma_kinds_by_name(kind: RequestKind)
    ensures
        kind is BlobPut ==> kind.name_spec() == "blob-put"@ && kind.label_spec() == "blob put"@,
        kind is BlobGet ==> kind.name_spec() == "blob-get"@ && kind.label_spec() == "blob get"@,
        kind is PacedBlobGet ==> kind.name_spec() == "blob-get-paced"@ && kind.label_spec()
            == "paced blob get"@,
        kind is PreparedBlobGet ==> kind.name_spec() == "blob-get-prepared"@ && kind.label_spec()
            == "prepared blob get"@,
        kind is ChannelSend ==> kind.name_spec() == "channel-send"@ && kind.label_spec()
            == "channel send"@,
        kind is ChannelReceiver ==> kind.name_spec() == "channel-receiver"@ && kind.label_spec()
            == "channel receiver"@,
        kind is Experiment ==> kind.name_spec() == "experiment"@ && kind.label_spec()
            == "experiment"@,
{
}

/// A chunk that holds nothing says nothing: no count, no bytes, no time, and nothing to come.
pub proof fn lemma_empty_chunks(r: BlobPutRefsChunkResponse, offset: usize)
    requires
        empty_refs_chunk(r, offset),
    ensures
        r.count == 0 && r.total_bytes == 0 && r.elapsed_ms == (Real { bits: 0 }),
        r.offset == offset,
        r.refs@.len() == 0 && !r.has_more,
{
}

/// What is said of a request is its error, or else its kind and its status; and a request that is not
/// known is named with its run.
pub proof fn lemma_words_for_requests(record: RequestRecord, run_id: Seq<char>, req_id: Seq<char>)
    ensures
        record.error is Some ==> request_message(record) == record.error->0@,
        record.error is None ==> request_message(record) == record.kind@ + " request is "@
            + record.status.name_spec(),
        unknown_request(run_id, req_id) == "unknown req_id="@ + req_id + " for run_id="@ + run_id,
{
}

/// The id of a request is its kind, a dash and its number with six digits or more.
pub proof fn lemma_request_ids(kind: Seq<char>, seq: nat)
    ensures
        state::request_id(kind, seq) == kind + "-"@ + text::dec_padded(seq, 6),
        text::dec(seq).len() <= 6 ==> state::request_id(kind, seq).len() == kind.len() + 7,
{
    reveal_strlit("-");
    text::lemma_padded_width(seq, 6);
}

} // verus!
