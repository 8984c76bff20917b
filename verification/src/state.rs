//! What a node knows about its current run and about the requests it has accepted.
//!
//! Stores and channel ends live outside the library. The state refers to each by a number that its
//! owner hands out.
use crate::binary64::Real;
use crate::config;
use crate::config::Entry;
use crate::native::Json;
use crate::protocol::{
    Artifact, BeginExprRequest, ExprActionResponse, MetricRecord, RequestResult, RequestStatus,
    ResetExprRequest, ResourceSummary,
};
use crate::text;
use vstd::prelude::*;
use vstd::string::*;

verus! {

#[derive(Debug)]
pub struct BlobStoreResource {
    pub backend: String,
    pub root_dir: Option<String>,
    pub handle: u64,
}

#[derive(Debug)]
pub struct MetadataStoreResource {
    pub backend: String,
    pub details: Vec<Entry>,
    pub handle: u64,
}

#[derive(Debug)]
pub struct SenderResource {
    pub channel_id: String,
    pub handle: u64,
    pub blob_store: BlobStoreResource,
    pub metadata_store: MetadataStoreResource,
}

#[derive(Debug)]
pub struct ReceiverResource {
    pub channel_id: String,
    pub consumer_id: String,
    pub handle: u64,
    pub blob_store: BlobStoreResource,
    pub metadata_store: MetadataStoreResource,
}

/// References that arrive in chunks for a paced get.
#[derive(Debug)]
pub struct StagedPacedBlobGet {
    pub plan_id: String,
    pub expected_ref_count: usize,
    pub target_ops_per_s: Real,
    pub max_in_flight: usize,
    pub refs: Vec<Json>,
    pub next_chunk_index: u64,
}

/// A paced get whose references are complete and parsed. The parsed references are kept outside,
/// under `refs_handle`.
#[derive(Debug)]
pub struct PreparedPacedBlobGet {
    pub plan_id: String,
    pub target_ops_per_s: Real,
    pub max_in_flight: usize,
    pub refs_handle: u64,
    pub ref_count: usize,
    pub materialized_dir: String,
}

/// The current run of a node.
#[derive(Debug)]
pub struct ExprState {
    pub run_id: String,
    pub run_dir: String,
    pub phase: String,
    pub blob_store: Option<BlobStoreResource>,
    pub metadata_store: Option<MetadataStoreResource>,
    pub sender: Option<SenderResource>,
    pub receiver: Option<ReceiverResource>,
    pub paced_get_staging: Vec<StagedPacedBlobGet>,
    pub paced_get_plans: Vec<PreparedPacedBlobGet>,
    pub artifacts: Vec<Artifact>,
    pub metrics: Vec<MetricRecord>,
}

/// A request that the node has accepted.
#[derive(Debug)]
pub struct RequestRecord {
    pub run_id: String,
    pub req_id: String,
    pub kind: String,
    pub seq: u64,
    pub status: RequestStatus,
    pub ready: bool,
    pub cancelled: bool,
    pub result: Option<RequestResult>,
    pub error: Option<String>,
}

/// The state of a node. The requests stand in the order of their ids.
#[derive(Debug)]
pub struct NodeRuntimeState {
    pub current: Option<ExprState>,
    pub requests: Vec<RequestRecord>,
    pub next_request_seq: u64,
    pub generation: u64,
}

// ---------------------------------------------------------------------------------------------
// Invariants
// ---------------------------------------------------------------------------------------------
/// The id of the request with sequence number `seq`.
pub open spec fn request_id(kind: Seq<char>, seq: nat) -> Seq<char> {
    kind + "-"@ + text::dec_padded(seq, 6)
}

impl StagedPacedBlobGet {
    /// No more references than were announced, and at least one for every chunk.
    pub open spec fn wf(self) -> bool {
        &&& self.expected_ref_count > 0
        &&& self.refs@.len() <= self.expected_ref_count
        &&& self.next_chunk_index <= self.refs@.len()
    }
}

impl ExprState {
    pub open spec fn wf(self) -> bool {
        &&& forall|i: int, j: int|
            0 <= i < j < self.artifacts@.len() ==> text::lex_before(
                (#[trigger] self.artifacts@[i]).key@,
                (#[trigger] self.artifacts@[j]).key@,
            )
        &&& forall|i: int, j: int|
            0 <= i < j < self.metrics@.len() ==> (#[trigger] self.metrics@[i]).key@ != (
            #[trigger] self.metrics@[j]).key@
        &&& forall|i: int, j: int|
            0 <= i < j < self.paced_get_staging@.len() ==> (
            #[trigger] self.paced_get_staging@[i]).plan_id@ != (
            #[trigger] self.paced_get_staging@[j]).plan_id@
        &&& forall|i: int|
            0 <= i < self.paced_get_staging@.len() ==> (#[trigger] self.paced_get_staging@[i]).wf()
        &&& forall|i: int, j: int|
            0 <= i < j < self.paced_get_plans@.len() ==> (
            #[trigger] self.paced_get_plans@[i]).plan_id@ != (
            #[trigger] self.paced_get_plans@[j]).plan_id@
    }
}

impl NodeRuntimeState {
    /// Requests are in the order of their ids, every id carries the sequence number of its request,
    /// and no number beyond the last one given is in use.
    pub open spec fn wf(self) -> bool {
        &&& forall|i: int, j: int|
            0 <= i < j < self.requests@.len() ==> text::lex_before(
                (#[trigger] self.requests@[i]).req_id@,
                (#[trigger] self.requests@[j]).req_id@,
            )
        &&& forall|i: int|
            0 <= i < self.requests@.len() ==> {
                &&& (#[trigger] self.requests@[i]).req_id@ == request_id(
                    self.requests@[i].kind@,
                    self.requests@[i].seq as nat,
                )
                &&& 1 <= self.requests@[i].seq <= self.next_request_seq
            }
        &&& self.current matches Some(e) ==> e.wf()
    }

    /// The counters have not reached the end of their range.
    pub open spec fn can_advance(self) -> bool {
        self.next_request_seq < u64::MAX && self.generation < u64::MAX
    }

    pub fn may_advance(&self) -> (r: bool)
        ensures
            r == self.can_advance(),
    {
        self.next_request_seq < u64::MAX && self.generation < u64::MAX
    }

    /// Record `i` is the request `req_id` of run `run_id`.
    pub open spec fn is_request(self, run_id: Seq<char>, req_id: Seq<char>, i: int) -> bool {
        &&& 0 <= i < self.requests@.len()
        &&& self.requests@[i].run_id@ == run_id
        &&& self.requests@[i].req_id@ == req_id
    }

    pub open spec fn has_request(self, run_id: Seq<char>, req_id: Seq<char>) -> bool {
        exists|i: int| self.is_request(run_id, req_id, i)
    }

    /// The record of a request.
    pub open spec fn request(self, run_id: Seq<char>, req_id: Seq<char>) -> RequestRecord {
        self.requests@[choose|i: int| self.is_request(run_id, req_id, i)]
    }

    /// At most one record answers to a request id.
    pub proof fn lemma_request_unique(self, run_id: Seq<char>, req_id: Seq<char>, i: int, j: int)
        requires
            self.wf(),
            self.is_request(run_id, req_id, i),
            self.is_request(run_id, req_id, j),
        ensures
            i == j,
    {
        text::lemma_lex_irreflexive(req_id);
    }

    pub fn position(&self, run_id: &str, req_id: &str) -> (r: Option<usize>)
        ensures
            match r {
                Some(i) => self.is_request(run_id@, req_id@, i as int),
                None => !self.has_request(run_id@, req_id@),
            },
    {
        let mut i: usize = 0;
        while i < self.requests.len()
            invariant
                i <= self.requests@.len(),
                forall|j: int| 0 <= j < i ==> !#[trigger] self.is_request(run_id@, req_id@, j),
            decreases self.requests.len() - i,
        {
            if text::same(self.requests[i].run_id.as_str(), run_id) && text::same(
                self.requests[i].req_id.as_str(),
                req_id,
            ) {
                return Some(i);
            }
            i = i + 1;
        }
        None
    }

    pub fn new() -> (r: NodeRuntimeState)
        ensures
            r.wf(),
            r.current is None,
            r.requests@.len() == 0,
            r.next_request_seq == 0,
            r.generation == 0,
    {
        NodeRuntimeState {
            current: None,
            requests: Vec::new(),
            next_request_seq: 0,
            generation: 0,
        }
    }

    /// The phase of the current run, or `idle`.
    pub open spec fn status_spec(self) -> Seq<char> {
        match self.current {
            Some(e) => e.phase@,
            None => "idle"@,
        }
    }

    pub fn node_status(&self) -> (r: String)
        ensures
            r@ == self.status_spec(),
    {
        match &self.current {
            Some(e) => e.phase.clone(),
            None => "idle".to_owned(),
        }
    }

    pub open spec fn current_run_id(self) -> Option<Seq<char>> {
        match self.current {
            Some(e) => Some(e.run_id@),
            None => None,
        }
    }

    /// The run that the node is in.
    pub fn run_id(&self) -> (r: Option<String>)
        ensures
            text::option_view(r) == self.current_run_id(),
    {
        match &self.current {
            Some(e) => Some(e.run_id.clone()),
            None => None,
        }
    }
}

/// Between two states of a run only the phase may have moved, to `phase` if the run is `run_id`.
pub open spec fn phase_moved(
    before: Option<ExprState>,
    after: Option<ExprState>,
    run_id: Seq<char>,
    phase: Seq<char>,
) -> bool {
    match (before, after) {
        (None, None) => true,
        (Some(a), Some(b)) => {
            &&& b == (ExprState { phase: b.phase, ..a })
            &&& b.phase@ == (if a.run_id@ == run_id {
                phase
            } else {
                a.phase@
            })
        },
        _ => false,
    }
}

impl NodeRuntimeState {
    pub(crate) fn move_phase(&mut self, run_id: &str, phase: String)
        ensures
            phase_moved(old(self).current, final(self).current, run_id@, phase@),
            final(self).requests == old(self).requests,
            final(self).next_request_seq == old(self).next_request_seq,
            final(self).generation == old(self).generation,
    {
        if let Some(current) = &mut self.current {
            if text::same(current.run_id.as_str(), run_id) {
                current.phase = phase;
            }
        }
    }
}

// ---------------------------------------------------------------------------------------------
// Runs
// ---------------------------------------------------------------------------------------------
/// What beginning or resetting a run comes to. `Replace` hands out the run that has to be closed
/// first; the node is then without a run until the next one is installed.
#[derive(Debug)]
pub enum RunStep {
    Done,
    Refused(String),
    Replace(Option<ExprState>),
}

/// Whether beginning a run is refused, and why.
pub open spec fn begin_refusal(state: NodeRuntimeState, request: BeginExprRequest) -> Option<
    Seq<char>,
> {
    if text::is_blank_spec(request.run_id@) {
        Some("run_id must not be empty"@)
    } else if state.current is Some && state.current->0.run_id@ != request.run_id@
        && !request.force_reset {
        Some(
            "node is running run_id="@ + state.current->0.run_id@
                + "; begin_expr requested run_id="@ + request.run_id@,
        )
    } else {
        None
    }
}

/// The run is already going on and stays as it is.
pub open spec fn begins_nothing(state: NodeRuntimeState, request: BeginExprRequest) -> bool {
    state.current is Some && state.current->0.run_id@ == request.run_id@ && !request.force_reset
}

impl NodeRuntimeState {
    /// Starts to begin a run.
    pub fn begin_expr(&mut self, request: &BeginExprRequest) -> (r: RunStep)
        requires
            old(self).wf(),
        ensures
            final(self).wf(),
            final(self).requests == old(self).requests,
            final(self).next_request_seq == old(self).next_request_seq,
            final(self).generation == old(self).generation,
            match r {
                RunStep::Refused(m) => begin_refusal(*old(self), *request) == Some(m@)
                    && final(self).current == old(self).current,
                RunStep::Done => begin_refusal(*old(self), *request) is None && begins_nothing(
                    *old(self),
                    *request,
                ) && final(self).current == old(self).current,
                RunStep::Replace(run) => {
                    &&& begin_refusal(*old(self), *request) is None
                    &&& !begins_nothing(*old(self), *request)
                    &&& run == old(self).current
                    &&& final(self).current is None
                },
            },
    {
        if text::is_blank(request.run_id.as_str()) {
            return RunStep::Refused("run_id must not be empty".to_owned());
        }
        if let Some(current) = &self.current {
            let same = text::same(current.run_id.as_str(), request.run_id.as_str());
            if same && !request.force_reset {
                return RunStep::Done;
            }
            if !same && !request.force_reset {
                return RunStep::Refused(
                    text::cat4(
                        "node is running run_id=",
                        current.run_id.as_str(),
                        "; begin_expr requested run_id=",
                        request.run_id.as_str(),
                    ),
                );
            }
        }
        RunStep::Replace(self.current.take())
    }

    /// Installs a fresh run.
    pub fn install_expr(&mut self, run_id: String, run_dir: String)
        requires
            old(self).wf(),
            old(self).can_advance(),
        ensures
            final(self).wf(),
            final(self).requests == old(self).requests,
            final(self).next_request_seq == old(self).next_request_seq,
            final(self).generation == old(self).generation + 1,
            final(self).current matches Some(e) && e.is_fresh(run_id, run_dir),
    {
        self.current = Some(
            ExprState {
                run_id,
                run_dir,
                phase: "started".to_owned(),
                blob_store: None,
                metadata_store: None,
                sender: None,
                receiver: None,
                paced_get_staging: Vec::new(),
                paced_get_plans: Vec::new(),
                artifacts: Vec::new(),
                metrics: Vec::new(),
            },
        );
        self.generation = self.generation + 1;
    }

    /// Starts to reset the node.
    pub fn reset_expr(&mut self, request: &ResetExprRequest) -> (r: RunStep)
        requires
            old(self).wf(),
        ensures
            final(self).wf(),
            final(self).requests == old(self).requests,
            final(self).next_request_seq == old(self).next_request_seq,
            final(self).generation == old(self).generation,
            match r {
                RunStep::Done => old(self).current is None && final(self).current is None,
                RunStep::Refused(m) => {
                    &&& reset_refused(*old(self), *request)
                    &&& m@ == "node is running run_id="@ + old(self).current->0.run_id@
                        + "; refused reset for run_id="@ + request.run_id@
                    &&& final(self).current == old(self).current
                },
                RunStep::Replace(run) => {
                    &&& old(self).current is Some
                    &&& !reset_refused(*old(self), *request)
                    &&& run == old(self).current
                    &&& final(self).current is None
                },
            },
    {
        match &self.current {
            None => {
                return RunStep::Done;
            },
            Some(current) => {
                if !request.force_reset && !text::same(
                    current.run_id.as_str(),
                    request.run_id.as_str(),
                ) {
                    return RunStep::Refused(
                        text::cat4(
                            "node is running run_id=",
                            current.run_id.as_str(),
                            "; refused reset for run_id=",
                            request.run_id.as_str(),
                        ),
                    );
                }
            },
        }
        RunStep::Replace(self.current.take())
    }

    /// Records that the run that was reset is closed.
    pub fn finish_reset(&mut self)
        requires
            old(self).wf(),
            old(self).can_advance(),
        ensures
            final(self).wf(),
            final(self).generation == old(self).generation + 1,
            final(self).current == old(self).current,
            final(self).requests == old(self).requests,
            final(self).next_request_seq == old(self).next_request_seq,
    {
        self.generation = self.generation + 1;
    }
}

/// A reset of another run than the current one needs force.
pub open spec fn reset_refused(state: NodeRuntimeState, request: ResetExprRequest) -> bool {
    state.current matches Some(e) && e.run_id@ != request.run_id@ && !request.force_reset
}

impl ExprState {
    /// A run in which nothing has happened yet.
    pub open spec fn is_fresh(self, run_id: String, run_dir: String) -> bool {
        &&& self.run_id == run_id
        &&& self.run_dir == run_dir
        &&& self.phase@ == "started"@
        &&& self.blob_store is None
        &&& self.metadata_store is None
        &&& self.sender is None
        &&& self.receiver is None
        &&& self.paced_get_staging@.len() == 0
        &&& self.paced_get_plans@.len() == 0
        &&& self.artifacts@.len() == 0
        &&& self.metrics@.len() == 0
    }
}

/// The errors of a close, each if it came, joined.
pub open spec fn collected_errors(errors: Seq<Seq<char>>) -> Option<Seq<char>> {
    if errors.len() == 0 {
        None
    } else {
        Some(text::join_spec(errors, "; "@))
    }
}

pub fn join_errors(errors: &Vec<String>) -> (r: Result<(), String>)
    ensures
        config::verdict(r) == collected_errors(text::views(errors@)),
{
    if errors.len() == 0 {
        Ok(())
    } else {
        Err(text::join(errors, "; "))
    }
}

pub open spec fn with_error(
    errors: Seq<Seq<char>>,
    prefix: Seq<char>,
    error: Option<Seq<char>>,
) -> Seq<Seq<char>> {
    match error {
        Some(e) => errors.push(prefix + e),
        None => errors,
    }
}

fn add_error(errors: &mut Vec<String>, prefix: &str, error: &Option<String>)
    ensures
        text::views(final(errors)@) == with_error(
            text::views(old(errors)@),
            prefix@,
            text::option_view(*error),
        ),
{
    if let Some(e) = error {
        errors.push(text::cat2(prefix, e.as_str()));
        assert(text::views(errors@) =~= text::views(old(errors)@).push(prefix@ + e@));
    }
}

fn no_errors() -> (r: Vec<String>)
    ensures
        text::views(r@) == Seq::<Seq<char>>::empty(),
{
    let out: Vec<String> = Vec::new();
    assert(text::views(out@) =~= Seq::<Seq<char>>::empty());
    out
}

/// What closing a run comes to. Each argument is the error of one part, if it failed: the
/// receiver's blob store, the sender's, the run's own, and removing the run directory.
pub open spec fn close_errors(
    run_dir: Seq<char>,
    receiver: Option<Seq<char>>,
    sender: Option<Seq<char>>,
    blob_store: Option<Seq<char>>,
    directory: Option<Seq<char>>,
) -> Seq<Seq<char>> {
    let s = Seq::<Seq<char>>::empty();
    let s = with_error(s, "failed to close receiver blob store: "@, receiver);
    let s = with_error(s, "failed to close sender blob store: "@, sender);
    let s = with_error(s, ""@, blob_store);
    with_error(s, "failed to remove expr run dir "@ + run_dir + ": "@, directory)
}

pub fn close_outcome(
    run_dir: &str,
    receiver: &Option<String>,
    sender: &Option<String>,
    blob_store: &Option<String>,
    directory: &Option<String>,
) -> (r: Result<(), String>)
    ensures
        config::verdict(r) == collected_errors(
            close_errors(
                run_dir@,
                text::option_view(*receiver),
                text::option_view(*sender),
                text::option_view(*blob_store),
                text::option_view(*directory),
            ),
        ),
{
    let mut errors = no_errors();
    add_error(&mut errors, "failed to close receiver blob store: ", receiver);
    add_error(&mut errors, "failed to close sender blob store: ", sender);
    add_error(&mut errors, "", blob_store);
    add_error(
        &mut errors,
        text::cat3("failed to remove expr run dir ", run_dir, ": ").as_str(),
        directory,
    );
    join_errors(&errors)
}

/// What closing a blob store and removing its directory comes to.
pub fn close_store_outcome(
    run_id: &str,
    root_dir: &str,
    close: &Option<String>,
    directory: &Option<String>,
) -> (r: Result<(), String>)
    ensures
        config::verdict(r) == collected_errors(
            with_error(
                with_error(
                    Seq::empty(),
                    "failed to close blob store for run_id="@ + run_id@ + ": "@,
                    text::option_view(*close),
                ),
                "failed to remove blob store resource dir "@ + root_dir@ + ": "@,
                text::option_view(*directory),
            ),
        ),
{
    let mut errors = no_errors();
    add_error(
        &mut errors,
        text::cat3("failed to close blob store for run_id=", run_id, ": ").as_str(),
        close,
    );
    add_error(
        &mut errors,
        text::cat3("failed to remove blob store resource dir ", root_dir, ": ").as_str(),
        directory,
    );
    join_errors(&errors)
}

// ---------------------------------------------------------------------------------------------
// The current run
// ---------------------------------------------------------------------------------------------
/// Why a request for `run_id` cannot be served in the current state.
pub open spec fn current_problem(state: NodeRuntimeState, run_id: Seq<char>) -> Option<Seq<char>> {
    match state.current {
        None => Some("node has no active expr"@),
        Some(e) => if e.run_id@ != run_id {
            Some("node is running run_id="@ + e.run_id@ + "; request used run_id="@ + run_id)
        } else {
            None
        },
    }
}

/// The current run, where it is the one asked for.
pub fn current_expr<'a>(runtime: &'a NodeRuntimeState, run_id: &str) -> (r: Result<
    &'a ExprState,
    String,
>)
    ensures
        match r {
            Ok(e) => current_problem(*runtime, run_id@) is None && runtime.current == Some(*e),
            Err(m) => current_problem(*runtime, run_id@) == Some(m@),
        },
{
    match &runtime.current {
        None => Err("node has no active expr".to_owned()),
        Some(e) => {
            if text::same(e.run_id.as_str(), run_id) {
                Ok(e)
            } else {
                Err(
                    text::cat4(
                        "node is running run_id=",
                        e.run_id.as_str(),
                        "; request used run_id=",
                        run_id,
                    ),
                )
            }
        },
    }
}

/// A node serves one run at a time: its own, and no other.
pub proof fn lemma_one_run_at_a_time(state: NodeRuntimeState, run_id: Seq<char>, other: Seq<char>)
    requires
        current_problem(state, run_id) is None,
    ensures
        current_problem(state, other) is None <==> other == run_id,
{
}

/// A fresh run is served from the start; a node without a run serves none.
pub proof fn lemma_fresh_run_is_served(
    state: NodeRuntimeState,
    run_id: String,
    run_dir: String,
    other: Seq<char>,
)
    ensures
        (state.current matches Some(e) && e.is_fresh(run_id, run_dir)) ==> current_problem(
            state,
            run_id@,
        ) is None,
        state.current is None ==> current_problem(state, other) == Some("node has no active expr"@),
{
}

/// Beginning a run that is going on leaves it alone; with force it never is refused.
pub proof fn lemma_begin_again(state: NodeRuntimeState, request: BeginExprRequest)
    requires
        !text::is_blank_spec(request.run_id@),
    ensures
        current_problem(state, request.run_id@) is None && !request.force_reset ==> begin_refusal(
            state,
            request,
        ) is None && begins_nothing(state, request),
        request.force_reset ==> begin_refusal(state, request) is None && !begins_nothing(
            state,
            request,
        ),
{
}

/// A reset of the run that is going on, or one with force, is never refused.
pub proof fn lemma_reset_is_served(state: NodeRuntimeState, request: ResetExprRequest)
    requires
        request.force_reset || current_problem(state, request.run_id@) is None,
    ensures
        !reset_refused(state, request),
{
}

pub fn response_to_result(response: ExprActionResponse) -> (r: Result<(), String>)
    ensures
        config::verdict(r) == (if response.ok {
            None
        } else {
            Some(response.message@)
        }),
{
    if response.ok {
        Ok(())
    } else {
        Err(response.message)
    }
}

impl NodeRuntimeState {
    /// The answer to an action.
    pub fn action_response(&self, instance_id: &str, result: Result<(), String>) -> (r:
        ExprActionResponse)
        ensures
            r.ok == (result is Ok),
            r.instance_id@ == instance_id@,
            text::option_view(r.run_id) == self.current_run_id(),
            r.phase@ == self.status_spec(),
            r.generation == self.generation,
            r.message@ == (match result {
                Ok(_) => "ok"@,
                Err(m) => m@,
            }),
    {
        let (ok, message) = match result {
            Ok(_) => (true, "ok".to_owned()),
            Err(m) => (false, m),
        };
        ExprActionResponse {
            ok,
            instance_id: instance_id.to_owned(),
            run_id: self.run_id(),
            phase: self.node_status(),
            generation: self.generation,
            message,
        }
    }
}

/// The text of a store or channel end in a summary: of the run's own resource, else of the
/// sender's, else of the receiver's.
pub open spec fn first_of(
    own: Option<Seq<char>>,
    sender: Option<Seq<char>>,
    receiver: Option<Seq<char>>,
) -> Option<Seq<char>> {
    match own {
        Some(s) => Some(s),
        None => match sender {
            Some(s) => Some("sender:"@ + s),
            None => match receiver {
                Some(s) => Some("receiver:"@ + s),
                None => None,
            },
        },
    }
}

impl BlobStoreResource {
    pub open spec fn label(self) -> Seq<char> {
        match self.root_dir {
            Some(root) => self.backend@ + ":"@ + root@,
            None => self.backend@,
        }
    }
}

impl ExprState {
    pub open spec fn blob_store_text(self) -> Option<Seq<char>> {
        first_of(
            match self.blob_store {
                Some(b) => Some(b.label()),
                None => None,
            },
            match self.sender {
                Some(s) => Some(s.blob_store.backend@),
                None => None,
            },
            match self.receiver {
                Some(s) => Some(s.blob_store.backend@),
                None => None,
            },
        )
    }

    pub open spec fn metadata_store_text(self) -> Option<Seq<char>> {
        first_of(
            match self.metadata_store {
                Some(m) => Some(m.backend@),
                None => None,
            },
            match self.sender {
                Some(s) => Some(s.metadata_store.backend@),
                None => None,
            },
            match self.receiver {
                Some(s) => Some(s.metadata_store.backend@),
                None => None,
            },
        )
    }

    pub fn resource_summary(&self) -> (r: ResourceSummary)
        ensures
            text::option_view(r.blob_store) == self.blob_store_text(),
            text::option_view(r.metadata_store) == self.metadata_store_text(),
            text::option_view(r.sender) == (match self.sender {
                Some(s) => Some(s.channel_id@),
                None => None,
            }),
            text::option_view(r.receiver) == (match self.receiver {
                Some(s) => Some(s.channel_id@ + ":"@ + s.consumer_id@),
                None => None,
            }),
    {
        let blob_store = match &self.blob_store {
            Some(b) => match &b.root_dir {
                Some(root) => Some(text::cat3(b.backend.as_str(), ":", root.as_str())),
                None => Some(b.backend.clone()),
            },
            None => match &self.sender {
                Some(s) => Some(text::cat2("sender:", s.blob_store.backend.as_str())),
                None => match &self.receiver {
                    Some(s) => Some(text::cat2("receiver:", s.blob_store.backend.as_str())),
                    None => None,
                },
            },
        };
        let metadata_store = match &self.metadata_store {
            Some(m) => Some(m.backend.clone()),
            None => match &self.sender {
                Some(s) => Some(text::cat2("sender:", s.metadata_store.backend.as_str())),
                None => match &self.receiver {
                    Some(s) => Some(text::cat2("receiver:", s.metadata_store.backend.as_str())),
                    None => None,
                },
            },
        };
        let sender = match &self.sender {
            Some(s) => Some(s.channel_id.clone()),
            None => None,
        };
        let receiver = match &self.receiver {
            Some(s) => Some(text::cat3(s.channel_id.as_str(), ":", s.consumer_id.as_str())),
            None => None,
        };
        ResourceSummary { blob_store, metadata_store, sender, receiver }
    }
}

// ---------------------------------------------------------------------------------------------
// Artifacts and metrics
// ---------------------------------------------------------------------------------------------
/// The artifacts with `a` among them, in the order of their keys; one with the same key gives way.
pub open spec fn with_artifact(s: Seq<Artifact>, a: Artifact) -> Seq<Artifact>
    decreases s.len(),
{
    if s.len() == 0 {
        seq![a]
    } else if s[0].key@ == a.key@ {
        s.update(0, a)
    } else if text::lex_before(a.key@, s[0].key@) {
        seq![a] + s
    } else {
        seq![s[0]] + with_artifact(s.drop_first(), a)
    }
}

/// The metrics without the one under `key`.
pub open spec fn without_metric(s: Seq<MetricRecord>, key: Seq<char>) -> Seq<MetricRecord>
    decreases s.len(),
{
    if s.len() == 0 {
        s
    } else {
        let init = without_metric(s.drop_last(), key);
        if s.last().key@ == key {
            init
        } else {
            init.push(s.last())
        }
    }
}

pub open spec fn keys_ascend(s: Seq<Artifact>) -> bool {
    forall|i: int, j: int|
        0 <= i < j < s.len() ==> text::lex_before((#[trigger] s[i]).key@, (#[trigger] s[j]).key@)
}

proof fn lemma_with_artifact(s: Seq<Artifact>, a: Artifact, i: int)
    requires
        0 <= i <= s.len(),
        keys_ascend(s),
        forall|j: int| 0 <= j < i ==> text::lex_before((#[trigger] s[j]).key@, a.key@),
        i < s.len() ==> !text::lex_before(s[i].key@, a.key@),
    ensures
        with_artifact(s, a) == (if i < s.len() && s[i].key@ == a.key@ {
            s.update(i, a)
        } else {
            s.insert(i, a)
        }),
        keys_ascend(with_artifact(s, a)),
    decreases s.len(),
{
    let out = if i < s.len() && s[i].key@ == a.key@ {
        s.update(i, a)
    } else {
        s.insert(i, a)
    };
    if i < s.len() {
        text::lemma_lex_total(s[i].key@, a.key@);
    }
    assert forall|x: int, y: int| 0 <= x < y < out.len() implies text::lex_before(
        (#[trigger] out[x]).key@,
        (#[trigger] out[y]).key@,
    ) by {
        if i < s.len() && s[i].key@ == a.key@ {
        } else if x == i {
            if y - 1 > i {
                text::lemma_lex_transitive(a.key@, s[i].key@, s[y - 1].key@);
            }
        } else if y == i {
        } else if x < i && y > i {
            assert(text::lex_before(s[x].key@, s[y - 1].key@));
        }
    }
    if s.len() == 0 {
        assert(out =~= seq![a]);
    } else if i == 0 {
        assert(out =~= with_artifact(s, a));
    } else {
        text::lemma_lex_irreflexive(a.key@);
        assert(text::lex_before(s[0].key@, a.key@));
        if text::lex_before(a.key@, s[0].key@) {
            text::lemma_lex_transitive(a.key@, s[0].key@, a.key@);
        }
        let rest = s.drop_first();
        lemma_with_artifact(rest, a, i - 1);
        assert(out =~= seq![s[0]] + with_artifact(rest, a));
    }
}

proof fn lemma_without_metric(s: Seq<MetricRecord>, key: Seq<char>)
    ensures
        without_metric(s, key).len() <= s.len(),
        forall|i: int|
            0 <= i < without_metric(s, key).len() ==> s.contains(
                #[trigger] without_metric(s, key)[i],
            ) && without_metric(s, key)[i].key@ != key,
    decreases s.len(),
{
    if s.len() > 0 {
        let init = s.drop_last();
        lemma_without_metric(init, key);
        let out = without_metric(s, key);
        assert forall|i: int| 0 <= i < out.len() implies s.contains(#[trigger] out[i])
            && out[i].key@ != key by {
            if i < without_metric(init, key).len() {
                assert(out[i] == without_metric(init, key)[i]);
                let k = choose|k: int| 0 <= k < init.len() && init[k] == out[i];
                assert(s[k] == out[i]);
            } else {
                assert(out[i] == s[s.len() - 1]);
            }
        }
    }
}

pub open spec fn metric_keys_differ(s: Seq<MetricRecord>) -> bool {
    forall|i: int, j: int|
        0 <= i < j < s.len() ==> (#[trigger] s[i]).key@ != (#[trigger] s[j]).key@
}

proof fn lemma_without_metric_differ(s: Seq<MetricRecord>, key: Seq<char>)
    requires
        metric_keys_differ(s),
    ensures
        metric_keys_differ(without_metric(s, key)),
    decreases s.len(),
{
    if s.len() > 0 {
        let init = s.drop_last();
        lemma_without_metric_differ(init, key);
        lemma_without_metric(init, key);
        let before = without_metric(init, key);
        let out = without_metric(s, key);
        assert forall|i: int, j: int| 0 <= i < j < out.len() implies (#[trigger] out[i]).key@ != (
        #[trigger] out[j]).key@ by {
            if j < before.len() {
                assert(out[i] == before[i] && out[j] == before[j]);
            } else {
                assert(out[i] == before[i]);
                assert(out[j] == s[s.len() - 1]);
                let k = choose|k: int| 0 <= k < init.len() && init[k] == before[i];
                assert(s[k] == before[i]);
            }
        }
    }
}

impl ExprState {
    /// Keeps an artifact under its key.
    pub fn put_artifact(&mut self, key: &str, kind: &str, value: Json)
        requires
            old(self).wf(),
        ensures
            final(self).wf(),
            *final(self) == (ExprState { artifacts: final(self).artifacts, ..*old(self) }),
            exists|a: Artifact|
                a.key@ == key@ && a.kind@ == kind@ && a.value == value && final(self).artifacts@
                    == #[trigger] with_artifact(old(self).artifacts@, a),
    {
        let a = Artifact { key: key.to_owned(), kind: kind.to_owned(), value };
        let mut i: usize = 0;
        while i < self.artifacts.len() && text::text_before(self.artifacts[i].key.as_str(), key)
            invariant
                i <= self.artifacts@.len(),
                *self == *old(self),
                forall|j: int|
                    0 <= j < i ==> text::lex_before((#[trigger] self.artifacts@[j]).key@, key@),
            decreases self.artifacts.len() - i,
        {
            i = i + 1;
        }
        let ghost before = self.artifacts@;
        let ghost kept = a;
        proof {
            lemma_with_artifact(before, a, i as int);
        }
        if i < self.artifacts.len() && text::same(self.artifacts[i].key.as_str(), key) {
            self.artifacts.set(i, a);
        } else {
            self.artifacts.insert(i, a);
        }
        assert(self.artifacts@ == with_artifact(before, kept));
    }

    /// Keeps a metric under its key, as the latest.
    pub fn put_metric(&mut self, key: &str, value: Real, unit: &str)
        requires
            old(self).wf(),
        ensures
            final(self).wf(),
            *final(self) == (ExprState { metrics: final(self).metrics, ..*old(self) }),
            exists|m: MetricRecord|
                m.key@ == key@ && m.value == value && m.unit@ == unit@ && final(self).metrics@
                    == #[trigger] without_metric(old(self).metrics@, key@).push(m),
    {
        let mut kept: Vec<MetricRecord> = Vec::new();
        let mut i: usize = 0;
        assert(self.metrics@.take(0) =~= Seq::<MetricRecord>::empty());
        while i < self.metrics.len()
            invariant
                i <= self.metrics@.len(),
                *self == *old(self),
                kept@ == without_metric(self.metrics@.take(i as int), key@),
            decreases self.metrics.len() - i,
        {
            assert(self.metrics@.take(i + 1).drop_last() =~= self.metrics@.take(i as int));
            if !text::same(self.metrics[i].key.as_str(), key) {
                kept.push(self.metrics[i].clone());
            }
            i = i + 1;
        }
        assert(self.metrics@.take(self.metrics@.len() as int) =~= self.metrics@);
        let ghost rest = kept@;
        proof {
            lemma_without_metric(self.metrics@, key@);
            lemma_without_metric_differ(self.metrics@, key@);
        }
        let m = MetricRecord { key: key.to_owned(), value, unit: unit.to_owned() };
        let ghost added = m;
        kept.push(m);
        assert(kept@ == rest.push(added));
        self.metrics = kept;
        assert(metric_keys_differ(self.metrics@));
    }

    /// A copy of the artifacts, in the order of their keys.
    pub fn artifact_list(&self) -> (r: Vec<Artifact>)
        ensures
            r@.len() == self.artifacts@.len(),
            forall|i: int| 0 <= i < r@.len() ==> (#[trigger] r@[i]).same(self.artifacts@[i]),
    {
        let mut out: Vec<Artifact> = Vec::new();
        let mut i: usize = 0;
        while i < self.artifacts.len()
            invariant
                i <= self.artifacts@.len(),
                out@.len() == i,
                forall|j: int| 0 <= j < i ==> (#[trigger] out@[j]).same(self.artifacts@[j]),
            decreases self.artifacts.len() - i,
        {
            out.push(self.artifacts[i].clone());
            i = i + 1;
        }
        out
    }

    /// A copy of the metrics.
    pub fn metric_list(&self) -> (r: Vec<MetricRecord>)
        ensures
            r@ == self.metrics@,
    {
        let mut out: Vec<MetricRecord> = Vec::new();
        let mut i: usize = 0;
        while i < self.metrics.len()
            invariant
                i <= self.metrics@.len(),
                out@ == self.metrics@.take(i as int),
            decreases self.metrics.len() - i,
        {
            out.push(self.metrics[i].clone());
            assert(out@ =~= self.metrics@.take(i + 1));
            i = i + 1;
        }
        assert(out@ =~= self.metrics@);
        out
    }
}

// ---------------------------------------------------------------------------------------------
// What a node keeps and says
// ---------------------------------------------------------------------------------------------
proof fn lemma_artifact_place(s: Seq<Artifact>, a: Artifact, from: int) -> (i: int)
    requires
        0 <= from <= s.len(),
        forall|j: int| 0 <= j < from ==> text::lex_before((#[trigger] s[j]).key@, a.key@),
    ensures
        from <= i <= s.len(),
        forall|j: int| 0 <= j < i ==> text::lex_before((#[trigger] s[j]).key@, a.key@),
        i < s.len() ==> !text::lex_before(s[i].key@, a.key@),
    decreases s.len() - from,
{
    if from < s.len() && text::lex_before(s[from].key@, a.key@) {
        lemma_artifact_place(s, a, from + 1)
    } else {
        from
    }
}

/// Keeping an artifact keeps it once: it is there afterwards, in place of any other under its key,
/// with all the others, and in the order of the keys.
pub proof fn lemma_artifact_is_kept(s: Seq<Artifact>, a: Artifact)
    requires
        keys_ascend(s),
    ensures
        keys_ascend(with_artifact(s, a)),
        forall|x: Artifact| #[trigger]
            with_artifact(s, a).contains(x) <==> x == a || (s.contains(x) && x.key@ != a.key@),
{
    let i = lemma_artifact_place(s, a, 0);
    lemma_with_artifact(s, a, i);
    text::lemma_lex_irreflexive(a.key@);
    let t = with_artifact(s, a);
    let found = i < s.len() && s[i].key@ == a.key@;
    assert(t[i] == a);
    assert forall|x: Artifact| #[trigger] t.contains(x) implies x == a || (s.contains(x) && x.key@
        != a.key@) by {
        let k = choose|k: int| 0 <= k < t.len() && t[k] == x;
        if k != i {
            let m = if found || k < i {
                k
            } else {
                k - 1
            };
            assert(s[m] == x);
            assert(x.key@ != a.key@) by {
                if k < i {
                    assert(text::lex_before(t[k].key@, t[i].key@));
                } else {
                    assert(text::lex_before(t[i].key@, t[k].key@));
                }
            }
        }
    }
    assert forall|x: Artifact| x == a || (s.contains(x) && x.key@ != a.key@) implies #[trigger] t.contains(
        x,
    ) by {
        if x == a {
            assert(t[i] == x);
        } else {
            let m = choose|m: int| 0 <= m < s.len() && s[m] == x;
            let k = if found || m < i {
                m
            } else {
                m + 1
            };
            assert(t[k] == x);
        }
    }
}

/// Taking a metric away takes every record under its key and no other, and keeps the order.
pub proof fn lemma_metric_is_taken_away(
    a: Seq<MetricRecord>,
    b: Seq<MetricRecord>,
    m: MetricRecord,
    key: Seq<char>,
)
    ensures
        without_metric(a + b, key) == without_metric(a, key) + without_metric(b, key),
        m.key@ == key ==> without_metric(seq![m], key) == Seq::<MetricRecord>::empty(),
        m.key@ != key ==> without_metric(seq![m], key) == seq![m],
    decreases b.len(),
{
    assert(seq![m].drop_last() =~= Seq::<MetricRecord>::empty());
    assert(without_metric(Seq::<MetricRecord>::empty(), key) == Seq::<MetricRecord>::empty());
    assert(m.key@ != key ==> without_metric(seq![m], key) =~= seq![m]);
    if b.len() == 0 {
        assert(a + b =~= a);
        assert(without_metric(a, key) + without_metric(b, key) =~= without_metric(a, key));
    } else {
        lemma_metric_is_taken_away(a, b.drop_last(), m, key);
        assert((a + b).drop_last() =~= a + b.drop_last());
        assert(without_metric(a + b, key) =~= without_metric(a, key) + without_metric(b, key));
    }
}

/// A run is begun just where it has a name and the node has no other run or is told to give it up.
/// Beginning the run of the node once more changes nothing unless the node is told to begin anew.
pub proof fn lemma_runs_that_are_begun(state: NodeRuntimeState, request: BeginExprRequest)
    ensures
        begin_refusal(state, request) is None <==> text::trim_spec(request.run_id@).len() > 0 && (
        state.current is None || state.current->0.run_id@ == request.run_id@
            || request.force_reset),
        begins_nothing(state, request) <==> state.current is Some && state.current->0.run_id@
            == request.run_id@ && !request.force_reset,
{
}

/// A node gives up its run for a request of that run, and for another only where it is told to.
pub proof fn lemma_resets_that_are_refused(state: NodeRuntimeState, request: ResetExprRequest)
    ensures
        !reset_refused(state, request) <==> state.current is None || state.current->0.run_id@
            == request.run_id@ || request.force_reset,
{
}

/// A request is served just where the node has a run and the request is of that run. Otherwise it
/// is told which run the node has.
pub proof fn lemma_requests_of_the_run(state: NodeRuntimeState, run_id: Seq<char>)
    ensures
        current_problem(state, run_id) is None <==> state.current is Some
            && state.current->0.run_id@ == run_id,
        state.current is None ==> current_problem(state, run_id) == Some("node has no active expr"@),
        state.current is Some && state.current->0.run_id@ != run_id ==> current_problem(state, run_id)
            == Some(
            "node is running run_id="@ + state.current->0.run_id@ + "; request used run_id="@
                + run_id,
        ),
        state.current is None ==> state.status_spec() == "idle"@ && state.current_run_id() is None,
        state.current is Some ==> state.status_spec() == state.current->0.phase@
            && state.current_run_id() == Some(state.current->0.run_id@),
{
}

/// A new phase is the only thing that changes, and only in the run that it is of.
pub proof fn lemma_only_the_phase_moves(
    before: Option<ExprState>,
    after: Option<ExprState>,
    run_id: Seq<char>,
    phase: Seq<char>,
)
    requires
        phase_moved(before, after, run_id, phase),
    ensures
        before is Some <==> after is Some,
        before is Some ==> {
            let a = before->0;
            let b = after->0;
            &&& b.run_id == a.run_id && b.run_dir == a.run_dir
            &&& b.blob_store == a.blob_store && b.metadata_store == a.metadata_store
            &&& b.sender == a.sender && b.receiver == a.receiver
            &&& b.paced_get_staging == a.paced_get_staging && b.paced_get_plans == a.paced_get_plans
            &&& b.artifacts == a.artifacts && b.metrics == a.metrics
            &&& a.run_id@ == run_id ==> b.phase@ == phase
            &&& a.run_id@ != run_id ==> b.phase@ == a.phase@
        },
{
}

/// What goes wrong in closing a run is told, each thing once and behind the words that say what it is:
/// the receiver first, then the sender, the blob store and the directory.
pub proof fn lemma_close_errors_are_told(
    run_dir: Seq<char>,
    receiver: Option<Seq<char>>,
    sender: Option<Seq<char>>,
    blob_store: Option<Seq<char>>,
    directory: Option<Seq<char>>,
)
    ensures
        ({
            let told = close_errors(run_dir, receiver, sender, blob_store, directory);
            let r: int = if receiver is Some {
                1
            } else {
                0
            };
            let s: int = if sender is Some {
                1
            } else {
                0
            };
            let b: int = if blob_store is Some {
                1
            } else {
                0
            };
            let d: int = if directory is Some {
                1
            } else {
                0
            };
            &&& told.len() == r + s + b + d
            &&& receiver is Some ==> told[0] == "failed to close receiver blob store: "@
                + receiver->0
            &&& sender is Some ==> told[r] == "failed to close sender blob store: "@ + sender->0
            &&& blob_store is Some ==> told[r + s] == blob_store->0
            &&& directory is Some ==> told[r + s + b] == "failed to remove expr run dir "@ + run_dir
                + ": "@ + directory->0
            &&& collected_errors(told) is None <==> receiver is None && sender is None
                && blob_store is None && directory is None
            &&& told.len() > 0 ==> collected_errors(told) == Some(text::join_spec(told, "; "@))
        }),
{
    reveal_strlit("");
    if let Some(e) = blob_store {
        assert(""@ + e =~= e);
    }
}

/// A node names the stores of its run: its own where it has one, else those of its sender, else those
/// of its receiver, behind the word that says whose they are.
pub proof fn lemma_stores_are_named(e: ExprState)
    ensures
        e.blob_store is Some ==> e.blob_store_text() == Some(
            if e.blob_store->0.root_dir is Some {
                e.blob_store->0.backend@ + ":"@ + e.blob_store->0.root_dir->0@
            } else {
                e.blob_store->0.backend@
            },
        ),
        e.blob_store is None && e.sender is Some ==> e.blob_store_text() == Some(
            "sender:"@ + e.sender->0.blob_store.backend@,
        ),
        e.blob_store is None && e.sender is None && e.receiver is Some ==> e.blob_store_text()
            == Some("receiver:"@ + e.receiver->0.blob_store.backend@),
        e.metadata_store is Some ==> e.metadata_store_text() == Some(e.metadata_store->0.backend@),
        e.metadata_store is None && e.sender is Some ==> e.metadata_store_text() == Some(
            "sender:"@ + e.sender->0.metadata_store.backend@,
        ),
        e.metadata_store is None && e.sender is None && e.receiver is Some
            ==> e.metadata_store_text() == Some("receiver:"@ + e.receiver->0.metadata_store.backend@),
        e.sender is None && e.receiver is None ==> (e.blob_store is None <==> e.blob_store_text()
            is None) && (e.metadata_store is None <==> e.metadata_store_text() is None),
{
}

/// Where just one thing is wrong with the beginning of a run, it is told.
pub proof fn lemma_begin_refusals(state: NodeRuntimeState, request: BeginExprRequest)
    ensures
        ({
            let a = text::is_blank_spec(request.run_id@);
            let b = state.current is Some && state.current->0.run_id@ != request.run_id@ && !request.force_reset;
            &&& a && !b ==> begin_refusal(state, request) == Some("run_id must not be empty"@)
            &&& b && !a ==> begin_refusal(state, request) == Some("node is running run_id="@ + state.current->0.run_id@ + "; begin_expr requested run_id="@ + request.run_id@)
        }),
{
}

} // verus!
