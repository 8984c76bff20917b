//! The stores and channel ends of a run: when they are opened, and what is recorded of them.
use crate::binary64::Real;
use crate::config::{Entry, ExperimentSpec};
use crate::environment;
use crate::native;
use crate::native::{Json, JsonTree};
use crate::protocol::{Artifact, InitReceiverRequest, InitSenderRequest, MetricRecord};
use crate::state;
use crate::state::{
    BlobStoreResource, ExprState, MetadataStoreResource, NodeRuntimeState, ReceiverResource,
    SenderResource,
};
use crate::table;
use crate::text;
use vstd::prelude::*;
use vstd::string::*;

verus! {

/// From `before` to `after` the current run changed from `a` to `b`, and the generation moved on.
pub open spec fn run_changed(
    before: NodeRuntimeState,
    after: NodeRuntimeState,
    a: ExprState,
    b: ExprState,
) -> bool {
    &&& before.current == Some(a)
    &&& after.current == Some(b)
    &&& after.requests == before.requests
    &&& after.next_request_seq == before.next_request_seq
    &&& after.generation == before.generation + 1
}

/// `after` holds one artifact more than `before`, or another in its place.
pub open spec fn artifact_kept(
    before: Seq<Artifact>,
    after: Seq<Artifact>,
    key: Seq<char>,
    value: JsonTree,
) -> bool {
    exists|a: Artifact|
        a.key@ == key && a.kind@ == key && a.value.tree() == value && after
            == #[trigger] state::with_artifact(before, a)
}

/// The same for an artifact whose kind is not its key.
pub open spec fn artifact_kept_as(
    before: Seq<Artifact>,
    after: Seq<Artifact>,
    key: Seq<char>,
    kind: Seq<char>,
    value: JsonTree,
) -> bool {
    exists|a: Artifact|
        a.key@ == key && a.kind@ == kind && a.value.tree() == value && after
            == #[trigger] state::with_artifact(before, a)
}

// ---------------------------------------------------------------------------------------------
// Blob stores
// ---------------------------------------------------------------------------------------------
/// The resource that a store serves: the one named, or the run.
pub open spec fn resource_or_run(resource_id: Option<Seq<char>>, run_id: Seq<char>) -> Seq<char> {
    match resource_id {
        Some(id) => id,
        None => run_id,
    }
}

pub fn resource_id_or_run(resource_id: &Option<String>, run_id: &str) -> (r: String)
    ensures
        r@ == resource_or_run(text::option_view(*resource_id), run_id@),
{
    match resource_id {
        Some(id) => id.clone(),
        None => run_id.to_owned(),
    }
}

/// What opening the blob store of a run comes to.
#[derive(Debug)]
pub enum BlobStoreStep {
    AlreadyOpen,
    /// Close the old store, if any, and open one below the run directory.
    Open { run_dir: String, old: Option<BlobStoreResource> },
}

impl NodeRuntimeState {
    /// Starts to open the blob store of the current run.
    pub fn take_blob_store(&mut self, run_id: &str, force_reinit: bool) -> (r: Result<
        BlobStoreStep,
        String,
    >)
        requires
            old(self).wf(),
        ensures
            final(self).wf(),
            match r {
                Err(m) => state::current_problem(*old(self), run_id@) == Some(m@) && *final(self)
                    == *old(self),
                Ok(BlobStoreStep::AlreadyOpen) => {
                    &&& state::current_problem(*old(self), run_id@) is None
                    &&& old(self).current->0.blob_store is Some && !force_reinit
                    &&& *final(self) == *old(self)
                },
                Ok(BlobStoreStep::Open { run_dir, old: store }) => {
                    &&& state::current_problem(*old(self), run_id@) is None
                    &&& !(old(self).current->0.blob_store is Some && !force_reinit)
                    &&& run_dir == old(self).current->0.run_dir
                    &&& store == old(self).current->0.blob_store
                    &&& *final(self) == (NodeRuntimeState {
                        current: Some(
                            ExprState { blob_store: None, ..old(self).current->0 },
                        ),
                        ..*old(self)
                    })
                },
            },
    {
        let run_dir = match state::current_expr(self, run_id) {
            Err(m) => {
                return Err(m);
            },
            Ok(current) => {
                if current.blob_store.is_some() && !force_reinit {
                    return Ok(BlobStoreStep::AlreadyOpen);
                }
                current.run_dir.clone()
            },
        };
        let mut store: Option<BlobStoreResource> = None;
        if let Some(current) = &mut self.current {
            store = current.blob_store.take();
        }
        Ok(BlobStoreStep::Open { run_dir, old: store })
    }

    /// Records the blob store that was opened.
    pub fn install_blob_store(
        &mut self,
        run_id: &str,
        store: BlobStoreResource,
        details: &Vec<Entry>,
    ) -> (r: Result<(), String>)
        requires
            old(self).wf(),
            old(self).can_advance(),
        ensures
            final(self).wf(),
            match r {
                Err(m) => state::current_problem(*old(self), run_id@) == Some(m@) && *final(self)
                    == *old(self),
                Ok(_) => {
                    let a = old(self).current->0;
                    let b = final(self).current->0;
                    &&& state::current_problem(*old(self), run_id@) is None
                    &&& run_changed(*old(self), *final(self), a, b)
                    &&& b == (ExprState {
                        blob_store: Some(store),
                        artifacts: b.artifacts,
                        phase: b.phase,
                        ..a
                    })
                    &&& b.phase@ == "blob_store_ready"@
                    &&& artifact_kept(
                        a.artifacts@,
                        b.artifacts@,
                        "blob_store_details"@,
                        native::table_object(environment::entry_views(details@)),
                    )
                },
            },
    {
        if let Err(m) = state::current_expr(self, run_id) {
            return Err(m);
        }
        let value = native::table_to_json(details);
        if let Some(current) = &mut self.current {
            current.blob_store = Some(store);
            current.put_artifact("blob_store_details", "blob_store_details", value);
            current.phase = "blob_store_ready".to_owned();
        }
        self.generation = self.generation + 1;
        Ok(())
    }

    /// The open blob store of the current run; `what` names who needs it.
    pub fn blob_store_of(&self, run_id: &str, what: &str) -> (r: Result<&BlobStoreResource, String>)
        ensures
            match r {
                Ok(store) => {
                    &&& state::current_problem(*self, run_id@) is None
                    &&& self.current->0.blob_store == Some(*store)
                },
                Err(m) => match state::current_problem(*self, run_id@) {
                    Some(p) => m@ == p,
                    None => self.current->0.blob_store is None && m@ == what@
                        + " requires initialized blob_store state"@,
                },
            },
    {
        match state::current_expr(self, run_id) {
            Err(m) => Err(m),
            Ok(current) => match &current.blob_store {
                Some(store) => Ok(store),
                None => Err(text::cat2(what, " requires initialized blob_store state")),
            },
        }
    }

    /// The run directory of the current run.
    pub fn run_dir_of(&self, run_id: &str) -> (r: Result<String, String>)
        ensures
            match r {
                Ok(dir) => state::current_problem(*self, run_id@) is None && dir
                    == self.current->0.run_dir,
                Err(m) => state::current_problem(*self, run_id@) == Some(m@),
            },
    {
        match state::current_expr(self, run_id) {
            Err(m) => Err(m),
            Ok(current) => Ok(current.run_dir.clone()),
        }
    }
}

// ---------------------------------------------------------------------------------------------
// Metadata stores
// ---------------------------------------------------------------------------------------------
impl NodeRuntimeState {
    /// Records a metadata store, unless the run has one and is to keep it.
    pub fn install_metadata_store(
        &mut self,
        run_id: &str,
        store: MetadataStoreResource,
        force_reinit: bool,
    ) -> (r: Result<(), String>)
        requires
            old(self).wf(),
            old(self).can_advance(),
        ensures
            final(self).wf(),
            match r {
                Err(m) => state::current_problem(*old(self), run_id@) == Some(m@) && *final(self)
                    == *old(self),
                Ok(_) => {
                    let a = old(self).current->0;
                    let b = final(self).current->0;
                    &&& state::current_problem(*old(self), run_id@) is None
                    &&& if a.metadata_store is Some && !force_reinit {
                        *final(self) == *old(self)
                    } else {
                        &&& run_changed(*old(self), *final(self), a, b)
                        &&& b == (ExprState {
                            metadata_store: Some(store),
                            phase: b.phase,
                            ..a
                        })
                        &&& b.phase@ == "metadata_store_ready"@
                    }
                },
            },
    {
        match state::current_expr(self, run_id) {
            Err(m) => {
                return Err(m);
            },
            Ok(current) => {
                if current.metadata_store.is_some() && !force_reinit {
                    return Ok(());
                }
            },
        }
        if let Some(current) = &mut self.current {
            current.metadata_store = Some(store);
            current.phase = "metadata_store_ready".to_owned();
        }
        self.generation = self.generation + 1;
        Ok(())
    }
}

// ---------------------------------------------------------------------------------------------
// Channel ends
// ---------------------------------------------------------------------------------------------
/// How a receiver shares elements with others.
#[derive(Clone, Copy, Debug, PartialEq, Eq, Structural)]
pub enum ConsumeMode {
    Competitive,
    Fanout,
}

pub open spec fn consume_mode_spec(value: Seq<char>) -> Result<ConsumeMode, Seq<char>> {
    let word = text::normal_spec(value);
    if word == "competitive"@ {
        Ok(ConsumeMode::Competitive)
    } else if word == "fanout"@ {
        Ok(ConsumeMode::Fanout)
    } else {
        Err("unsupported consume_mode: "@ + word)
    }
}

pub fn parse_consume_mode(value: &str) -> (r: Result<ConsumeMode, String>)
    ensures
        environment::plain_result(r) == consume_mode_spec(value@),
{
    let word = text::normal(value);
    if text::same(word.as_str(), "competitive") {
        Ok(ConsumeMode::Competitive)
    } else if text::same(word.as_str(), "fanout") {
        Ok(ConsumeMode::Fanout)
    } else {
        Err(text::cat2("unsupported consume_mode: ", word.as_str()))
    }
}

/// The blob backend of a channel end: the one asked for, else the experiment's.
pub fn channel_blob_backend(backend: &Option<String>, experiment: &Option<ExperimentSpec>) -> (r:
    Result<String, String>)
    ensures
        match r {
            Ok(b) => match *backend {
                Some(x) => b == x,
                None => experiment matches Some(e) && b == e.benchmark.backend,
            },
            Err(m) => backend is None && experiment is None && m@
                == "channel endpoint init requires blob backend"@,
        },
{
    match backend {
        Some(b) => Ok(b.clone()),
        None => match experiment {
            Some(e) => Ok(e.benchmark.backend.clone()),
            None => Err("channel endpoint init requires blob backend".to_owned()),
        },
    }
}

/// The metadata backend of a channel end: the one asked for, else the experiment's, else memory.
pub fn channel_metadata_backend(
    backend: &Option<String>,
    experiment: &Option<ExperimentSpec>,
) -> (r: String)
    ensures
        r@ == (match *backend {
            Some(x) => x@,
            None => match *experiment {
                Some(e) => e.lambda_channel.metadata_backend@,
                None => "inmemory"@,
            },
        }),
{
    match backend {
        Some(b) => b.clone(),
        None => match experiment {
            Some(e) => e.lambda_channel.metadata_backend.clone(),
            None => "inmemory".to_owned(),
        },
    }
}

/// Why a sender cannot be opened.
pub open spec fn sender_problem(state: NodeRuntimeState, request: InitSenderRequest) -> Option<
    Seq<char>,
> {
    if text::is_blank_spec(request.channel_id@) {
        Some("sender channel_id must not be empty"@)
    } else {
        state::current_problem(state, request.run_id@)
    }
}

/// Why a receiver cannot be opened.
pub open spec fn receiver_problem(state: NodeRuntimeState, request: InitReceiverRequest) -> Option<
    Seq<char>,
> {
    if text::is_blank_spec(request.channel_id@) {
        Some("receiver channel_id must not be empty"@)
    } else if text::is_blank_spec(request.consumer_id@) {
        Some("receiver consumer_id must not be empty"@)
    } else if consume_mode_spec(request.consume_mode@) is Err {
        Some(consume_mode_spec(request.consume_mode@)->Err_0)
    } else {
        state::current_problem(state, request.run_id@)
    }
}

/// The blob store details of a channel end.
pub open spec fn end_details(store: BlobStoreResource) -> Seq<(Seq<char>, Seq<char>)> {
    seq![
        ("backend"@, store.backend@),
        (
            "root_dir"@,
            match store.root_dir {
                Some(dir) => dir@,
                None => Seq::empty(),
            },
        ),
    ]
}

fn end_details_of(store: &BlobStoreResource) -> (r: Vec<Entry>)
    ensures
        environment::entry_views(r@) == end_details(*store),
        table::is_table(r@),
{
    let mut out: Vec<Entry> = Vec::new();
    assert(environment::entry_views(out@) =~= Seq::<(Seq<char>, Seq<char>)>::empty());
    proof {
        reveal_strlit("backend");
        reveal_strlit("root_dir");
        assert("backend"@[0] == 'b' && "root_dir"@[0] == 'r');
        assert(text::lex_before("backend"@, "root_dir"@));
    }
    table::put_entry(&mut out, "backend", store.backend.as_str());
    match &store.root_dir {
        Some(dir) => {
            table::put_entry(&mut out, "root_dir", dir.as_str());
        },
        None => {
            let empty = String::new();
            table::put_entry(&mut out, "root_dir", empty.as_str());
        },
    }
    proof {
        reveal_with_fuel(table::with_pair, 3);
    }
    assert(environment::entry_views(out@) =~= end_details(*store));
    out
}

impl NodeRuntimeState {
    /// Whether a sender has to be opened.
    pub fn sender_wanted(&self, request: &InitSenderRequest) -> (r: Result<bool, String>)
        ensures
            match r {
                Ok(wanted) => sender_problem(*self, *request) is None && wanted == !(
                self.current->0.sender is Some && !request.force_reinit),
                Err(m) => sender_problem(*self, *request) == Some(m@),
            },
    {
        if text::is_blank(request.channel_id.as_str()) {
            return Err("sender channel_id must not be empty".to_owned());
        }
        match state::current_expr(self, request.run_id.as_str()) {
            Err(m) => Err(m),
            Ok(current) => Ok(!(current.sender.is_some() && !request.force_reinit)),
        }
    }

    /// Whether a receiver has to be opened, and how it consumes.
    pub fn receiver_wanted(&self, request: &InitReceiverRequest) -> (r: Result<
        (bool, ConsumeMode),
        String,
    >)
        ensures
            match r {
                Ok((wanted, mode)) => {
                    &&& receiver_problem(*self, *request) is None
                    &&& wanted == !(self.current->0.receiver is Some && !request.force_reinit)
                    &&& consume_mode_spec(request.consume_mode@) == Ok::<ConsumeMode, Seq<char>>(
                        mode,
                    )
                },
                Err(m) => receiver_problem(*self, *request) == Some(m@),
            },
    {
        if text::is_blank(request.channel_id.as_str()) {
            return Err("receiver channel_id must not be empty".to_owned());
        }
        if text::is_blank(request.consumer_id.as_str()) {
            return Err("receiver consumer_id must not be empty".to_owned());
        }
        let mode = match parse_consume_mode(request.consume_mode.as_str()) {
            Ok(mode) => mode,
            Err(m) => {
                return Err(m);
            },
        };
        match state::current_expr(self, request.run_id.as_str()) {
            Err(m) => Err(m),
            Ok(current) => Ok((!(current.receiver.is_some() && !request.force_reinit), mode)),
        }
    }

    /// Records the sender that was opened.
    pub fn install_sender(&mut self, run_id: &str, sender: SenderResource) -> (r: Result<
        (),
        String,
    >)
        requires
            old(self).wf(),
            old(self).can_advance(),
        ensures
            final(self).wf(),
            match r {
                Err(m) => state::current_problem(*old(self), run_id@) == Some(m@) && *final(self)
                    == *old(self),
                Ok(_) => {
                    let a = old(self).current->0;
                    let b = final(self).current->0;
                    &&& state::current_problem(*old(self), run_id@) is None
                    &&& run_changed(*old(self), *final(self), a, b)
                    &&& b == (ExprState {
                        sender: Some(sender),
                        artifacts: b.artifacts,
                        phase: b.phase,
                        ..a
                    })
                    &&& b.phase@ == "sender_ready"@
                    &&& exists|mid: Seq<Artifact>|
                        {
                            &&& #[trigger] artifact_kept_as(
                                a.artifacts@,
                                mid,
                                "sender_blob_store_details"@,
                                "blob_store_details"@,
                                native::table_object(end_details(sender.blob_store)),
                            )
                            &&& artifact_kept_as(
                                mid,
                                b.artifacts@,
                                "sender_metadata_store_details"@,
                                "metadata_store_details"@,
                                native::table_object(
                                    environment::entry_views(sender.metadata_store.details@),
                                ),
                            )
                        }
                },
            },
    {
        if let Err(m) = state::current_expr(self, run_id) {
            return Err(m);
        }
        let blob_details = native::table_to_json(&end_details_of(&sender.blob_store));
        let metadata_details = native::table_to_json(&sender.metadata_store.details);
        let ghost kept = sender;
        if let Some(current) = &mut self.current {
            let ghost a = *current;
            current.sender = Some(sender);
            current.put_artifact("sender_blob_store_details", "blob_store_details", blob_details);
            let ghost mid = current.artifacts@;
            assert(artifact_kept_as(
                a.artifacts@,
                mid,
                "sender_blob_store_details"@,
                "blob_store_details"@,
                native::table_object(end_details(kept.blob_store)),
            ));
            current.put_artifact(
                "sender_metadata_store_details",
                "metadata_store_details",
                metadata_details,
            );
            assert(artifact_kept_as(
                mid,
                current.artifacts@,
                "sender_metadata_store_details"@,
                "metadata_store_details"@,
                native::table_object(environment::entry_views(kept.metadata_store.details@)),
            ));
            current.phase = "sender_ready".to_owned();
        }
        self.generation = self.generation + 1;
        Ok(())
    }

    /// Records the receiver that was opened.
    pub fn install_receiver(&mut self, run_id: &str, receiver: ReceiverResource) -> (r: Result<
        (),
        String,
    >)
        requires
            old(self).wf(),
            old(self).can_advance(),
        ensures
            final(self).wf(),
            match r {
                Err(m) => state::current_problem(*old(self), run_id@) == Some(m@) && *final(self)
                    == *old(self),
                Ok(_) => {
                    let a = old(self).current->0;
                    let b = final(self).current->0;
                    &&& state::current_problem(*old(self), run_id@) is None
                    &&& run_changed(*old(self), *final(self), a, b)
                    &&& b == (ExprState {
                        receiver: Some(receiver),
                        artifacts: b.artifacts,
                        phase: b.phase,
                        ..a
                    })
                    &&& b.phase@ == "receiver_ready"@
                    &&& exists|mid: Seq<Artifact>|
                        {
                            &&& #[trigger] artifact_kept_as(
                                a.artifacts@,
                                mid,
                                "receiver_blob_store_details"@,
                                "blob_store_details"@,
                                native::table_object(end_details(receiver.blob_store)),
                            )
                            &&& artifact_kept_as(
                                mid,
                                b.artifacts@,
                                "receiver_metadata_store_details"@,
                                "metadata_store_details"@,
                                native::table_object(
                                    environment::entry_views(receiver.metadata_store.details@),
                                ),
                            )
                        }
                },
            },
    {
        if let Err(m) = state::current_expr(self, run_id) {
            return Err(m);
        }
        let blob_details = native::table_to_json(&end_details_of(&receiver.blob_store));
        let metadata_details = native::table_to_json(&receiver.metadata_store.details);
        let ghost kept = receiver;
        if let Some(current) = &mut self.current {
            let ghost a = *current;
            current.receiver = Some(receiver);
            current.put_artifact("receiver_blob_store_details", "blob_store_details", blob_details);
            let ghost mid = current.artifacts@;
            assert(artifact_kept_as(
                a.artifacts@,
                mid,
                "receiver_blob_store_details"@,
                "blob_store_details"@,
                native::table_object(end_details(kept.blob_store)),
            ));
            current.put_artifact(
                "receiver_metadata_store_details",
                "metadata_store_details",
                metadata_details,
            );
            assert(artifact_kept_as(
                mid,
                current.artifacts@,
                "receiver_metadata_store_details"@,
                "metadata_store_details"@,
                native::table_object(environment::entry_views(kept.metadata_store.details@)),
            ));
            current.phase = "receiver_ready".to_owned();
        }
        self.generation = self.generation + 1;
        Ok(())
    }
}

// ---------------------------------------------------------------------------------------------
// Outcomes
// ---------------------------------------------------------------------------------------------
/// `after` holds the metric as its latest, and the others of `before`.
pub open spec fn metric_kept(
    before: Seq<MetricRecord>,
    after: Seq<MetricRecord>,
    key: Seq<char>,
    value: Real,
    unit: Seq<char>,
) -> bool {
    exists|m: MetricRecord|
        m.key@ == key && m.value == value && m.unit@ == unit && after
            == #[trigger] state::without_metric(before, key).push(m)
}

/// A piece of work of the current run ended: one artifact, one metric and the phase say so.
pub open spec fn outcome_recorded(
    before: NodeRuntimeState,
    after: NodeRuntimeState,
    key: Seq<char>,
    value: JsonTree,
    metric_key: Seq<char>,
    metric: Real,
    unit: Seq<char>,
    phase: Seq<char>,
) -> bool {
    let a = before.current->0;
    let b = after.current->0;
    &&& run_changed(before, after, a, b)
    &&& b == (ExprState { artifacts: b.artifacts, metrics: b.metrics, phase: b.phase, ..a })
    &&& b.phase@ == phase
    &&& artifact_kept(a.artifacts@, b.artifacts@, key, value)
    &&& metric_kept(a.metrics@, b.metrics@, metric_key, metric, unit)
}

impl NodeRuntimeState {
    fn record_outcome(
        &mut self,
        run_id: &str,
        key: &str,
        value: Json,
        metric_key: &str,
        metric: Real,
        unit: &str,
        phase: &str,
    ) -> (r: Result<(), String>)
        requires
            old(self).wf(),
            old(self).can_advance(),
        ensures
            final(self).wf(),
            match r {
                Err(m) => state::current_problem(*old(self), run_id@) == Some(m@) && *final(self)
                    == *old(self),
                Ok(_) => state::current_problem(*old(self), run_id@) is None && outcome_recorded(
                    *old(self),
                    *final(self),
                    key@,
                    value.tree(),
                    metric_key@,
                    metric,
                    unit@,
                    phase@,
                ),
            },
    {
        if let Err(m) = state::current_expr(self, run_id) {
            return Err(m);
        }
        if let Some(current) = &mut self.current {
            current.put_artifact(key, key, value);
            current.put_metric(metric_key, metric, unit);
            current.phase = phase.to_owned();
        }
        self.generation = self.generation + 1;
        Ok(())
    }

    /// Records a finished put: the payload files and the references, and their total size.
    pub fn record_blob_put(
        &mut self,
        run_id: &str,
        paths: &Vec<String>,
        refs: &Vec<Json>,
        total_bytes: Real,
    ) -> (r: Result<(), String>)
        requires
            old(self).wf(),
            old(self).can_advance(),
        ensures
            final(self).wf(),
            match r {
                Err(m) => state::current_problem(*old(self), run_id@) == Some(m@) && *final(self)
                    == *old(self),
                Ok(_) => {
                    let a = old(self).current->0;
                    let b = final(self).current->0;
                    &&& state::current_problem(*old(self), run_id@) is None
                    &&& run_changed(*old(self), *final(self), a, b)
                    &&& b == (ExprState {
                        artifacts: b.artifacts,
                        metrics: b.metrics,
                        phase: b.phase,
                        ..a
                    })
                    &&& b.phase@ == "blob_batch_ready"@
                    &&& exists|mid: Seq<Artifact>|
                        {
                            &&& #[trigger] artifact_kept(
                                a.artifacts@,
                                mid,
                                "payload_paths"@,
                                native::text_array(text::views(paths@)),
                            )
                            &&& artifact_kept(
                                mid,
                                b.artifacts@,
                                "blob_refs"@,
                                JsonTree::Array(native::trees(refs@)),
                            )
                        }
                    &&& metric_kept(
                        a.metrics@,
                        b.metrics@,
                        "blob_put_total_bytes"@,
                        total_bytes,
                        "bytes"@,
                    )
                },
            },
    {
        if let Err(m) = state::current_expr(self, run_id) {
            return Err(m);
        }
        let path_value = native::texts_to_json(paths);
        let copies = native::copy_json(refs, 0, refs.len());
        assert(native::trees(copies@) =~= native::trees(refs@));
        let ref_value = Json::Array(copies);
        assert(ref_value.tree()->Array_0 =~= native::trees(refs@));
        if let Some(current) = &mut self.current {
            let ghost a = *current;
            current.put_artifact("payload_paths", "payload_paths", path_value);
            let ghost mid = current.artifacts@;
            assert(artifact_kept(
                a.artifacts@,
                mid,
                "payload_paths"@,
                native::text_array(text::views(paths@)),
            ));
            current.put_artifact("blob_refs", "blob_refs", ref_value);
            assert(artifact_kept(
                mid,
                current.artifacts@,
                "blob_refs"@,
                JsonTree::Array(native::trees(refs@)),
            ));
            current.put_metric("blob_put_total_bytes", total_bytes, "bytes");
            current.phase = "blob_batch_ready".to_owned();
        }
        self.generation = self.generation + 1;
        Ok(())
    }

    /// Records a finished get: the files and their total size.
    pub fn record_blob_get(&mut self, run_id: &str, paths: &Vec<String>, total_bytes: Real) -> (r:
        Result<(), String>)
        requires
            old(self).wf(),
            old(self).can_advance(),
        ensures
            final(self).wf(),
            match r {
                Err(m) => state::current_problem(*old(self), run_id@) == Some(m@) && *final(self)
                    == *old(self),
                Ok(_) => state::current_problem(*old(self), run_id@) is None && outcome_recorded(
                    *old(self),
                    *final(self),
                    "materialized_paths"@,
                    native::text_array(text::views(paths@)),
                    "blob_get_total_bytes"@,
                    total_bytes,
                    "bytes"@,
                    "blob_batch_materialized"@,
                ),
            },
    {
        let value = native::texts_to_json(paths);
        self.record_outcome(
            run_id,
            "materialized_paths",
            value,
            "blob_get_total_bytes",
            total_bytes,
            "bytes",
            "blob_batch_materialized",
        )
    }

    /// Records a finished paced get: the directory of the files and their total size.
    pub fn record_paced_get(&mut self, run_id: &str, dir: &str, total_bytes: Real) -> (r: Result<
        (),
        String,
    >)
        requires
            old(self).wf(),
            old(self).can_advance(),
        ensures
            final(self).wf(),
            match r {
                Err(m) => state::current_problem(*old(self), run_id@) == Some(m@) && *final(self)
                    == *old(self),
                Ok(_) => state::current_problem(*old(self), run_id@) is None && outcome_recorded(
                    *old(self),
                    *final(self),
                    "paced_materialized_dir"@,
                    JsonTree::Text(dir@),
                    "blob_get_total_bytes"@,
                    total_bytes,
                    "bytes"@,
                    "blob_paced_get_finished"@,
                ),
            },
    {
        let value = Json::Text(dir.to_owned());
        self.record_outcome(
            run_id,
            "paced_materialized_dir",
            value,
            "blob_get_total_bytes",
            total_bytes,
            "bytes",
            "blob_paced_get_finished",
        )
    }

    /// Records a finished send: the directory of the payloads and the bytes sent.
    pub fn record_channel_send(&mut self, run_id: &str, dir: &str, total_bytes: Real) -> (r: Result<
        (),
        String,
    >)
        requires
            old(self).wf(),
            old(self).can_advance(),
        ensures
            final(self).wf(),
            match r {
                Err(m) => state::current_problem(*old(self), run_id@) == Some(m@) && *final(self)
                    == *old(self),
                Ok(_) => state::current_problem(*old(self), run_id@) is None && outcome_recorded(
                    *old(self),
                    *final(self),
                    "channel_payload_dir"@,
                    JsonTree::Text(dir@),
                    "channel_send_total_bytes"@,
                    total_bytes,
                    "bytes"@,
                    "channel_send_finished"@,
                ),
            },
    {
        let value = Json::Text(dir.to_owned());
        self.record_outcome(
            run_id,
            "channel_payload_dir",
            value,
            "channel_send_total_bytes",
            total_bytes,
            "bytes",
            "channel_send_finished",
        )
    }

    /// Records a finished receiver: the directory of the files and the number of elements.
    pub fn record_channel_receiver(&mut self, run_id: &str, dir: &str, delivered: Real) -> (r:
        Result<(), String>)
        requires
            old(self).wf(),
            old(self).can_advance(),
        ensures
            final(self).wf(),
            match r {
                Err(m) => state::current_problem(*old(self), run_id@) == Some(m@) && *final(self)
                    == *old(self),
                Ok(_) => state::current_problem(*old(self), run_id@) is None && outcome_recorded(
                    *old(self),
                    *final(self),
                    "channel_materialized_dir"@,
                    JsonTree::Text(dir@),
                    "channel_receiver_delivered_count"@,
                    delivered,
                    "ops"@,
                    "channel_receiver_finished"@,
                ),
            },
    {
        let value = Json::Text(dir.to_owned());
        self.record_outcome(
            run_id,
            "channel_materialized_dir",
            value,
            "channel_receiver_delivered_count",
            delivered,
            "ops",
            "channel_receiver_finished",
        )
    }

    /// The sender of the current run.
    pub fn sender_of(&self, run_id: &str) -> (r: Result<u64, String>)
        ensures
            match r {
                Ok(handle) => state::current_problem(*self, run_id@) is None
                    && (self.current->0.sender matches Some(s) && s.handle == handle),
                Err(m) => match state::current_problem(*self, run_id@) {
                    Some(p) => m@ == p,
                    None => self.current->0.sender is None && m@
                        == "channel send requires initialized sender state"@,
                },
            },
    {
        match state::current_expr(self, run_id) {
            Err(m) => Err(m),
            Ok(current) => match &current.sender {
                Some(s) => Ok(s.handle),
                None => Err("channel send requires initialized sender state".to_owned()),
            },
        }
    }

    /// The receiver of the current run.
    pub fn receiver_of(&self, run_id: &str) -> (r: Result<u64, String>)
        ensures
            match r {
                Ok(handle) => state::current_problem(*self, run_id@) is None
                    && (self.current->0.receiver matches Some(s) && s.handle == handle),
                Err(m) => match state::current_problem(*self, run_id@) {
                    Some(p) => m@ == p,
                    None => self.current->0.receiver is None && m@
                        == "channel receiver requires initialized receiver state"@,
                },
            },
    {
        match state::current_expr(self, run_id) {
            Err(m) => Err(m),
            Ok(current) => match &current.receiver {
                Some(s) => Ok(s.handle),
                None => Err("channel receiver requires initialized receiver state".to_owned()),
            },
        }
    }
}

// ---------------------------------------------------------------------------------------------
// What the setting up of a run leaves behind
// ---------------------------------------------------------------------------------------------
/// A channel is consumed in one of two ways, whatever the case of the letters and the blanks around.
pub proof fn lemma_consume_modes(value: Seq<char>)
    ensures
        consume_mode_spec(value) == Ok::<ConsumeMode, Seq<char>>(ConsumeMode::Competitive)
            <==> text::normal_spec(value) == "competitive"@,
        consume_mode_spec(value) == Ok::<ConsumeMode, Seq<char>>(ConsumeMode::Fanout)
            <==> text::normal_spec(value) == "fanout"@,
        consume_mode_spec(value) is Err ==> consume_mode_spec(value)->Err_0
            == "unsupported consume_mode: "@ + text::normal_spec(value),
{
    reveal_strlit("competitive");
    reveal_strlit("fanout");
    assert("competitive"@.len() != "fanout"@.len());
}

/// A sender is opened just where its channel has a name and its run is that of the node; a receiver
/// needs a consumer and a way to consume besides.
pub proof fn lemma_ends_that_are_opened(
    state: NodeRuntimeState,
    sender: InitSenderRequest,
    receiver: InitReceiverRequest,
)
    ensures
        sender_problem(state, sender) is None <==> {
            &&& text::trim_spec(sender.channel_id@).len() > 0
            &&& state.current is Some
            &&& state.current->0.run_id@ == sender.run_id@
        },
        receiver_problem(state, receiver) is None <==> {
            &&& text::trim_spec(receiver.channel_id@).len() > 0
            &&& text::trim_spec(receiver.consumer_id@).len() > 0
            &&& text::normal_spec(receiver.consume_mode@) == "competitive"@ || text::normal_spec(
                receiver.consume_mode@,
            ) == "fanout"@
            &&& state.current is Some
            &&& state.current->0.run_id@ == receiver.run_id@
        },
{
}

/// Recording an outcome keeps the artifact and the metric under their keys, and every other artifact
/// and metric. The requests, the stores and the plans of the run are as before.
pub proof fn lemma_outcome_is_recorded(
    before: NodeRuntimeState,
    after: NodeRuntimeState,
    key: Seq<char>,
    value: JsonTree,
    metric_key: Seq<char>,
    metric: Real,
    unit: Seq<char>,
    phase: Seq<char>,
)
    requires
        before.wf(),
        outcome_recorded(before, after, key, value, metric_key, metric, unit, phase),
    ensures
        after.requests == before.requests,
        after.next_request_seq == before.next_request_seq,
        after.generation == before.generation + 1,
        after.current is Some && before.current is Some,
        after.current->0.phase@ == phase,
        after.current->0.run_id == before.current->0.run_id,
        after.current->0.run_dir == before.current->0.run_dir,
        after.current->0.blob_store == before.current->0.blob_store,
        after.current->0.sender == before.current->0.sender,
        after.current->0.receiver == before.current->0.receiver,
        after.current->0.paced_get_plans == before.current->0.paced_get_plans,
        artifact_under(after.current->0.artifacts@, key, key, value),
        forall|x: Artifact|
            x.key@ != key ==> (#[trigger] after.current->0.artifacts@.contains(x)
                <==> before.current->0.artifacts@.contains(x)),
        metric_under(after.current->0.metrics@, metric_key, metric, unit),
        forall|x: MetricRecord|
            x.key@ != metric_key ==> (#[trigger] after.current->0.metrics@.contains(x)
                <==> before.current->0.metrics@.contains(x)),
{
    let a = before.current->0;
    let b = after.current->0;
    let kept = choose|kept: Artifact|
        kept.key@ == key && kept.kind@ == key && kept.value.tree() == value && b.artifacts@
            == #[trigger] state::with_artifact(a.artifacts@, kept);
    assert(state::keys_ascend(a.artifacts@));
    state::lemma_artifact_is_kept(a.artifacts@, kept);
    assert(b.artifacts@.contains(kept));
    let m = choose|m: MetricRecord|
        m.key@ == metric_key && m.value == metric && m.unit@ == unit && b.metrics@
            == #[trigger] state::without_metric(a.metrics@, metric_key).push(m);
    assert(b.metrics@.last() == m);
    assert(b.metrics@.contains(m));
    assert forall|x: MetricRecord| x.key@ != metric_key implies (#[trigger] b.metrics@.contains(x)
        <==> a.metrics@.contains(x)) by {
        lemma_other_metrics(a.metrics@, metric_key, x);
        let rest = state::without_metric(a.metrics@, metric_key);
        if b.metrics@.contains(x) {
            let k = choose|k: int| 0 <= k < b.metrics@.len() && b.metrics@[k] == x;
            assert(k < rest.len());
            assert(rest[k] == x);
        }
        if rest.contains(x) {
            let k = choose|k: int| 0 <= k < rest.len() && rest[k] == x;
            assert(b.metrics@[k] == x);
        }
    }
}

/// Whether there is an artifact of that kind and value under a key.
pub open spec fn artifact_under(
    s: Seq<Artifact>,
    key: Seq<char>,
    kind: Seq<char>,
    value: JsonTree,
) -> bool {
    exists|a: Artifact| #[trigger]
        s.contains(a) && a.key@ == key && a.kind@ == kind && a.value.tree() == value
}

/// Whether there is a metric of that value and unit under a key.
pub open spec fn metric_under(
    s: Seq<MetricRecord>,
    key: Seq<char>,
    value: Real,
    unit: Seq<char>,
) -> bool {
    exists|m: MetricRecord| #[trigger]
        s.contains(m) && m.key@ == key && m.value == value && m.unit@ == unit
}

proof fn lemma_other_metrics(s: Seq<MetricRecord>, key: Seq<char>, x: MetricRecord)
    requires
        x.key@ != key,
    ensures
        state::without_metric(s, key).contains(x) <==> s.contains(x),
    decreases s.len(),
{
    if s.len() > 0 {
        let init = s.drop_last();
        let rest = state::without_metric(init, key);
        let whole = state::without_metric(s, key);
        lemma_other_metrics(init, key, x);
        if whole.contains(x) {
            let k = choose|k: int| 0 <= k < whole.len() && whole[k] == x;
            if k < rest.len() {
                assert(rest[k] == x);
                let j = choose|j: int| 0 <= j < init.len() && init[j] == x;
                assert(s[j] == x);
            } else {
                assert(s[s.len() - 1] == x);
            }
        }
        if s.contains(x) {
            let j = choose|j: int| 0 <= j < s.len() && s[j] == x;
            if j < init.len() {
                assert(init[j] == x);
                let k = choose|k: int| 0 <= k < rest.len() && rest[k] == x;
                assert(whole[k] == x);
            } else {
                assert(whole[whole.len() - 1] == x);
            }
        }
    } else {
        assert(state::without_metric(s, key) == s);
    }
}

/// An artifact of another kind is kept under its key as well.
pub proof fn lemma_artifact_of_a_kind_is_kept(
    before: Seq<Artifact>,
    after: Seq<Artifact>,
    key: Seq<char>,
    kind: Seq<char>,
    value: JsonTree,
)
    requires
        state::keys_ascend(before),
        artifact_kept_as(before, after, key, kind, value),
    ensures
        artifact_under(after, key, kind, value),
        forall|x: Artifact|
            x.key@ != key ==> (#[trigger] after.contains(x) <==> before.contains(x)),
        forall|x: Artifact|
            x.key@ == key && #[trigger] after.contains(x) ==> x.kind@ == kind && x.value.tree()
                == value,
{
    let kept = choose|kept: Artifact|
        kept.key@ == key && kept.kind@ == kind && kept.value.tree() == value && after
            == #[trigger] state::with_artifact(before, kept);
    state::lemma_artifact_is_kept(before, kept);
    assert(after.contains(kept));
}

/// Resources go by the id that they are given, or else by the run.
pub proof fn lemma_resources_go_by(resource_id: Option<Seq<char>>, run_id: Seq<char>)
    ensures
        resource_id is Some ==> resource_or_run(resource_id, run_id) == resource_id->0,
        resource_id is None ==> resource_or_run(resource_id, run_id) == run_id,
{
}

/// Where just one thing is wrong with a sender, it is told.
pub proof fn lemma_sender_problems(state: NodeRuntimeState, request: InitSenderRequest)
    ensures
        ({
            let a = text::is_blank_spec(request.channel_id@);
            let b = state::current_problem(state, request.run_id@) is Some;
            &&& a && !b ==> sender_problem(state, request) == Some("sender channel_id must not be empty"@)
            &&& !a ==> sender_problem(state, request) == state::current_problem(state, request.run_id@)
        }),
{
}

/// Where just one thing is wrong with a receiver, it is told.
pub proof fn lemma_receiver_problems(state: NodeRuntimeState, request: InitReceiverRequest)
    ensures
        ({
            let a = text::is_blank_spec(request.channel_id@);
            let b = text::is_blank_spec(request.consumer_id@);
            let c = consume_mode_spec(request.consume_mode@) is Err;
            let d = state::current_problem(state, request.run_id@) is Some;
            &&& a && !b && !c && !d ==> receiver_problem(state, request) == Some("receiver channel_id must not be empty"@)
            &&& b && !a && !c && !d ==> receiver_problem(state, request) == Some("receiver consumer_id must not be empty"@)
            &&& c && !a && !b && !d ==> receiver_problem(state, request) == Some(consume_mode_spec(request.consume_mode@)->Err_0)
            &&& !a && !b && !c ==> receiver_problem(state, request) == state::current_problem(state, request.run_id@)
        }),
{
}

} // verus!
