//! Blobs on a node: puts of generated payloads, gets, and paced gets whose references arrive in
//! chunks.
use crate::binary64::Real;
use crate::naming;
use crate::native::Json;
use crate::paced::PacedTaskRunReport;
use crate::protocol::{
    BlobGetResult, BlobPutResult, PacedBlobGetRequest, PacedBlobGetResult,
    PrepareBlobGetAppendRequest, PrepareBlobGetBeginRequest, PrepareBlobGetFinishRequest,
    PutBlobBatchRequest, StartPreparedBlobGetRequest,
};
use crate::resources;
use crate::retry;
use crate::state;
use crate::state::{ExprState, NodeRuntimeState, PreparedPacedBlobGet, StagedPacedBlobGet};
use crate::text;
use vstd::prelude::*;
use vstd::string::*;

verus! {

// ---------------------------------------------------------------------------------------------
// Lookup by plan id
// ---------------------------------------------------------------------------------------------
/// The plan ids of what is staged.
pub open spec fn staged_ids(s: Seq<StagedPacedBlobGet>) -> Seq<Seq<char>> {
    s.map_values(|p: StagedPacedBlobGet| p.plan_id@)
}

/// The plan ids of what is prepared.
pub open spec fn prepared_ids(s: Seq<PreparedPacedBlobGet>) -> Seq<Seq<char>> {
    s.map_values(|p: PreparedPacedBlobGet| p.plan_id@)
}

/// Where an id stands.
pub open spec fn place_from(ids: Seq<Seq<char>>, id: Seq<char>, i: int) -> Option<int>
    decreases ids.len() - i,
{
    if i < 0 || i >= ids.len() {
        None
    } else if ids[i] == id {
        Some(i)
    } else {
        place_from(ids, id, i + 1)
    }
}

pub open spec fn place_of(ids: Seq<Seq<char>>, id: Seq<char>) -> Option<int> {
    place_from(ids, id, 0)
}

proof fn lemma_place_from(ids: Seq<Seq<char>>, id: Seq<char>, i: int)
    requires
        0 <= i <= ids.len(),
    ensures
        match place_from(ids, id, i) {
            Some(j) => {
                &&& i <= j < ids.len()
                &&& ids[j] == id
                &&& forall|k: int| i <= k < j ==> #[trigger] ids[k] != id
            },
            None => forall|k: int| i <= k < ids.len() ==> #[trigger] ids[k] != id,
        },
    decreases ids.len() - i,
{
    if i < ids.len() && ids[i] != id {
        lemma_place_from(ids, id, i + 1);
    }
}

/// A place holds the id, and no id without a place occurs.
pub proof fn lemma_place_of(ids: Seq<Seq<char>>, id: Seq<char>)
    ensures
        match place_of(ids, id) {
            Some(j) => 0 <= j < ids.len() && ids[j] == id,
            None => forall|k: int| 0 <= k < ids.len() ==> #[trigger] ids[k] != id,
        },
{
    lemma_place_from(ids, id, 0);
}

fn staged_place(staging: &Vec<StagedPacedBlobGet>, id: &str) -> (r: Option<usize>)
    ensures
        match r {
            Some(i) => i < staging@.len() && place_of(staged_ids(staging@), id@) == Some(i as int),
            None => place_of(staged_ids(staging@), id@) is None,
        },
{
    let mut i: usize = 0;
    while i < staging.len()
        invariant
            i <= staging@.len(),
            place_of(staged_ids(staging@), id@) == place_from(staged_ids(staging@), id@, i as int),
        decreases staging.len() - i,
    {
        assert(staged_ids(staging@)[i as int] == staging@[i as int].plan_id@);
        if text::same(staging[i].plan_id.as_str(), id) {
            return Some(i);
        }
        i = i + 1;
    }
    None
}

fn prepared_place(plans: &Vec<PreparedPacedBlobGet>, id: &str) -> (r: Option<usize>)
    ensures
        match r {
            Some(i) => i < plans@.len() && place_of(prepared_ids(plans@), id@) == Some(i as int),
            None => place_of(prepared_ids(plans@), id@) is None,
        },
{
    let mut i: usize = 0;
    while i < plans.len()
        invariant
            i <= plans@.len(),
            place_of(prepared_ids(plans@), id@) == place_from(prepared_ids(plans@), id@, i as int),
        decreases plans.len() - i,
    {
        assert(prepared_ids(plans@)[i as int] == plans@[i as int].plan_id@);
        if text::same(plans[i].plan_id.as_str(), id) {
            return Some(i);
        }
        i = i + 1;
    }
    None
}

/// What is staged under a plan id.
pub open spec fn staged(s: Seq<StagedPacedBlobGet>, id: Seq<char>) -> Option<StagedPacedBlobGet> {
    match place_of(staged_ids(s), id) {
        Some(i) => Some(s[i]),
        None => None,
    }
}

/// What is prepared under a plan id.
pub open spec fn prepared(s: Seq<PreparedPacedBlobGet>, id: Seq<char>) -> Option<
    PreparedPacedBlobGet,
> {
    match place_of(prepared_ids(s), id) {
        Some(i) => Some(s[i]),
        None => None,
    }
}

/// The staged plans with `p` under its id, in place of an earlier one.
pub open spec fn with_staged(s: Seq<StagedPacedBlobGet>, p: StagedPacedBlobGet) -> Seq<
    StagedPacedBlobGet,
> {
    match place_of(staged_ids(s), p.plan_id@) {
        Some(i) => s.update(i, p),
        None => s.push(p),
    }
}

/// The staged plans without the one under `id`.
pub open spec fn without_staged(s: Seq<StagedPacedBlobGet>, id: Seq<char>) -> Seq<
    StagedPacedBlobGet,
> {
    match place_of(staged_ids(s), id) {
        Some(i) => s.remove(i),
        None => s,
    }
}

/// The prepared plans with `p` under its id, in place of an earlier one.
pub open spec fn with_prepared(s: Seq<PreparedPacedBlobGet>, p: PreparedPacedBlobGet) -> Seq<
    PreparedPacedBlobGet,
> {
    match place_of(prepared_ids(s), p.plan_id@) {
        Some(i) => s.update(i, p),
        None => s.push(p),
    }
}

/// The prepared plans without the one under `id`.
pub open spec fn without_prepared(s: Seq<PreparedPacedBlobGet>, id: Seq<char>) -> Seq<
    PreparedPacedBlobGet,
> {
    match place_of(prepared_ids(s), id) {
        Some(i) => s.remove(i),
        None => s,
    }
}

// ---------------------------------------------------------------------------------------------
// Staging the references of a paced get
// ---------------------------------------------------------------------------------------------
pub open spec fn begin_problem(state: NodeRuntimeState, r: PrepareBlobGetBeginRequest) -> Option<
    Seq<char>,
> {
    if text::is_blank_spec(r.plan_id@) {
        Some("plan_id must not be empty"@)
    } else if r.expected_ref_count == 0 {
        Some("expected_ref_count must be greater than zero"@)
    } else if !r.target_ops_per_s.is_positive_spec() {
        Some("target_ops_per_s must be a finite positive number"@)
    } else if r.max_in_flight == 0 {
        Some("max_in_flight must be greater than zero"@)
    } else {
        state::current_problem(state, r.run_id@)
    }
}

pub open spec fn append_problem(state: NodeRuntimeState, r: PrepareBlobGetAppendRequest) -> Option<
    Seq<char>,
> {
    if r.refs@.len() == 0 {
        Some("refs chunk must not be empty"@)
    } else if state::current_problem(state, r.run_id@) is Some {
        state::current_problem(state, r.run_id@)
    } else {
        match staged(state.current->0.paced_get_staging@, r.plan_id@) {
            None => Some("unknown paced get staging plan_id="@ + r.plan_id@),
            Some(p) => if r.chunk_index != p.next_chunk_index {
                Some(
                    "unexpected refs chunk_index="@ + text::dec(r.chunk_index as nat)
                        + " for plan_id="@ + r.plan_id@ + ", expected "@ + text::dec(
                        p.next_chunk_index as nat,
                    ),
                )
            } else if p.refs@.len() + r.refs@.len() > p.expected_ref_count {
                Some(
                    "refs chunks for plan_id="@ + r.plan_id@ + " exceed expected_ref_count="@
                        + text::dec(p.expected_ref_count as nat),
                )
            } else {
                None
            },
        }
    }
}

/// Why a staging cannot be taken for finishing.
pub open spec fn finish_problem(state: NodeRuntimeState, r: PrepareBlobGetFinishRequest) -> Option<
    Seq<char>,
> {
    if state::current_problem(state, r.run_id@) is Some {
        state::current_problem(state, r.run_id@)
    } else if state.current->0.blob_store is None {
        Some("prepare_blob_get_finish requires initialized blob_store state"@)
    } else if staged(state.current->0.paced_get_staging@, r.plan_id@) is None {
        Some("unknown paced get staging plan_id="@ + r.plan_id@)
    } else {
        None
    }
}

/// Why a staging that was taken cannot become a plan.
pub open spec fn count_problem(p: StagedPacedBlobGet) -> Option<Seq<char>> {
    if p.refs@.len() != p.expected_ref_count {
        Some(
            "paced get plan_id="@ + p.plan_id@ + " received "@ + text::dec(p.refs@.len())
                + " refs, expected "@ + text::dec(p.expected_ref_count as nat),
        )
    } else {
        None
    }
}

/// A staging taken for finishing, with the directory and the store of its run.
#[derive(Debug)]
pub struct TakenStaging {
    pub run_dir: String,
    pub store: u64,
    pub staging: StagedPacedBlobGet,
}

impl NodeRuntimeState {
    /// Opens a staging for the references of a paced get.
    pub fn prepare_blob_get_begin(&mut self, request: PrepareBlobGetBeginRequest) -> (r: Result<
        (),
        String,
    >)
        requires
            old(self).wf(),
            old(self).can_advance(),
        ensures
            final(self).wf(),
            match r {
                Err(m) => begin_problem(*old(self), request) == Some(m@) && *final(self) == *old(
                    self,
                ),
                Ok(_) => {
                    let a = old(self).current->0;
                    let b = final(self).current->0;
                    &&& begin_problem(*old(self), request) is None
                    &&& resources::run_changed(*old(self), *final(self), a, b)
                    &&& b == (ExprState {
                        paced_get_staging: b.paced_get_staging,
                        phase: b.phase,
                        ..a
                    })
                    &&& b.phase@ == "blob_paced_get_staging"@
                    &&& exists|p: StagedPacedBlobGet|
                        {
                            &&& b.paced_get_staging@ == #[trigger] with_staged(
                                a.paced_get_staging@,
                                p,
                            )
                            &&& p.plan_id == request.plan_id
                            &&& p.expected_ref_count == request.expected_ref_count
                            &&& p.target_ops_per_s == request.target_ops_per_s
                            &&& p.max_in_flight == request.max_in_flight
                            &&& p.refs@.len() == 0
                            &&& p.next_chunk_index == 0
                        }
                },
            },
    {
        if text::is_blank(request.plan_id.as_str()) {
            return Err("plan_id must not be empty".to_owned());
        }
        if request.expected_ref_count == 0 {
            return Err("expected_ref_count must be greater than zero".to_owned());
        }
        if !request.target_ops_per_s.is_positive() {
            return Err("target_ops_per_s must be a finite positive number".to_owned());
        }
        if request.max_in_flight == 0 {
            return Err("max_in_flight must be greater than zero".to_owned());
        }
        if let Err(m) = state::current_expr(self, request.run_id.as_str()) {
            return Err(m);
        }
        if let Some(current) = &mut self.current {
            let ghost before = current.paced_get_staging@;
            let place = staged_place(&current.paced_get_staging, request.plan_id.as_str());
            let p = StagedPacedBlobGet {
                plan_id: request.plan_id,
                expected_ref_count: request.expected_ref_count,
                target_ops_per_s: request.target_ops_per_s,
                max_in_flight: request.max_in_flight,
                refs: Vec::new(),
                next_chunk_index: 0,
            };
            let ghost kept = p;
            proof {
                lemma_place_of(staged_ids(before), p.plan_id@);
                assert forall|k: int| 0 <= k < before.len() implies #[trigger] before[k].plan_id@
                    == staged_ids(before)[k] by {}
            }
            match place {
                Some(i) => {
                    current.paced_get_staging.set(i, p);
                },
                None => {
                    current.paced_get_staging.push(p);
                },
            }
            assert(current.paced_get_staging@ == with_staged(before, kept));
            current.phase = "blob_paced_get_staging".to_owned();
        }
        self.generation = self.generation + 1;
        Ok(())
    }

    /// Adds the next chunk of references to a staging.
    pub fn prepare_blob_get_append(&mut self, request: PrepareBlobGetAppendRequest) -> (r: Result<
        (),
        String,
    >)
        requires
            old(self).wf(),
            old(self).can_advance(),
        ensures
            final(self).wf(),
            match r {
                Err(m) => append_problem(*old(self), request) == Some(m@) && *final(self) == *old(
                    self,
                ),
                Ok(_) => {
                    let a = old(self).current->0;
                    let b = final(self).current->0;
                    let was = staged(a.paced_get_staging@, request.plan_id@)->0;
                    &&& append_problem(*old(self), request) is None
                    &&& resources::run_changed(*old(self), *final(self), a, b)
                    &&& b == (ExprState {
                        paced_get_staging: b.paced_get_staging,
                        phase: b.phase,
                        ..a
                    })
                    &&& b.phase@ == "blob_paced_get_staging"@
                    &&& exists|p: StagedPacedBlobGet|
                        {
                            &&& b.paced_get_staging@ == #[trigger] with_staged(
                                a.paced_get_staging@,
                                p,
                            )
                            &&& p == (StagedPacedBlobGet {
                                refs: p.refs,
                                next_chunk_index: (was.next_chunk_index + 1) as u64,
                                ..was
                            })
                            &&& p.refs@ == was.refs@ + request.refs@
                        }
                },
            },
    {
        if request.refs.len() == 0 {
            return Err("refs chunk must not be empty".to_owned());
        }
        let mut refs = request.refs;
        let i: usize = match state::current_expr(self, request.run_id.as_str()) {
            Err(m) => {
                return Err(m);
            },
            Ok(current) => match staged_place(
                &current.paced_get_staging,
                request.plan_id.as_str(),
            ) {
                None => {
                    return Err(
                        text::cat2("unknown paced get staging plan_id=", request.plan_id.as_str()),
                    );
                },
                Some(i) => {
                    let plan = &current.paced_get_staging[i];
                    assert(plan.wf());
                    if request.chunk_index != plan.next_chunk_index {
                        return Err(
                            text::cat6(
                                "unexpected refs chunk_index=",
                                text::decimal(request.chunk_index).as_str(),
                                " for plan_id=",
                                request.plan_id.as_str(),
                                ", expected ",
                                text::decimal(plan.next_chunk_index).as_str(),
                            ),
                        );
                    }
                    if plan.expected_ref_count - plan.refs.len() < refs.len() {
                        return Err(
                            text::cat4(
                                "refs chunks for plan_id=",
                                request.plan_id.as_str(),
                                " exceed expected_ref_count=",
                                text::decimal(plan.expected_ref_count as u64).as_str(),
                            ),
                        );
                    }
                    i
                },
            },
        };
        if let Some(current) = &mut self.current {
            let ghost before = current.paced_get_staging@;
            let ghost was = before[i as int];
            proof {
                lemma_place_of(staged_ids(before), request.plan_id@);
                assert(staged_ids(before)[i as int] == was.plan_id@);
            }
            current.paced_get_staging[i].refs.append(&mut refs);
            let next: u64 = current.paced_get_staging[i].next_chunk_index + 1;
            current.paced_get_staging[i].next_chunk_index = next;
            let ghost p = current.paced_get_staging@[i as int];
            assert(current.paced_get_staging@ =~= before.update(i as int, p));
            assert(current.paced_get_staging@ == with_staged(before, p));
            current.phase = "blob_paced_get_staging".to_owned();
        }
        self.generation = self.generation + 1;
        Ok(())
    }

    /// Takes a staging out for finishing. It is gone even where its references are incomplete.
    pub fn take_staging(&mut self, request: &PrepareBlobGetFinishRequest) -> (r: Result<
        TakenStaging,
        String,
    >)
        requires
            old(self).wf(),
        ensures
            final(self).wf(),
            match finish_problem(*old(self), *request) {
                Some(problem) => (r matches Err(m) && m@ == problem) && *final(self) == *old(self),
                None => {
                    let a = old(self).current->0;
                    let b = final(self).current->0;
                    let taken = staged(a.paced_get_staging@, request.plan_id@)->0;
                    &&& *final(self) == (NodeRuntimeState {
                        current: Some(ExprState { paced_get_staging: b.paced_get_staging, ..a }),
                        ..*old(self)
                    })
                    &&& b.paced_get_staging@ == without_staged(
                        a.paced_get_staging@,
                        request.plan_id@,
                    )
                    &&& match count_problem(taken) {
                        Some(problem) => r matches Err(m) && m@ == problem,
                        None => r matches Ok(t) && t.run_dir == a.run_dir && t.store
                            == a.blob_store->0.handle && t.staging == taken,
                    }
                },
            },
    {
        let mut place: usize = 0;
        let mut store: u64 = 0;
        match state::current_expr(self, request.run_id.as_str()) {
            Err(m) => {
                return Err(m);
            },
            Ok(current) => {
                match &current.blob_store {
                    None => {
                        return Err(
                            "prepare_blob_get_finish requires initialized blob_store state".to_owned(),
                        );
                    },
                    Some(s) => {
                        store = s.handle;
                    },
                }
                match staged_place(&current.paced_get_staging, request.plan_id.as_str()) {
                    None => {
                        return Err(
                            text::cat2(
                                "unknown paced get staging plan_id=",
                                request.plan_id.as_str(),
                            ),
                        );
                    },
                    Some(i) => {
                        place = i;
                    },
                }
            },
        }
        let mut taken: Option<TakenStaging> = None;
        if let Some(current) = &mut self.current {
            proof {
                lemma_place_of(staged_ids(current.paced_get_staging@), request.plan_id@);
            }
            let staging = current.paced_get_staging.remove(place);
            taken = Some(TakenStaging { run_dir: current.run_dir.clone(), store, staging });
        }
        match taken {
            Some(t) => {
                if t.staging.refs.len() != t.staging.expected_ref_count {
                    Err(
                        text::cat6(
                            "paced get plan_id=",
                            t.staging.plan_id.as_str(),
                            " received ",
                            text::decimal(t.staging.refs.len() as u64).as_str(),
                            " refs, expected ",
                            text::decimal(t.staging.expected_ref_count as u64).as_str(),
                        ),
                    )
                } else {
                    Ok(t)
                }
            },
            None => Err(String::new()),
        }
    }

    /// Keeps a plan that is ready to start.
    pub fn install_plan(&mut self, run_id: &str, plan: PreparedPacedBlobGet) -> (r: Result<
        (),
        String,
    >)
        requires
            old(self).wf(),
            old(self).can_advance(),
        ensures
            final(self).wf(),
            match r {
                Err(m) => state::current_problem(*old(self), run_id@) == Some(m@) && *final(self)
                    == *old(self),
                Ok(_) => {
                    let a = old(self).current->0;
                    let b = final(self).current->0;
                    &&& state::current_problem(*old(self), run_id@) is None
                    &&& resources::run_changed(*old(self), *final(self), a, b)
                    &&& b == (ExprState {
                        paced_get_plans: b.paced_get_plans,
                        phase: b.phase,
                        ..a
                    })
                    &&& b.phase@ == "blob_paced_get_ready"@
                    &&& b.paced_get_plans@ == with_prepared(a.paced_get_plans@, plan)
                },
            },
    {
        if let Err(m) = state::current_expr(self, run_id) {
            return Err(m);
        }
        if let Some(current) = &mut self.current {
            let ghost before = current.paced_get_plans@;
            proof {
                lemma_place_of(prepared_ids(before), plan.plan_id@);
                assert forall|k: int| 0 <= k < before.len() implies #[trigger] before[k].plan_id@
                    == prepared_ids(before)[k] by {}
            }
            match prepared_place(&current.paced_get_plans, plan.plan_id.as_str()) {
                Some(i) => {
                    current.paced_get_plans.set(i, plan);
                },
                None => {
                    current.paced_get_plans.push(plan);
                },
            }
            current.phase = "blob_paced_get_ready".to_owned();
        }
        self.generation = self.generation + 1;
        Ok(())
    }

    /// Takes a prepared plan out to start it.
    pub fn take_plan(&mut self, request: &StartPreparedBlobGetRequest) -> (r: Result<
        PreparedPacedBlobGet,
        String,
    >)
        requires
            old(self).wf(),
            old(self).can_advance(),
        ensures
            final(self).wf(),
            match start_problem(*old(self), *request) {
                Some(problem) => (r matches Err(m) && m@ == problem) && *final(self) == *old(self),
                None => {
                    let a = old(self).current->0;
                    let b = final(self).current->0;
                    &&& r matches Ok(plan)
                    &&& prepared(a.paced_get_plans@, request.plan_id@) == Some(plan)
                    &&& resources::run_changed(*old(self), *final(self), a, b)
                    &&& b == (ExprState {
                        paced_get_plans: b.paced_get_plans,
                        phase: b.phase,
                        ..a
                    })
                    &&& b.phase@ == "blob_paced_get_armed"@
                    &&& b.paced_get_plans@ == without_prepared(a.paced_get_plans@, request.plan_id@)
                },
            },
    {
        let mut place: usize = 0;
        match state::current_expr(self, request.run_id.as_str()) {
            Err(m) => {
                return Err(m);
            },
            Ok(current) => match prepared_place(
                &current.paced_get_plans,
                request.plan_id.as_str(),
            ) {
                None => {
                    return Err(
                        text::cat2("unknown prepared paced get plan_id=", request.plan_id.as_str()),
                    );
                },
                Some(i) => {
                    place = i;
                },
            },
        }
        let mut taken: Option<PreparedPacedBlobGet> = None;
        if let Some(current) = &mut self.current {
            taken = Some(current.paced_get_plans.remove(place));
            current.phase = "blob_paced_get_armed".to_owned();
        }
        self.generation = self.generation + 1;
        match taken {
            Some(plan) => Ok(plan),
            None => Err(String::new()),
        }
    }
}

/// Why a prepared get cannot start.
pub open spec fn start_problem(state: NodeRuntimeState, r: StartPreparedBlobGetRequest) -> Option<
    Seq<char>,
> {
    if state::current_problem(state, r.run_id@) is Some {
        state::current_problem(state, r.run_id@)
    } else if prepared(state.current->0.paced_get_plans@, r.plan_id@) is None {
        Some("unknown prepared paced get plan_id="@ + r.plan_id@)
    } else {
        None
    }
}

/// What is kept under a plan id is found under it, and nothing else changes.
pub proof fn lemma_staged_is_found(
    s: Seq<StagedPacedBlobGet>,
    p: StagedPacedBlobGet,
    id: Seq<char>,
)
    ensures
        staged(with_staged(s, p), id) == if id == p.plan_id@ {
            Some(p)
        } else {
            staged(s, id)
        },
{
    let t = with_staged(s, p);
    lemma_place_of(staged_ids(s), p.plan_id@);
    lemma_place_of(staged_ids(s), id);
    lemma_place_of(staged_ids(t), id);
    lemma_place_from(staged_ids(s), p.plan_id@, 0);
    lemma_place_from(staged_ids(s), id, 0);
    lemma_place_from(staged_ids(t), id, 0);
    assert forall|k: int| 0 <= k < s.len() implies #[trigger] staged_ids(t)[k] == staged_ids(
        s,
    )[k] by {}
    if t.len() > s.len() {
        assert(staged_ids(t)[s.len() as int] == p.plan_id@);
    }
    let ids = staged_ids(t);
    match (place_of(staged_ids(s), id), place_of(ids, id)) {
        (Some(i), Some(j)) => {
            if i < j {
                assert(ids[i] != id);
            } else if j < i {
                assert(staged_ids(s)[j] != id);
            }
        },
        (Some(i), None) => {
            assert(ids[i] != id);
        },
        (None, Some(j)) => {
            if j < s.len() {
                assert(staged_ids(s)[j] != id);
            }
        },
        (None, None) => {
            if t.len() > s.len() {
                assert(ids[s.len() as int] != id);
            }
        },
    }
}

// ---------------------------------------------------------------------------------------------
// Checks on requests
// ---------------------------------------------------------------------------------------------
pub open spec fn put_problem(r: PutBlobBatchRequest) -> Option<Seq<char>> {
    if r.count == 0 {
        Some("blob batch count must be greater than zero"@)
    } else if r.object_size_bytes == 0 {
        Some("object_size_bytes must be greater than zero"@)
    } else if r.max_in_flight == 0 {
        Some("put_blob_batch max_in_flight must be greater than zero"@)
    } else {
        None
    }
}

pub fn check_put_batch(request: &PutBlobBatchRequest) -> (r: Result<(), String>)
    ensures
        match r {
            Ok(_) => put_problem(*request) is None,
            Err(m) => put_problem(*request) == Some(m@),
        },
{
    if request.count == 0 {
        Err("blob batch count must be greater than zero".to_owned())
    } else if request.object_size_bytes == 0 {
        Err("object_size_bytes must be greater than zero".to_owned())
    } else if request.max_in_flight == 0 {
        Err("put_blob_batch max_in_flight must be greater than zero".to_owned())
    } else {
        Ok(())
    }
}

/// The bytes of a batch.
pub fn put_total_bytes(request: &PutBlobBatchRequest) -> (r: Result<u64, String>)
    ensures
        match r {
            Ok(total) => total == request.object_size_bytes * request.count,
            Err(m) => request.object_size_bytes * request.count > u64::MAX && m@
                == "blob put total bytes overflowed u64"@,
        },
{
    match request.object_size_bytes.checked_mul(request.count as u64) {
        Some(total) => Ok(total),
        None => Err("blob put total bytes overflowed u64".to_owned()),
    }
}

/// Whether the staged payloads are removed once they are put: a local file store keeps them.
pub fn cleanup_payloads_after_put(backend: &str) -> (r: bool)
    ensures
        r == (backend@ != "local-file"@),
{
    !text::same(backend, "local-file")
}

pub open spec fn paced_get_problem(r: PacedBlobGetRequest) -> Option<Seq<char>> {
    if r.refs@.len() == 0 {
        Some("paced blob get requires at least one blob ref"@)
    } else if !r.target_ops_per_s.is_positive_spec() {
        Some("target_ops_per_s must be a finite positive number"@)
    } else if r.max_in_flight == 0 {
        Some("max_in_flight must be greater than zero"@)
    } else {
        None
    }
}

pub fn check_paced_get(request: &PacedBlobGetRequest) -> (r: Result<(), String>)
    ensures
        match r {
            Ok(_) => paced_get_problem(*request) is None,
            Err(m) => paced_get_problem(*request) == Some(m@),
        },
{
    if request.refs.len() == 0 {
        Err("paced blob get requires at least one blob ref".to_owned())
    } else if !request.target_ops_per_s.is_positive() {
        Err("target_ops_per_s must be a finite positive number".to_owned())
    } else if request.max_in_flight == 0 {
        Err("max_in_flight must be greater than zero".to_owned())
    } else {
        Ok(())
    }
}

// ---------------------------------------------------------------------------------------------
// A batch of puts
// ---------------------------------------------------------------------------------------------
/// How many of the first places are filled.
pub open spec fn filled(s: Seq<Option<u64>>) -> nat
    decreases s.len(),
{
    if s.len() == 0 {
        0
    } else {
        filled(s.drop_last()) + if s.last() is Some {
            1nat
        } else {
            0nat
        }
    }
}

proof fn lemma_filled_bound(s: Seq<Option<u64>>)
    ensures
        filled(s) <= s.len(),
        filled(s) == s.len() ==> forall|i: int| 0 <= i < s.len() ==> #[trigger] s[i] is Some,
    decreases s.len(),
{
    if s.len() > 0 {
        lemma_filled_bound(s.drop_last());
        assert forall|i: int| filled(s) == s.len() && 0 <= i < s.len() implies #[trigger] s[i] is Some by {
            if i < s.len() - 1 {
                assert(s.drop_last()[i] is Some);
            }
        }
    }
}

proof fn lemma_filled_update(s: Seq<Option<u64>>, i: int, v: u64)
    requires
        0 <= i < s.len(),
        s[i] is None,
    ensures
        filled(s.update(i, Some(v))) == filled(s) + 1,
    decreases s.len(),
{
    let t = s.update(i, Some(v));
    if i < s.len() - 1 {
        lemma_filled_update(s.drop_last(), i, v);
        assert(t.drop_last() =~= s.drop_last().update(i, Some(v)));
    } else {
        assert(t.drop_last() =~= s.drop_last());
    }
}

proof fn lemma_filled_none(s: Seq<Option<u64>>)
    requires
        forall|i: int| 0 <= i < s.len() ==> #[trigger] s[i] is None,
    ensures
        filled(s) == 0,
    decreases s.len(),
{
    if s.len() > 0 {
        assert forall|i: int| 0 <= i < s.drop_last().len() implies #[trigger] s.drop_last()[i] is None by {
            assert(s[i] is None);
        }
        lemma_filled_none(s.drop_last());
    }
}

/// A batch of puts, several of them under way at a time. Each put gives a payload path and the
/// number of the reference it made.
#[derive(Debug)]
pub struct PutBatch {
    pub refs: Vec<Option<u64>>,
    pub paths: Vec<Option<String>>,
    pub next_index: usize,
    pub in_flight: usize,
    pub max_in_flight: usize,
}

impl PutBatch {
    pub open spec fn wf(self) -> bool {
        &&& self.paths@.len() == self.refs@.len()
        &&& self.next_index <= self.refs@.len()
        &&& self.in_flight <= self.max_in_flight
        &&& self.in_flight + filled(self.refs@) == self.next_index
        &&& forall|i: int|
            self.next_index <= i < self.refs@.len() ==> #[trigger] self.refs@[i] is None
        &&& forall|i: int|
            0 <= i < self.refs@.len() ==> ((#[trigger] self.refs@[i]) is Some
                <==> self.paths@[i] is Some)
    }

    pub fn new(count: usize, max_in_flight: usize) -> (r: PutBatch)
        ensures
            r.wf(),
            r.refs@ == Seq::new(count as nat, |i: int| None::<u64>),
            r.next_index == 0,
            r.in_flight == 0,
            r.max_in_flight == max_in_flight,
    {
        let mut refs: Vec<Option<u64>> = Vec::new();
        let mut paths: Vec<Option<String>> = Vec::new();
        let mut i: usize = 0;
        while i < count
            invariant
                i <= count,
                refs@.len() == i,
                paths@.len() == i,
                forall|j: int| 0 <= j < i ==> #[trigger] refs@[j] is None,
                forall|j: int| 0 <= j < i ==> #[trigger] paths@[j] is None,
            decreases count - i,
        {
            refs.push(None);
            paths.push(None);
            i = i + 1;
        }
        proof {
            lemma_filled_none(refs@);
        }
        assert(refs@ =~= Seq::new(count as nat, |i: int| None::<u64>));
        PutBatch { refs, paths, next_index: 0, in_flight: 0, max_in_flight }
    }

    /// Every put has been started and has completed.
    pub open spec fn done_spec(self) -> bool {
        self.next_index == self.refs@.len() && self.in_flight == 0
    }

    pub fn is_done(&self) -> (r: bool)
        requires
            self.wf(),
        ensures
            r == self.done_spec(),
    {
        self.next_index >= self.refs.len() && self.in_flight == 0
    }

    /// The index of the next put to start, while there is one and fewer than the most are under way.
    pub fn start_next(&mut self) -> (r: Option<usize>)
        requires
            old(self).wf(),
        ensures
            final(self).wf(),
            match r {
                Some(i) => {
                    &&& i == old(self).next_index
                    &&& i < old(self).refs@.len()
                    &&& old(self).in_flight < old(self).max_in_flight
                    &&& *final(self) == (PutBatch {
                        next_index: (i + 1) as usize,
                        in_flight: (old(self).in_flight + 1) as usize,
                        ..*old(self)
                    })
                },
                None => {
                    &&& old(self).next_index == old(self).refs@.len() || old(self).in_flight
                        == old(self).max_in_flight
                    &&& *final(self) == *old(self)
                },
            },
    {
        if self.next_index < self.refs.len() && self.in_flight < self.max_in_flight {
            let i: usize = self.next_index;
            self.next_index = i + 1;
            self.in_flight = self.in_flight + 1;
            Some(i)
        } else {
            None
        }
    }

    /// Records a put that completed.
    pub fn complete(&mut self, index: usize, path: String, reference: u64)
        requires
            old(self).wf(),
            index < old(self).next_index,
            old(self).refs@[index as int] is None,
        ensures
            final(self).wf(),
            final(self).refs@ == old(self).refs@.update(index as int, Some(reference)),
            final(self).paths@ == old(self).paths@.update(index as int, Some(path)),
            final(self).next_index == old(self).next_index,
            final(self).in_flight == old(self).in_flight - 1,
            final(self).max_in_flight == old(self).max_in_flight,
    {
        proof {
            lemma_filled_update(self.refs@, index as int, reference);
            lemma_filled_prefix(
                self.refs@.update(index as int, Some(reference)),
                self.next_index as int,
            );
        }
        self.refs.set(index, Some(reference));
        self.paths.set(index, Some(path));
        self.in_flight = self.in_flight - 1;
    }

    /// The references and the paths in the order of the payloads.
    pub fn finish(self) -> (r: Result<(Vec<u64>, Vec<String>), String>)
        requires
            self.wf(),
        ensures
            match r {
                Ok((refs, paths)) => {
                    &&& refs@.len() == self.refs@.len() && paths@.len() == self.refs@.len()
                    &&& forall|i: int|
                        0 <= i < refs@.len() ==> self.refs@[i] == Some(#[trigger] refs@[i])
                    &&& forall|i: int|
                        0 <= i < paths@.len() ==> self.paths@[i] == Some(#[trigger] paths@[i])
                },
                Err(m) => exists|i: int|
                    {
                        &&& 0 <= i < self.refs@.len()
                        &&& #[trigger] self.refs@[i] is None
                        &&& forall|j: int| 0 <= j < i ==> #[trigger] self.refs@[j] is Some
                        &&& m@ == "missing blob ref for payload index "@ + text::dec(i as nat)
                    },
            },
            self.done_spec() ==> r is Ok,
    {
        let mut refs: Vec<u64> = Vec::new();
        let mut paths: Vec<String> = Vec::new();
        let mut i: usize = 0;
        proof {
            lemma_filled_bound(self.refs@);
        }
        while i < self.refs.len()
            invariant
                self.wf(),
                self.done_spec() ==> forall|j: int|
                    0 <= j < self.refs@.len() ==> #[trigger] self.refs@[j] is Some,
                i <= self.refs@.len(),
                refs@.len() == i,
                paths@.len() == i,
                forall|j: int| 0 <= j < i ==> self.refs@[j] == Some(#[trigger] refs@[j]),
                forall|j: int| 0 <= j < i ==> self.paths@[j] == Some(#[trigger] paths@[j]),
            decreases self.refs.len() - i,
        {
            match self.refs[i] {
                Some(reference) => {
                    refs.push(reference);
                },
                None => {
                    assert(self.refs@[i as int] is None);
                    assert forall|j: int| 0 <= j < i implies #[trigger] self.refs@[j] is Some by {
                        assert(self.refs@[j] == Some(refs@[j]));
                    }
                    return Err(
                        text::cat2(
                            "missing blob ref for payload index ",
                            text::decimal(i as u64).as_str(),
                        ),
                    );
                },
            }
            match &self.paths[i] {
                Some(path) => {
                    paths.push(path.clone());
                },
                None => {},
            }
            i = i + 1;
        }
        Ok((refs, paths))
    }
}

proof fn lemma_filled_prefix(s: Seq<Option<u64>>, n: int)
    requires
        0 <= n <= s.len(),
        forall|i: int| n <= i < s.len() ==> #[trigger] s[i] is None,
    ensures
        filled(s) <= n,
    decreases s.len(),
{
    if n < s.len() {
        assert(s[s.len() - 1] is None);
        assert forall|i: int| n <= i < s.drop_last().len() implies #[trigger] s.drop_last()[i] is None by {
            assert(s[i] is None);
        }
        lemma_filled_prefix(s.drop_last(), n);
    } else {
        lemma_filled_bound(s);
    }
}

/// What is reported of a payload that could not be put.
pub fn put_failed(path: &str, last_error: &str) -> (r: String)
    ensures
        r@ == "failed to put payload "@ + path@ + " after "@ + text::dec(
            retry::PUT_MAX_ATTEMPTS as nat,
        ) + " attempts: "@ + last_error@,
{
    text::cat6(
        "failed to put payload ",
        path,
        " after ",
        text::decimal(retry::PUT_MAX_ATTEMPTS as u64).as_str(),
        " attempts: ",
        last_error,
    )
}

// ---------------------------------------------------------------------------------------------
// Files
// ---------------------------------------------------------------------------------------------
/// The name of a batch: its kind and the time it began.
pub open spec fn batch_id_spec(prefix: Seq<char>, nanos: nat) -> Seq<char> {
    prefix + "-"@ + text::dec(nanos)
}

pub fn unique_batch_id(prefix: &str, nanos: u128) -> (r: String)
    ensures
        r@ == batch_id_spec(prefix@, nanos as nat),
{
    text::cat3(prefix, "-", text::decimal_u128(nanos).as_str())
}

/// The directory of a batch below the directory `kind` of its run.
pub fn batch_dir(run_dir: &str, kind: &str, prefix: &str, nanos: u128) -> (r: String)
    ensures
        r@ == naming::path_join_spec(
            naming::path_join_spec(run_dir@, kind@),
            batch_id_spec(prefix@, nanos as nat),
        ),
{
    let dir = naming::path_join(run_dir, kind);
    let id = unique_batch_id(prefix, nanos);
    naming::path_join(dir.as_str(), id.as_str())
}

/// A numbered file in a directory.
pub open spec fn numbered_file_spec(dir: Seq<char>, stem: Seq<char>, index: nat, width: nat) -> Seq<
    char,
> {
    naming::path_join_spec(dir, stem + text::dec_padded(index, width) + ".bin"@)
}

fn numbered_file(dir: &str, stem: &str, index: usize, width: usize) -> (r: String)
    ensures
        r@ == numbered_file_spec(dir@, stem@, index as nat, width as nat),
{
    let name = text::cat3(stem, text::decimal_padded(index as u64, width).as_str(), ".bin");
    naming::path_join(dir, name.as_str())
}

/// The payload file `index` of a put.
pub fn payload_path(dir: &str, index: usize) -> (r: String)
    ensures
        r@ == numbered_file_spec(dir@, "payload_"@, index as nat, 6),
{
    numbered_file(dir, "payload_", index, 6)
}

/// The file that blob `index` of a get is written to.
pub fn fetched_path(dir: &str, index: usize) -> (r: String)
    ensures
        r@ == numbered_file_spec(dir@, "materialized_"@, index as nat, 6),
{
    numbered_file(dir, "materialized_", index, 6)
}

/// The next get of a batch: which it is, the number of its reference, and the file to write.
#[derive(Debug)]
pub struct GetStep {
    pub index: usize,
    pub reference: u64,
    pub path: String,
}

/// A batch of gets, one after the other. The references go by number.
#[derive(Debug)]
pub struct GetBatch {
    pub dir: String,
    pub refs: Vec<u64>,
    pub paths: Vec<String>,
}

impl GetBatch {
    pub open spec fn wf(self) -> bool {
        self.paths@.len() <= self.refs@.len()
    }

    /// Every reference has been fetched.
    pub open spec fn done_spec(self) -> bool {
        self.paths@.len() == self.refs@.len()
    }

    pub fn new(dir: String, refs: Vec<u64>) -> (r: GetBatch)
        ensures
            r.wf(),
            r.dir == dir,
            r.refs == refs,
            r.paths@ == Seq::<String>::empty(),
    {
        GetBatch { dir, refs, paths: Vec::new() }
    }

    /// The next get, while a reference is left.
    pub fn next(&self) -> (r: Option<GetStep>)
        requires
            self.wf(),
        ensures
            match r {
                Some(step) => {
                    &&& !self.done_spec()
                    &&& step.index == self.paths@.len()
                    &&& step.reference == self.refs@[step.index as int]
                    &&& step.path@ == numbered_file_spec(
                        self.dir@,
                        "materialized_"@,
                        step.index as nat,
                        6,
                    )
                },
                None => self.done_spec(),
            },
    {
        let index: usize = self.paths.len();
        if index < self.refs.len() {
            let path = fetched_path(self.dir.as_str(), index);
            Some(GetStep { index, reference: self.refs[index], path })
        } else {
            None
        }
    }

    /// Records what came of the next get: the path of the file, or why there is none.
    pub fn fetched(&mut self, outcome: Result<String, String>) -> (r: Result<(), String>)
        requires
            old(self).wf(),
            !old(self).done_spec(),
        ensures
            final(self).wf(),
            final(self).dir == old(self).dir,
            final(self).refs == old(self).refs,
            match outcome {
                Ok(path) => r is Ok && final(self).paths@ == old(self).paths@.push(path),
                Err(e) => {
                    &&& r matches Err(m)
                    &&& m@ == "failed to materialize blob "@ + text::dec(
                        old(self).paths@.len(),
                    ) + ": "@ + e@
                    &&& final(self).paths@ == old(self).paths@
                },
            },
    {
        match outcome {
            Ok(path) => {
                self.paths.push(path);
                Ok(())
            },
            Err(e) => {
                let index = text::decimal(self.paths.len() as u64);
                let head = text::cat2("failed to materialize blob ", index.as_str());
                Err(text::cat3(head.as_str(), ": ", e.as_str()))
            },
        }
    }

    /// The result of the batch. A batch that is done has a file for every reference.
    pub fn finish(self, total_bytes: u64, elapsed_ms: Real) -> (r: BlobGetResult)
        requires
            self.wf(),
        ensures
            r.materialized_paths == self.paths,
            r.count == self.paths@.len(),
            self.done_spec() ==> r.count == self.refs@.len(),
            r.total_bytes == total_bytes,
            r.elapsed_ms == elapsed_ms,
    {
        BlobGetResult::of(self.paths, total_bytes, elapsed_ms)
    }
}

/// The file that blob `index` of a paced get is written to.
pub fn materialized_path(dir: &str, index: usize) -> (r: String)
    ensures
        r@ == numbered_file_spec(dir@, "materialized_"@, index as nat, 8),
{
    numbered_file(dir, "materialized_", index, 8)
}

/// The files of a paced get.
pub fn materialized_paths(dir: &str, count: usize) -> (r: Vec<String>)
    ensures
        r@.len() == count,
        forall|i: int|
            0 <= i < count ==> (#[trigger] r@[i])@ == numbered_file_spec(
                dir@,
                "materialized_"@,
                i as nat,
                8,
            ),
{
    let mut out: Vec<String> = Vec::new();
    let mut i: usize = 0;
    while i < count
        invariant
            i <= count,
            out@.len() == i,
            forall|j: int|
                0 <= j < i ==> (#[trigger] out@[j])@ == numbered_file_spec(
                    dir@,
                    "materialized_"@,
                    j as nat,
                    8,
                ),
        decreases count - i,
    {
        out.push(materialized_path(dir, i));
        i = i + 1;
    }
    out
}

/// The sum of sizes.
pub open spec fn sum(sizes: Seq<u64>) -> nat
    decreases sizes.len(),
{
    if sizes.len() == 0 {
        0
    } else {
        sum(sizes.drop_last()) + sizes.last() as nat
    }
}

/// The total size of files; one that is too large counts as the largest.
pub fn total_size(sizes: &Vec<u64>) -> (r: u64)
    ensures
        r == if sum(sizes@) > u64::MAX {
            u64::MAX as nat
        } else {
            sum(sizes@)
        },
{
    let mut total: u64 = 0;
    let mut i: usize = 0;
    assert(sizes@.take(0) =~= Seq::<u64>::empty());
    while i < sizes.len()
        invariant
            i <= sizes@.len(),
            total == if sum(sizes@.take(i as int)) > u64::MAX {
                u64::MAX as nat
            } else {
                sum(sizes@.take(i as int))
            },
        decreases sizes.len() - i,
    {
        assert(sizes@.take(i + 1).drop_last() =~= sizes@.take(i as int));
        total = total.saturating_add(sizes[i]);
        i = i + 1;
    }
    assert(sizes@.take(i as int) =~= sizes@);
    total
}

/// How long to wait for a moment: nothing once it has come.
pub fn wait_ns(start_after_unix_ns: u64, now_unix_ns: u64) -> (r: Option<u64>)
    ensures
        r == if start_after_unix_ns <= now_unix_ns {
            None::<u64>
        } else {
            Some((start_after_unix_ns - now_unix_ns) as u64)
        },
{
    if start_after_unix_ns <= now_unix_ns {
        None
    } else {
        Some(start_after_unix_ns - now_unix_ns)
    }
}

// ---------------------------------------------------------------------------------------------
// Results
// ---------------------------------------------------------------------------------------------
impl BlobPutResult {
    pub fn of(refs: Vec<Json>, total_bytes: u64, elapsed_ms: Real) -> (r: BlobPutResult)
        ensures
            r == (BlobPutResult { count: r.count, total_bytes, elapsed_ms, refs }),
            r.count == refs@.len(),
    {
        BlobPutResult { count: refs.len(), total_bytes, elapsed_ms, refs }
    }
}

impl BlobGetResult {
    pub fn of(materialized_paths: Vec<String>, total_bytes: u64, elapsed_ms: Real) -> (r:
        BlobGetResult)
        ensures
            r == (BlobGetResult { count: r.count, total_bytes, elapsed_ms, materialized_paths }),
            r.count == materialized_paths@.len(),
    {
        BlobGetResult {
            count: materialized_paths.len(),
            total_bytes,
            elapsed_ms,
            materialized_paths,
        }
    }
}

impl PacedBlobGetResult {
    pub fn of(
        materialized_dir: String,
        total_bytes: u64,
        elapsed_ms: Real,
        paced: PacedTaskRunReport,
    ) -> (r: PacedBlobGetResult)
        ensures
            r == (PacedBlobGetResult {
                count: paced.completed_tasks,
                total_bytes,
                elapsed_ms,
                materialized_dir,
                paced,
            }),
    {
        PacedBlobGetResult {
            count: paced.completed_tasks,
            total_bytes,
            elapsed_ms,
            materialized_dir,
            paced,
        }
    }
}

// ---------------------------------------------------------------------------------------------
// What the plans and the checks are for
// ---------------------------------------------------------------------------------------------
/// What is prepared under a plan id is found under it, and nothing else changes.
pub proof fn lemma_prepared_is_found(
    s: Seq<PreparedPacedBlobGet>,
    p: PreparedPacedBlobGet,
    id: Seq<char>,
)
    ensures
        prepared(with_prepared(s, p), id) == if id == p.plan_id@ {
            Some(p)
        } else {
            prepared(s, id)
        },
{
    let t = with_prepared(s, p);
    let before = prepared_ids(s);
    let ids = prepared_ids(t);
    lemma_place_from(before, p.plan_id@, 0);
    lemma_place_from(before, id, 0);
    lemma_place_from(ids, id, 0);
    assert forall|k: int| 0 <= k < s.len() implies #[trigger] ids[k] == before[k] by {}
    if t.len() > s.len() {
        assert(ids[s.len() as int] == p.plan_id@);
    }
    match (place_of(before, id), place_of(ids, id)) {
        (Some(i), Some(j)) => {
            if i < j {
                assert(ids[i] != id);
            } else if j < i {
                assert(before[j] != id);
            }
        },
        (Some(i), None) => {
            assert(ids[i] != id);
        },
        (None, Some(j)) => {
            if j < s.len() {
                assert(before[j] != id);
            }
        },
        (None, None) => {
            if t.len() > s.len() {
                assert(ids[s.len() as int] != id);
            }
        },
    }
}

/// A plan is found under its id just where one of that id is there, and it is one of that id.
pub proof fn lemma_plans_by_id(
    s: Seq<StagedPacedBlobGet>,
    t: Seq<PreparedPacedBlobGet>,
    id: Seq<char>,
)
    ensures
        staged(s, id) is Some <==> exists|k: int| 0 <= k < s.len() && (#[trigger] s[k]).plan_id@ == id,
        staged(s, id) is Some ==> staged(s, id)->0.plan_id@ == id && s.contains(staged(s, id)->0),
        prepared(t, id) is Some <==> exists|k: int|
            0 <= k < t.len() && (#[trigger] t[k]).plan_id@ == id,
        prepared(t, id) is Some ==> prepared(t, id)->0.plan_id@ == id && t.contains(
            prepared(t, id)->0,
        ),
{
    lemma_place_of(staged_ids(s), id);
    lemma_place_of(prepared_ids(t), id);
    assert forall|k: int| 0 <= k < s.len() implies #[trigger] s[k].plan_id@ == staged_ids(
        s,
    )[k] by {}
    assert forall|k: int| 0 <= k < t.len() implies #[trigger] t[k].plan_id@ == prepared_ids(
        t,
    )[k] by {}
    if let Some(j) = place_of(staged_ids(s), id) {
        assert(s[j].plan_id@ == id);
    }
    if let Some(j) = place_of(prepared_ids(t), id) {
        assert(t[j].plan_id@ == id);
    }
}

/// Taking what is staged under an id leaves every other staging where it was.
pub proof fn lemma_taking_keeps_the_others(
    s: Seq<StagedPacedBlobGet>,
    id: Seq<char>,
    other: Seq<char>,
)
    requires
        forall|i: int, j: int|
            0 <= i < j < s.len() ==> (#[trigger] s[i]).plan_id@ != (#[trigger] s[j]).plan_id@,
    ensures
        staged(without_staged(s, id), id) is None,
        other != id ==> staged(without_staged(s, id), other) == staged(s, other),
        staged(s, id) is None ==> without_staged(s, id) == s,
        staged(s, id) is Some ==> without_staged(s, id).len() == s.len() - 1,
{
    let t = without_staged(s, id);
    let before = staged_ids(s);
    let ids = staged_ids(t);
    lemma_place_from(before, id, 0);
    lemma_place_from(before, other, 0);
    lemma_place_from(ids, id, 0);
    lemma_place_from(ids, other, 0);
    if let Some(i) = place_of(before, id) {
        assert forall|k: int| 0 <= k < t.len() implies #[trigger] ids[k] == before[if k < i {
            k
        } else {
            k + 1
        }] by {}
        assert(s[i].plan_id@ == id);
        assert forall|k: int| 0 <= k < t.len() implies #[trigger] ids[k] != id by {
            let m = if k < i {
                k
            } else {
                k + 1
            };
            assert(s[m].plan_id@ == ids[k]);
        }
        if let Some(j) = place_of(ids, id) {
            assert(ids[j] != id);
        }
        if other != id {
            match (place_of(before, other), place_of(ids, other)) {
                (Some(a), Some(b)) => {
                    let m = if b < i {
                        b
                    } else {
                        b + 1
                    };
                    assert(s[m].plan_id@ == other);
                    assert(s[a].plan_id@ == other);
                    assert(m == a);
                },
                (Some(a), None) => {
                    assert(ids[if a < i {
                        a
                    } else {
                        a - 1
                    }] != other);
                },
                (None, Some(b)) => {
                    assert(before[if b < i {
                        b
                    } else {
                        b + 1
                    }] != other);
                },
                (None, None) => {},
            }
        }
    } else {
        if let Some(j) = place_of(ids, id) {
            assert(before[j] != id);
        }
    }
}

/// Starting a prepared plan takes it away and leaves every other plan.
pub proof fn lemma_starting_keeps_the_others(
    s: Seq<PreparedPacedBlobGet>,
    id: Seq<char>,
    other: Seq<char>,
)
    requires
        forall|i: int, j: int|
            0 <= i < j < s.len() ==> (#[trigger] s[i]).plan_id@ != (#[trigger] s[j]).plan_id@,
    ensures
        prepared(without_prepared(s, id), id) is None,
        other != id ==> prepared(without_prepared(s, id), other) == prepared(s, other),
        prepared(s, id) is None ==> without_prepared(s, id) == s,
        prepared(s, id) is Some ==> without_prepared(s, id).len() == s.len() - 1,
{
    let t = without_prepared(s, id);
    let before = prepared_ids(s);
    let ids = prepared_ids(t);
    lemma_place_from(before, id, 0);
    lemma_place_from(before, other, 0);
    lemma_place_from(ids, id, 0);
    lemma_place_from(ids, other, 0);
    if let Some(i) = place_of(before, id) {
        assert forall|k: int| 0 <= k < t.len() implies #[trigger] ids[k] == before[if k < i {
            k
        } else {
            k + 1
        }] by {}
        assert(s[i].plan_id@ == id);
        assert forall|k: int| 0 <= k < t.len() implies #[trigger] ids[k] != id by {
            let m = if k < i {
                k
            } else {
                k + 1
            };
            assert(s[m].plan_id@ == ids[k]);
        }
        if let Some(j) = place_of(ids, id) {
            assert(ids[j] != id);
        }
        if other != id {
            match (place_of(before, other), place_of(ids, other)) {
                (Some(a), Some(b)) => {
                    let m = if b < i {
                        b
                    } else {
                        b + 1
                    };
                    assert(s[m].plan_id@ == other);
                    assert(s[a].plan_id@ == other);
                    assert(m == a);
                },
                (Some(a), None) => {
                    assert(ids[if a < i {
                        a
                    } else {
                        a - 1
                    }] != other);
                },
                (None, Some(b)) => {
                    assert(before[if b < i {
                        b
                    } else {
                        b + 1
                    }] != other);
                },
                (None, None) => {},
            }
        }
    } else {
        if let Some(j) = place_of(ids, id) {
            assert(before[j] != id);
        }
    }
}

/// A staging is opened just where it has a name, references to wait for, a rate and room in flight,
/// and where its run is the one of the node.
pub proof fn lemma_stagings_that_are_opened(state: NodeRuntimeState, r: PrepareBlobGetBeginRequest)
    ensures
        begin_problem(state, r) is None <==> {
            &&& text::trim_spec(r.plan_id@).len() > 0
            &&& r.expected_ref_count >= 1
            &&& r.target_ops_per_s.is_positive_spec()
            &&& r.max_in_flight >= 1
            &&& state.current is Some
            &&& state.current->0.run_id@ == r.run_id@
        },
{
}

/// A chunk of references is taken just where it is the next one of a staging of the run, holds
/// references, and holds no more of them than the staging still waits for.
pub proof fn lemma_chunks_that_are_taken(state: NodeRuntimeState, r: PrepareBlobGetAppendRequest)
    ensures
        append_problem(state, r) is None <==> {
            let plan = staged(state.current->0.paced_get_staging@, r.plan_id@);
            &&& r.refs@.len() > 0
            &&& state.current is Some
            &&& state.current->0.run_id@ == r.run_id@
            &&& plan is Some
            &&& r.chunk_index == plan->0.next_chunk_index
            &&& plan->0.refs@.len() + r.refs@.len() <= plan->0.expected_ref_count
        },
{
}

/// A staging is finished just where it is there, in a run with a blob store, and becomes a plan just
/// where as many references came as were announced.
pub proof fn lemma_stagings_that_are_finished(
    state: NodeRuntimeState,
    r: PrepareBlobGetFinishRequest,
    p: StagedPacedBlobGet,
)
    ensures
        finish_problem(state, r) is None <==> {
            &&& state.current is Some
            &&& state.current->0.run_id@ == r.run_id@
            &&& state.current->0.blob_store is Some
            &&& staged(state.current->0.paced_get_staging@, r.plan_id@) is Some
        },
        count_problem(p) is None <==> p.refs@.len() == p.expected_ref_count,
{
}

/// A prepared get is started just where its plan is there in the run of the node.
pub proof fn lemma_plans_that_are_started(state: NodeRuntimeState, r: StartPreparedBlobGetRequest)
    ensures
        start_problem(state, r) is None <==> {
            &&& state.current is Some
            &&& state.current->0.run_id@ == r.run_id@
            &&& prepared(state.current->0.paced_get_plans@, r.plan_id@) is Some
        },
{
}

/// A batch of puts needs objects, bytes in them and room in flight.
pub proof fn lemma_puts_that_are_taken(r: PutBlobBatchRequest)
    ensures
        put_problem(r) is None <==> r.count >= 1 && r.object_size_bytes >= 1 && r.max_in_flight >= 1,
{
}

/// A paced get needs references, a rate and room in flight.
pub proof fn lemma_paced_gets_that_are_taken(r: PacedBlobGetRequest)
    ensures
        paced_get_problem(r) is None <==> r.refs@.len() >= 1
            && r.target_ops_per_s.is_positive_spec() && r.max_in_flight >= 1,
{
}

proof fn lemma_filled_splits(a: Seq<Option<u64>>, b: Seq<Option<u64>>)
    ensures
        filled(a + b) == filled(a) + filled(b),
    decreases b.len(),
{
    if b.len() == 0 {
        assert(a + b =~= a);
    } else {
        lemma_filled_splits(a, b.drop_last());
        assert((a + b).drop_last() =~= a + b.drop_last());
    }
}

proof fn lemma_sum_splits(a: Seq<u64>, b: Seq<u64>)
    ensures
        sum(a + b) == sum(a) + sum(b),
    decreases b.len(),
{
    if b.len() == 0 {
        assert(a + b =~= a);
    } else {
        lemma_sum_splits(a, b.drop_last());
        assert((a + b).drop_last() =~= a + b.drop_last());
    }
}

/// Sizes add up, and one alone is itself.
pub proof fn lemma_sizes_add_up(a: Seq<u64>, b: Seq<u64>, n: u64)
    ensures
        sum(a + b) == sum(a) + sum(b),
        sum(seq![n]) == n,
{
    lemma_sum_splits(a, b);
    assert(seq![n].drop_last() =~= Seq::<u64>::empty());
    assert(sum(Seq::<u64>::empty()) == 0);
}

/// The references that came are counted: each one once, and no place that waits.
pub proof fn lemma_filled_counts(a: Seq<Option<u64>>, b: Seq<Option<u64>>, handle: u64)
    ensures
        filled(a + b) == filled(a) + filled(b),
        filled(seq![Some(handle)]) == 1,
        filled(seq![None::<u64>]) == 0,
{
    lemma_filled_splits(a, b);
    let none = Seq::<Option<u64>>::empty();
    assert(filled(none) == 0);
    assert(seq![Some(handle)].drop_last() =~= none);
    assert(seq![None::<u64>].drop_last() =~= none);
}

/// Batches of one name that begin at different times have different ids, and each begins with its
/// name.
pub proof fn lemma_batches_differ(prefix: Seq<char>, a: nat, b: nat)
    requires
        batch_id_spec(prefix, a) == batch_id_spec(prefix, b),
    ensures
        a == b,
        batch_id_spec(prefix, a).take(prefix.len() as int) == prefix,
{
    let start = prefix + "-"@;
    assert(batch_id_spec(prefix, a).skip(start.len() as int) =~= text::dec(a));
    assert(batch_id_spec(prefix, b).skip(start.len() as int) =~= text::dec(b));
    assert(batch_id_spec(prefix, a).take(prefix.len() as int) =~= prefix);
    text::lemma_dec_reads_back(a);
    text::lemma_dec_reads_back(b);
}

/// Where just one thing is wrong with a batch of puts, it is told.
pub proof fn lemma_put_problems(r: PutBlobBatchRequest)
    ensures
        ({
            let a = r.count == 0;
            let b = r.object_size_bytes == 0;
            let c = r.max_in_flight == 0;
            &&& a && !b && !c ==> put_problem(r) == Some("blob batch count must be greater than zero"@)
            &&& b && !a && !c ==> put_problem(r) == Some("object_size_bytes must be greater than zero"@)
            &&& c && !a && !b ==> put_problem(r) == Some("put_blob_batch max_in_flight must be greater than zero"@)
        }),
{
}

/// Where just one thing is wrong with a paced get, it is told.
pub proof fn lemma_paced_get_problems(r: PacedBlobGetRequest)
    ensures
        ({
            let a = r.refs@.len() == 0;
            let b = !r.target_ops_per_s.is_positive_spec();
            let c = r.max_in_flight == 0;
            &&& a && !b && !c ==> paced_get_problem(r) == Some("paced blob get requires at least one blob ref"@)
            &&& b && !a && !c ==> paced_get_problem(r) == Some("target_ops_per_s must be a finite positive number"@)
            &&& c && !a && !b ==> paced_get_problem(r) == Some("max_in_flight must be greater than zero"@)
        }),
{
}

/// Where just one thing is wrong with the opening of a staging, it is told.
pub proof fn lemma_begin_problems(state: NodeRuntimeState, r: PrepareBlobGetBeginRequest)
    ensures
        ({
            let a = text::is_blank_spec(r.plan_id@);
            let b = r.expected_ref_count == 0;
            let c = !r.target_ops_per_s.is_positive_spec();
            let d = r.max_in_flight == 0;
            let e = state::current_problem(state, r.run_id@) is Some;
            &&& a && !b && !c && !d && !e ==> begin_problem(state, r) == Some("plan_id must not be empty"@)
            &&& b && !a && !c && !d && !e ==> begin_problem(state, r) == Some("expected_ref_count must be greater than zero"@)
            &&& c && !a && !b && !d && !e ==> begin_problem(state, r) == Some("target_ops_per_s must be a finite positive number"@)
            &&& d && !a && !b && !c && !e ==> begin_problem(state, r) == Some("max_in_flight must be greater than zero"@)
            &&& !a && !b && !c && !d ==> begin_problem(state, r) == state::current_problem(state, r.run_id@)
        }),
{
}

/// Where just one thing is wrong with the finishing of a staging, it is told.
pub proof fn lemma_finish_problems(state: NodeRuntimeState, r: PrepareBlobGetFinishRequest)
    ensures
        ({
            let a = state::current_problem(state, r.run_id@) is Some;
            let b = state.current->0.blob_store is None;
            let c = staged(state.current->0.paced_get_staging@, r.plan_id@) is None;
            &&& a && !b && !c ==> finish_problem(state, r) == state::current_problem(state, r.run_id@)
            &&& b && !a && !c ==> finish_problem(state, r) == Some("prepare_blob_get_finish requires initialized blob_store state"@)
            &&& c && !a && !b ==> finish_problem(state, r) == Some("unknown paced get staging plan_id="@ + r.plan_id@)
        }),
{
}

/// Where just one thing is wrong with the start of a prepared get, it is told.
pub proof fn lemma_start_problems(state: NodeRuntimeState, r: StartPreparedBlobGetRequest)
    ensures
        ({
            let a = state::current_problem(state, r.run_id@) is Some;
            let b = prepared(state.current->0.paced_get_plans@, r.plan_id@) is None;
            &&& a && !b ==> start_problem(state, r) == state::current_problem(state, r.run_id@)
            &&& b && !a ==> start_problem(state, r) == Some("unknown prepared paced get plan_id="@ + r.plan_id@)
        }),
{
}

/// A staging that got another number of references than it waited for says both numbers.
pub proof fn lemma_count_problems(p: StagedPacedBlobGet)
    ensures
        ({
            let a = p.refs@.len() != p.expected_ref_count;
            &&& a ==> count_problem(p) == Some("paced get plan_id="@ + p.plan_id@ + " received "@ + text::dec(p.refs@.len()) + " refs, expected "@ + text::dec(p.expected_ref_count as nat))
        }),
{
}

} // verus!
