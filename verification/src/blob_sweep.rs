//! The blob experiments that get what others have put.
use crate::binary64::Real;
use crate::channel_sweep::AggregatePacedSummary;
use crate::config::{ExperimentSpec, InstancesConfig};
use crate::environment;
use crate::latency;
use crate::latency::LatencySummary;
use crate::native;
use crate::native::{Json, JsonTree};
use crate::paced;
use crate::paced::{PacedTaskFailure, PacedTaskRunReport};
use crate::participants;
use crate::participants::Role;
use crate::protocol::{
    BlobGetResult, BlobPutResult, GetBlobBatchRequest, InitBlobStoreRequest, PacedBlobGetResult,
    PrepareBlobGetAppendRequest, PrepareBlobGetBeginRequest, PutBlobBatchRequest,
    RunBlobGetRequest, RunBlobGetResponse,
};
use crate::staging;
use crate::state;
use crate::state::NodeRuntimeState;
use crate::sweep;
use crate::sweep::ThroughputSweepPolicy;
use crate::targets;
use crate::text;
use vstd::prelude::*;
use vstd::string::*;

verus! {

/// The references that travel in one message.
pub const REF_CHUNK_SIZE: usize = 1024;

/// The time between the preparation of getters and their common start.
pub const START_DELAY_NS: u64 = 2_000_000_000;

// ---------------------------------------------------------------------------------------------
// Setting up
// ---------------------------------------------------------------------------------------------
/// Several getters of one source, or one getter of several putters.
#[derive(Clone, Copy, Debug, PartialEq, Eq, Structural)]
pub enum GetterKind {
    Multi,
    Single,
}

impl GetterKind {
    pub open spec fn name(self) -> Seq<char> {
        match self {
            GetterKind::Multi => "blob.multi_getter"@,
            GetterKind::Single => "blob.single_getter"@,
        }
    }

    fn shown_name(self) -> (r: String)
        ensures
            r@ == self.name(),
    {
        match self {
            GetterKind::Multi => "blob.multi_getter".to_owned(),
            GetterKind::Single => "blob.single_getter".to_owned(),
        }
    }

    pub open spec fn lead_role(self) -> Role {
        match self {
            GetterKind::Multi => Role::Source,
            GetterKind::Single => Role::LeadGetter,
        }
    }

    pub open spec fn follower_role(self) -> Role {
        match self {
            GetterKind::Multi => Role::Getter,
            GetterKind::Single => Role::Putter,
        }
    }

    /// What is said where nobody follows.
    pub open spec fn nobody(self) -> Seq<char> {
        match self {
            GetterKind::Multi => "blob.multi_getter requires at least one getter participant"@,
            GetterKind::Single => "blob.single_getter requires at least one putter participant"@,
        }
    }

    pub open spec fn preload_key(self) -> Seq<char> {
        match self {
            GetterKind::Multi => "LC_BENCH_BLOB_MULTI_GETTER_PRELOAD_CONCURRENCY"@,
            GetterKind::Single => "LC_BENCH_BLOB_SINGLE_GETTER_PRELOAD_CONCURRENCY"@,
        }
    }
}

/// What a getter experiment runs with. The leader is the source or the one getter, the followers are
/// the getters or the putters.
#[derive(Debug)]
pub struct GetterSetup {
    pub backend: String,
    pub duration_seconds: Real,
    pub lead_id: String,
    pub follower_ids: Vec<String>,
    pub policy: ThroughputSweepPolicy,
    pub rates: Vec<Real>,
}

/// What stands in the way of a getter experiment, in the order in which it is looked for.
pub open spec fn setup_problem(kind: GetterKind, e: ExperimentSpec, ladder: Seq<Real>) -> Option<
    Seq<char>,
> {
    let backend = text::normal_spec(e.benchmark.backend@);
    let lead = participants::lead_spec(e.participants@, kind.lead_role());
    if backend != "s3"@ && backend != "p2p"@ {
        Some(kind.name() + " requires benchmark.backend = s3 or p2p"@)
    } else if backend == "p2p"@ && text::trim_spec(e.p2p.tracker_backend@) != "dynamodb"@ {
        Some(kind.name() + " p2p requires p2p.tracker_backend = dynamodb"@)
    } else if e.benchmark.duration_seconds is None {
        Some(kind.name() + " requires benchmark.duration_seconds"@)
    } else if lead is None {
        Some(kind.name() + " requires participants"@)
    } else if participants::followers_spec(e.participants@, kind.follower_role(), lead->0).len()
        == 0 {
        Some(kind.nobody())
    } else if sweep::policy_of(e).problem() is Some {
        sweep::policy_of(e).problem()
    } else if sweep::target_rates_spec(e, sweep::policy_of(e), ladder).len() == 0 {
        Some(kind.name() + " throughput sweep generated no target rates"@)
    } else {
        None
    }
}

impl GetterSetup {
    /// Whether the setup is what the experiment asks for.
    pub open spec fn fits(self, kind: GetterKind, e: ExperimentSpec, ladder: Seq<Real>) -> bool {
        &&& self.backend@ == text::normal_spec(e.benchmark.backend@)
        &&& e.benchmark.duration_seconds == Some(self.duration_seconds)
        &&& participants::lead_spec(e.participants@, kind.lead_role()) == Some(self.lead_id@)
        &&& text::views(self.follower_ids@) == participants::followers_spec(
            e.participants@,
            kind.follower_role(),
            self.lead_id@,
        )
        &&& self.follower_ids@.len() > 0
        &&& self.policy == sweep::policy_of(e)
        &&& self.rates@ == sweep::target_rates_spec(e, self.policy, ladder)
    }
}

/// Checks a getter experiment. `ladder` holds the successive rates from the policy's start.
pub fn getter_setup(kind: GetterKind, experiment: &ExperimentSpec, ladder: &Vec<Real>) -> (r: Result<
    GetterSetup,
    String,
>)
    ensures
        match r {
            Ok(setup) => setup_problem(kind, *experiment, ladder@) is None && setup.fits(
                kind,
                *experiment,
                ladder@,
            ),
            Err(m) => setup_problem(kind, *experiment, ladder@) == Some(m@),
        },
{
    let name = kind.shown_name();
    let backend = text::normal(experiment.benchmark.backend.as_str());
    let p2p = text::same(backend.as_str(), "p2p");
    if !text::same(backend.as_str(), "s3") && !p2p {
        return Err(text::cat2(name.as_str(), " requires benchmark.backend = s3 or p2p"));
    }
    let tracker_backend = text::trim(experiment.p2p.tracker_backend.as_str());
    if p2p && !text::same(tracker_backend.as_str(), "dynamodb") {
        return Err(text::cat2(name.as_str(), " p2p requires p2p.tracker_backend = dynamodb"));
    }
    let duration_seconds = match experiment.benchmark.duration_seconds {
        Some(d) => d,
        None => {
            return Err(text::cat2(name.as_str(), " requires benchmark.duration_seconds"));
        },
    };
    let (lead_role, follower_role) = match kind {
        GetterKind::Multi => (Role::Source, Role::Getter),
        GetterKind::Single => (Role::LeadGetter, Role::Putter),
    };
    let lead_id = match participants::lead_id(&experiment.participants, lead_role) {
        Some(id) => id,
        None => {
            return Err(text::cat2(name.as_str(), " requires participants"));
        },
    };
    let follower_ids = participants::follower_ids(
        &experiment.participants,
        follower_role,
        lead_id.as_str(),
    );
    assert(follower_ids@.len() == text::views(follower_ids@).len());
    if follower_ids.len() == 0 {
        return Err(
            match kind {
                GetterKind::Multi =>
                    "blob.multi_getter requires at least one getter participant".to_owned(),
                GetterKind::Single =>
                    "blob.single_getter requires at least one putter participant".to_owned(),
            },
        );
    }
    let policy = match sweep::sweep_policy(experiment) {
        Ok(policy) => policy,
        Err(m) => {
            return Err(m);
        },
    };
    let none = text::cat2(name.as_str(), " throughput sweep generated no target rates");
    let rates = match sweep::target_rates(experiment, &policy, ladder, none.as_str()) {
        Ok(rates) => rates,
        Err(m) => {
            return Err(m);
        },
    };
    Ok(GetterSetup { backend, duration_seconds, lead_id, follower_ids, policy, rates })
}

/// How many puts of a preload are under way at a time: as the environment of the experiment says,
/// else as its benchmark does.
pub open spec fn preload_spec(kind: GetterKind, e: ExperimentSpec) -> Result<usize, Seq<char>> {
    let raw = match environment::lookup_spec(e.env@, "LC_BENCH_BLOB_PRELOAD_CONCURRENCY"@) {
        Some(v) => Some(v),
        None => environment::lookup_spec(e.env@, kind.preload_key()),
    };
    let zero = "blob preload concurrency must be greater than zero"@;
    match raw {
        None => if e.benchmark.concurrency == 0 {
            Err(zero)
        } else {
            Ok(e.benchmark.concurrency)
        },
        Some(v) => match text::number_spec(v, usize::MAX as nat) {
            Err(problem) => Err(
                "invalid blob preload concurrency "@ + text::quoted_text(v) + ": "@
                    + problem.text_spec(),
            ),
            Ok(n) => if n == 0 {
                Err(zero)
            } else {
                Ok(n as usize)
            },
        },
    }
}

pub fn preload_put_concurrency(kind: GetterKind, experiment: &ExperimentSpec) -> (r: Result<
    usize,
    String,
>)
    ensures
        environment::plain_result(r) == preload_spec(kind, *experiment),
{
    let key = match kind {
        GetterKind::Multi => "LC_BENCH_BLOB_MULTI_GETTER_PRELOAD_CONCURRENCY",
        GetterKind::Single => "LC_BENCH_BLOB_SINGLE_GETTER_PRELOAD_CONCURRENCY",
    };
    let raw = match environment::lookup(&experiment.env, "LC_BENCH_BLOB_PRELOAD_CONCURRENCY") {
        Some(v) => Some(v),
        None => environment::lookup(&experiment.env, key),
    };
    let value: usize = match raw {
        None => experiment.benchmark.concurrency,
        Some(v) => match text::number_usize(v.as_str()) {
            Ok(n) => n,
            Err(problem) => {
                return Err(
                    text::cat4(
                        "invalid blob preload concurrency ",
                        text::quoted(v.as_str()).as_str(),
                        ": ",
                        problem.text().as_str(),
                    ),
                );
            },
        },
    };
    if value == 0 {
        Err("blob preload concurrency must be greater than zero".to_owned())
    } else {
        Ok(value)
    }
}

/// The moment at which getters start together.
pub fn future_start_unix_ns(now_unix_ns: u64) -> (r: u64)
    ensures
        r == text::min_int(now_unix_ns + START_DELAY_NS, u64::MAX as int),
{
    now_unix_ns.saturating_add(START_DELAY_NS)
}

// ---------------------------------------------------------------------------------------------
// Sharing the work
// ---------------------------------------------------------------------------------------------
/// The share of part `i` when `total` is dealt out to `n`.
pub open spec fn share(total: nat, n: nat, i: nat) -> nat {
    total / n + if i < total % n {
        1nat
    } else {
        0nat
    }
}

/// The shares of the first `k` parts.
pub open spec fn shares_sum(total: nat, n: nat, k: nat) -> nat
    decreases k,
{
    if k == 0 {
        0
    } else {
        shares_sum(total, n, (k - 1) as nat) + share(total, n, (k - 1) as nat)
    }
}

/// Deals `total` references out to the putters, as evenly as can be.
pub fn even_distribution(total: usize, putters: usize) -> (r: Vec<usize>)
    requires
        putters > 0,
    ensures
        r@.len() == putters,
        forall|i: int|
            0 <= i < putters ==> #[trigger] r@[i] == share(total as nat, putters as nat, i as nat),
{
    let base: usize = total / putters;
    let extra: usize = total % putters;
    let mut out: Vec<usize> = Vec::new();
    let mut i: usize = 0;
    while i < putters
        invariant
            i <= putters,
            putters > 0,
            base == total as nat / putters as nat,
            extra == total as nat % putters as nat,
            out@.len() == i,
            forall|j: int|
                0 <= j < i ==> #[trigger] out@[j] == share(total as nat, putters as nat, j as nat),
        decreases putters - i,
    {
        proof {
            lemma_share_fits(total as nat, putters as nat, i as nat);
        }
        let n: usize = if i < extra {
            base + 1
        } else {
            base
        };
        out.push(n);
        i = i + 1;
    }
    out
}

proof fn lemma_share_fits(total: nat, n: nat, i: nat)
    requires
        n > 0,
    ensures
        share(total, n, i) <= total,
{
    vstd::arithmetic::div_mod::lemma_fundamental_div_mod(total as int, n as int);
    let q = total / n;
    let m = total % n;
    assert(n * q >= q) by (nonlinear_arith)
        requires
            n > 0,
            q >= 0,
    ;
}

proof fn lemma_shares_sum(total: nat, n: nat, k: nat)
    requires
        n > 0,
        k <= n,
    ensures
        shares_sum(total, n, k) == k * (total / n) + text::min_int(k as int, (total % n) as int),
    decreases k,
{
    if k > 0 {
        lemma_shares_sum(total, n, (k - 1) as nat);
        let q = (total / n) as int;
        assert(k * q == (k - 1) * q + q) by (nonlinear_arith);
    } else {
        assert(0 * (total / n) == 0);
    }
}

/// The shares add up to the whole, and no two of them differ by more than one.
pub proof fn lemma_shares_are_fair(total: nat, n: nat)
    requires
        n > 0,
    ensures
        shares_sum(total, n, n) == total,
        forall|i: nat, j: nat|
            #![trigger share(total, n, i), share(total, n, j)]
            i < n && j < n ==> share(total, n, i) <= share(total, n, j) + 1,
{
    lemma_shares_sum(total, n, n);
    vstd::arithmetic::div_mod::lemma_fundamental_div_mod(total as int, n as int);
    vstd::arithmetic::div_mod::lemma_mod_bound(total as int, n as int);
}

/// What the lists hold at one index, list by list.
pub open spec fn row<T>(lists: Seq<Seq<T>>, index: int) -> Seq<T>
    decreases lists.len(),
{
    if lists.len() == 0 {
        Seq::empty()
    } else if index < lists.last().len() {
        row(lists.drop_last(), index).push(lists.last()[index])
    } else {
        row(lists.drop_last(), index)
    }
}

/// The first `n` rows, one after the other.
pub open spec fn rows<T>(lists: Seq<Seq<T>>, n: nat) -> Seq<T>
    decreases n,
{
    if n == 0 {
        Seq::empty()
    } else {
        rows(lists, (n - 1) as nat) + row(lists, n - 1)
    }
}

pub open spec fn longest<T>(lists: Seq<Seq<T>>) -> nat
    decreases lists.len(),
{
    if lists.len() == 0 {
        0
    } else if lists.last().len() > longest(lists.drop_last()) {
        lists.last().len()
    } else {
        longest(lists.drop_last())
    }
}

/// The lists dealt into one, an item from each in turn.
pub open spec fn round_robin<T>(lists: Seq<Seq<T>>) -> Seq<T> {
    rows(lists, longest(lists))
}

pub open spec fn total_len<T>(lists: Seq<Seq<T>>) -> nat
    decreases lists.len(),
{
    if lists.len() == 0 {
        0
    } else {
        total_len(lists.drop_last()) + lists.last().len()
    }
}

pub open spec fn ref_trees(lists: Seq<Vec<Json>>) -> Seq<Seq<native::JsonTree>> {
    lists.map_values(|v: Vec<Json>| native::trees(v@))
}

fn longest_list(lists: &Vec<Vec<Json>>) -> (r: usize)
    ensures
        r == longest(ref_trees(lists@)),
{
    let ghost all = ref_trees(lists@);
    let mut most: usize = 0;
    let mut i: usize = 0;
    assert(all.take(0) =~= Seq::<Seq<native::JsonTree>>::empty());
    while i < lists.len()
        invariant
            i <= lists@.len(),
            all == ref_trees(lists@),
            most == longest(all.take(i as int)),
        decreases lists.len() - i,
    {
        assert(all.take(i + 1).drop_last() =~= all.take(i as int));
        assert(all.take(i + 1).last() == native::trees(lists@[i as int]@));
        if lists[i].len() > most {
            most = lists[i].len();
        }
        i = i + 1;
    }
    assert(all.take(i as int) =~= all);
    most
}

/// Deals the references of several putters into one list.
pub fn round_robin_refs(lists: &Vec<Vec<Json>>) -> (r: Vec<Json>)
    ensures
        native::trees(r@) == round_robin(ref_trees(lists@)),
{
    let ghost all = ref_trees(lists@);
    let most = longest_list(lists);
    let mut out: Vec<Json> = Vec::new();
    let mut index: usize = 0;
    assert(native::trees(out@) =~= rows(all, 0));
    while index < most
        invariant
            index <= most,
            all == ref_trees(lists@),
            native::trees(out@) == rows(all, index as nat),
        decreases most - index,
    {
        let ghost before = native::trees(out@);
        let mut i: usize = 0;
        assert(all.take(0) =~= Seq::<Seq<native::JsonTree>>::empty());
        assert(before + row(all.take(0), index as int) =~= before);
        while i < lists.len()
            invariant
                i <= lists@.len(),
                all == ref_trees(lists@),
                native::trees(out@) == before + row(all.take(i as int), index as int),
            decreases lists.len() - i,
        {
            assert(all.take(i + 1).drop_last() =~= all.take(i as int));
            assert(all.take(i + 1).last() == native::trees(lists@[i as int]@));
            if index < lists[i].len() {
                let item = lists[i][index].duplicate();
                let ghost so_far = native::trees(out@);
                out.push(item);
                assert(native::trees(out@) =~= so_far.push(item.tree()));
                assert(native::trees(lists@[i as int]@)[index as int] == item.tree());
                assert(native::trees(out@) =~= before + row(all.take(i + 1), index as int));
            }
            i = i + 1;
        }
        assert(all.take(i as int) =~= all);
        index = index + 1;
    }
    out
}

/// How many items the first `n` rows hold.
pub open spec fn clipped_len<T>(lists: Seq<Seq<T>>, n: nat) -> nat
    decreases lists.len(),
{
    if lists.len() == 0 {
        0
    } else {
        clipped_len(lists.drop_last(), n) + text::min_int(
            lists.last().len() as int,
            n as int,
        ) as nat
    }
}

proof fn lemma_row_len<T>(lists: Seq<Seq<T>>, n: nat)
    ensures
        clipped_len(lists, n + 1) == clipped_len(lists, n) + row(lists, n as int).len(),
    decreases lists.len(),
{
    if lists.len() > 0 {
        lemma_row_len(lists.drop_last(), n);
    }
}

proof fn lemma_rows_len<T>(lists: Seq<Seq<T>>, n: nat)
    ensures
        rows(lists, n).len() == clipped_len(lists, n),
    decreases n,
{
    if n > 0 {
        lemma_rows_len(lists, (n - 1) as nat);
        lemma_row_len(lists, (n - 1) as nat);
    } else {
        lemma_clipped_zero(lists);
    }
}

proof fn lemma_clipped_zero<T>(lists: Seq<Seq<T>>)
    ensures
        clipped_len(lists, 0) == 0,
    decreases lists.len(),
{
    if lists.len() > 0 {
        lemma_clipped_zero(lists.drop_last());
    }
}

proof fn lemma_clipped_full<T>(lists: Seq<Seq<T>>, n: nat)
    requires
        longest(lists) <= n,
    ensures
        clipped_len(lists, n) == total_len(lists),
    decreases lists.len(),
{
    if lists.len() > 0 {
        lemma_clipped_full(lists.drop_last(), n);
    }
}

proof fn lemma_row_has<T>(lists: Seq<Seq<T>>, p: int, index: int)
    requires
        0 <= p < lists.len(),
        0 <= index < lists[p].len(),
    ensures
        row(lists, index).contains(lists[p][index]),
    decreases lists.len(),
{
    let r = row(lists, index);
    if p == lists.len() - 1 {
        assert(r[r.len() - 1] == lists[p][index]);
    } else {
        lemma_row_has(lists.drop_last(), p, index);
        let before = row(lists.drop_last(), index);
        let k = choose|k: int| 0 <= k < before.len() && before[k] == lists[p][index];
        assert(r[k] == lists[p][index]);
    }
}

proof fn lemma_rows_have<T>(lists: Seq<Seq<T>>, n: nat, p: int, index: int)
    requires
        0 <= p < lists.len(),
        0 <= index < lists[p].len(),
        index < n,
    ensures
        rows(lists, n).contains(lists[p][index]),
    decreases n,
{
    let before = rows(lists, (n - 1) as nat);
    let last = row(lists, n - 1);
    if index == n - 1 {
        lemma_row_has(lists, p, index);
        let k = choose|k: int| 0 <= k < last.len() && last[k] == lists[p][index];
        assert(rows(lists, n)[before.len() + k] == lists[p][index]);
    } else {
        lemma_rows_have(lists, (n - 1) as nat, p, index);
        let k = choose|k: int| 0 <= k < before.len() && before[k] == lists[p][index];
        assert(rows(lists, n)[k] == lists[p][index]);
    }
}

proof fn lemma_longest<T>(lists: Seq<Seq<T>>, p: int)
    requires
        0 <= p < lists.len(),
    ensures
        lists[p].len() <= longest(lists),
    decreases lists.len(),
{
    if p < lists.len() - 1 {
        lemma_longest(lists.drop_last(), p);
    }
}

/// Dealing lists into one keeps every item, and makes none up.
pub proof fn lemma_round_robin_keeps_all<T>(lists: Seq<Seq<T>>)
    ensures
        round_robin(lists).len() == total_len(lists),
        forall|p: int, i: int|
            0 <= p < lists.len() && 0 <= i < lists[p].len() ==> round_robin(lists).contains(
                #[trigger] lists[p][i],
            ),
{
    lemma_rows_len(lists, longest(lists));
    lemma_clipped_full(lists, longest(lists));
    assert forall|p: int, i: int|
        0 <= p < lists.len() && 0 <= i < lists[p].len() implies round_robin(lists).contains(
        #[trigger] lists[p][i],
    ) by {
        lemma_longest(lists, p);
        lemma_rows_have(lists, longest(lists), p, i);
    }
}

/// A putter must hand back as many references as it was to put.
pub fn check_putter(putter_id: &str, refs: usize, expected: usize) -> (r: Result<(), String>)
    ensures
        match r {
            Ok(_) => refs == expected,
            Err(m) => refs != expected && m@ == "putter "@ + putter_id@ + " returned "@ + text::dec(
                refs as nat,
            ) + " refs, expected "@ + text::dec(expected as nat),
        },
{
    if refs != expected {
        Err(
            text::cat6(
                "putter ",
                putter_id,
                " returned ",
                text::decimal(refs as u64).as_str(),
                " refs, expected ",
                text::decimal(expected as u64).as_str(),
            ),
        )
    } else {
        Ok(())
    }
}

/// The dealt list must be complete.
pub fn check_dealt(refs: usize, expected: usize) -> (r: Result<(), String>)
    ensures
        match r {
            Ok(_) => refs == expected,
            Err(m) => refs != expected && m@ == "round-robin ref list has "@ + text::dec(refs as nat)
                + " refs, expected "@ + text::dec(expected as nat),
        },
{
    if refs != expected {
        Err(
            text::cat4(
                "round-robin ref list has ",
                text::decimal(refs as u64).as_str(),
                " refs, expected ",
                text::decimal(expected as u64).as_str(),
            ),
        )
    } else {
        Ok(())
    }
}

// ---------------------------------------------------------------------------------------------
// References in chunks
// ---------------------------------------------------------------------------------------------
/// How many chunks `n` references make.
pub open spec fn chunk_count_spec(n: nat) -> nat {
    (n + REF_CHUNK_SIZE - 1) as nat / (REF_CHUNK_SIZE as nat)
}

pub fn chunk_count(n: usize) -> (r: usize)
    ensures
        r == chunk_count_spec(n as nat),
{
    let whole: usize = n / REF_CHUNK_SIZE;
    if n % REF_CHUNK_SIZE == 0 {
        whole
    } else {
        whole + 1
    }
}

/// The references of chunk `index`.
pub open spec fn chunk_spec<T>(refs: Seq<T>, index: nat) -> Seq<T> {
    refs.subrange(
        index * REF_CHUNK_SIZE as int,
        text::min_int((index + 1) * REF_CHUNK_SIZE, refs.len() as int),
    )
}

/// The message that carries chunk `index` of the references of a plan.
pub fn append_request(run_id: &str, plan_id: &str, refs: &Vec<Json>, index: usize) -> (r:
    PrepareBlobGetAppendRequest)
    requires
        index < chunk_count_spec(refs@.len()),
    ensures
        r.run_id@ == run_id@,
        r.plan_id@ == plan_id@,
        r.chunk_index == index,
        native::trees(r.refs@) == chunk_spec(native::trees(refs@), index as nat),
        0 < r.refs@.len() <= REF_CHUNK_SIZE,
{
    let total: usize = refs.len();
    assert(index * REF_CHUNK_SIZE < total);
    let from: usize = index * REF_CHUNK_SIZE;
    let to: usize = if total - from < REF_CHUNK_SIZE {
        total
    } else {
        from + REF_CHUNK_SIZE
    };
    let part = native::copy_json(refs, from, to);
    assert(native::trees(part@) =~= chunk_spec(native::trees(refs@), index as nat));
    assert(part@.len() == native::trees(part@).len());
    PrepareBlobGetAppendRequest {
        run_id: run_id.to_owned(),
        plan_id: plan_id.to_owned(),
        chunk_index: index as u64,
        refs: part,
    }
}

/// The first `n` chunks, put together.
pub open spec fn chunks_so_far<T>(refs: Seq<T>, n: nat) -> Seq<T>
    decreases n,
{
    if n == 0 {
        Seq::empty()
    } else {
        chunks_so_far(refs, (n - 1) as nat) + chunk_spec(refs, (n - 1) as nat)
    }
}

/// The chunks of a list, put together, are the list.
pub proof fn lemma_chunks_are_the_list<T>(refs: Seq<T>)
    ensures
        chunks_so_far(refs, chunk_count_spec(refs.len())) == refs,
{
    lemma_chunks_so_far(refs, chunk_count_spec(refs.len()));
    assert(refs.take(refs.len() as int) =~= refs);
}

proof fn lemma_chunks_so_far<T>(refs: Seq<T>, n: nat)
    requires
        n <= chunk_count_spec(refs.len()),
    ensures
        chunks_so_far(refs, n) == refs.take(
            text::min_int(n * REF_CHUNK_SIZE, refs.len() as int),
        ),
    decreases n,
{
    if n > 0 {
        lemma_chunks_so_far(refs, (n - 1) as nat);
        assert(chunks_so_far(refs, n) =~= refs.take(
            text::min_int(n * REF_CHUNK_SIZE, refs.len() as int),
        ));
    } else {
        assert(refs.take(0) =~= Seq::<T>::empty());
    }
}

/// A node that has taken in the chunks of a list up to chunk `i` takes in chunk `i` too, and then
/// holds the list up to the end of that chunk.
pub proof fn lemma_chunk_is_accepted(
    node: NodeRuntimeState,
    refs: Seq<JsonTree>,
    i: nat,
    request: PrepareBlobGetAppendRequest,
)
    requires
        i < chunk_count_spec(refs.len()),
        state::current_problem(node, request.run_id@) is None,
        staging::staged(node.current->0.paced_get_staging@, request.plan_id@) is Some,
        ({
            let p = staging::staged(node.current->0.paced_get_staging@, request.plan_id@)->0;
            &&& native::trees(p.refs@) == chunks_so_far(refs, i)
            &&& p.next_chunk_index == i
            &&& p.expected_ref_count == refs.len()
        }),
        request.chunk_index == i,
        native::trees(request.refs@) == chunk_spec(refs, i),
    ensures
        staging::append_problem(node, request) is None,
        ({
            let p = staging::staged(node.current->0.paced_get_staging@, request.plan_id@)->0;
            native::trees(p.refs@ + request.refs@) == chunks_so_far(refs, i + 1)
        }),
{
    let p = staging::staged(node.current->0.paced_get_staging@, request.plan_id@)->0;
    lemma_chunks_so_far(refs, i);
    lemma_chunks_so_far(refs, i + 1);
    assert(native::trees(p.refs@).len() == p.refs@.len());
    assert(native::trees(request.refs@).len() == request.refs@.len());
    assert(native::trees(p.refs@ + request.refs@) =~= native::trees(p.refs@) + native::trees(
        request.refs@,
    ));
}

/// The plan of a getter in a datapoint.
pub open spec fn plan_id_spec(datapoint: nat, getter: Seq<char>) -> Seq<char> {
    "datapoint-"@ + text::dec_padded(datapoint, 6) + "-"@ + getter
}

pub fn getter_plan_id(datapoint_index: usize, getter_id: &str) -> (r: String)
    ensures
        r@ == plan_id_spec(datapoint_index as nat, getter_id@),
{
    text::cat4(
        "datapoint-",
        text::decimal_padded(datapoint_index as u64, 6).as_str(),
        "-",
        getter_id,
    )
}

// ---------------------------------------------------------------------------------------------
// Requests
// ---------------------------------------------------------------------------------------------
/// Opens the store of a datapoint on a node. The leader creates what the store needs.
pub fn store_request(
    experiment: ExperimentSpec,
    backend: &str,
    resource_id: &str,
    create_remote_resources: bool,
) -> (r: InitBlobStoreRequest)
    ensures
        r.run_id == experiment.run.run_id,
        r.backend@ == backend@,
        r.root_dir is None,
        r.force_reinit,
        r.experiment == Some(experiment),
        text::option_is(r.resource_id, resource_id@),
        r.create_remote_resources == create_remote_resources,
{
    InitBlobStoreRequest {
        run_id: experiment.run.run_id.clone(),
        backend: backend.to_owned(),
        root_dir: None,
        force_reinit: true,
        experiment: Some(experiment),
        resource_id: Some(resource_id.to_owned()),
        create_remote_resources,
    }
}

/// Opens the store of a direct get, unless it is open.
pub fn plain_store_request(run_id: &str, backend: &str) -> (r: InitBlobStoreRequest)
    ensures
        r.run_id@ == run_id@,
        r.backend@ == backend@,
        r.root_dir is None,
        !r.force_reinit,
        r.experiment is None,
        r.resource_id is None,
        !r.create_remote_resources,
{
    InitBlobStoreRequest {
        run_id: run_id.to_owned(),
        backend: backend.to_owned(),
        root_dir: None,
        force_reinit: false,
        experiment: None,
        resource_id: None,
        create_remote_resources: false,
    }
}

/// Preloads `count` blobs.
pub fn preload_request(experiment: &ExperimentSpec, count: usize, max_in_flight: usize) -> (r:
    PutBlobBatchRequest)
    ensures
        r.run_id == experiment.run.run_id,
        r.count == count,
        r.object_size_bytes == experiment.benchmark.object_size_bytes,
        r.max_in_flight == max_in_flight,
{
    PutBlobBatchRequest {
        run_id: experiment.run.run_id.clone(),
        count,
        object_size_bytes: experiment.benchmark.object_size_bytes,
        max_in_flight,
    }
}

/// Announces the references of a getter.
pub fn begin_request(experiment: &ExperimentSpec, plan_id: &str, refs: usize, rate: Real) -> (r:
    PrepareBlobGetBeginRequest)
    ensures
        r.run_id == experiment.run.run_id,
        r.plan_id@ == plan_id@,
        r.expected_ref_count == refs,
        r.target_ops_per_s == rate,
        r.max_in_flight == experiment.benchmark.concurrency,
{
    PrepareBlobGetBeginRequest {
        run_id: experiment.run.run_id.clone(),
        plan_id: plan_id.to_owned(),
        expected_ref_count: refs,
        target_ops_per_s: rate,
        max_in_flight: experiment.benchmark.concurrency,
    }
}

// ---------------------------------------------------------------------------------------------
// The steps of a datapoint with several getters
// ---------------------------------------------------------------------------------------------
#[derive(Clone, Copy, Debug, PartialEq, Eq, Structural)]
pub enum MultiStep {
    BeginSource,
    InitSource,
    Preload,
    BeginGetter { index: usize },
    InitGetter { index: usize },
    StageBegin { index: usize },
    StageChunk { index: usize, chunk: usize },
    StageFinish { index: usize },
    StartGets,
    Reset,
    Report,
}

impl MultiStep {
    /// The step that follows, with `n` getters and the references in `chunks` chunks.
    pub open spec fn next(self, n: usize, chunks: usize) -> MultiStep {
        match self {
            MultiStep::BeginSource => MultiStep::InitSource,
            MultiStep::InitSource => MultiStep::Preload,
            MultiStep::Preload => if n > 0 {
                MultiStep::BeginGetter { index: 0 }
            } else {
                MultiStep::StartGets
            },
            MultiStep::BeginGetter { index } => MultiStep::InitGetter { index },
            MultiStep::InitGetter { index } => if index + 1 < n {
                MultiStep::BeginGetter { index: (index + 1) as usize }
            } else {
                MultiStep::StageBegin { index: 0 }
            },
            MultiStep::StageBegin { index } => if chunks > 0 {
                MultiStep::StageChunk { index, chunk: 0 }
            } else {
                MultiStep::StageFinish { index }
            },
            MultiStep::StageChunk { index, chunk } => if chunk + 1 < chunks {
                MultiStep::StageChunk { index, chunk: (chunk + 1) as usize }
            } else {
                MultiStep::StageFinish { index }
            },
            MultiStep::StageFinish { index } => if index + 1 < n {
                MultiStep::StageBegin { index: (index + 1) as usize }
            } else {
                MultiStep::StartGets
            },
            MultiStep::StartGets => MultiStep::Reset,
            MultiStep::Reset => MultiStep::Report,
            MultiStep::Report => MultiStep::Report,
        }
    }

    pub fn following(self, getters: usize, chunks: usize) -> (r: MultiStep)
        ensures
            r == self.next(getters, chunks),
    {
        let n: usize = getters;
        match self {
            MultiStep::BeginSource => MultiStep::InitSource,
            MultiStep::InitSource => MultiStep::Preload,
            MultiStep::Preload => {
                if n > 0 {
                    MultiStep::BeginGetter { index: 0 }
                } else {
                    MultiStep::StartGets
                }
            },
            MultiStep::BeginGetter { index } => MultiStep::InitGetter { index },
            MultiStep::InitGetter { index } => {
                if n > 0 && index < n - 1 {
                    MultiStep::BeginGetter { index: index + 1 }
                } else {
                    MultiStep::StageBegin { index: 0 }
                }
            },
            MultiStep::StageBegin { index } => {
                if chunks > 0 {
                    MultiStep::StageChunk { index, chunk: 0 }
                } else {
                    MultiStep::StageFinish { index }
                }
            },
            MultiStep::StageChunk { index, chunk } => {
                if chunks > 0 && chunk < chunks - 1 {
                    MultiStep::StageChunk { index, chunk: chunk + 1 }
                } else {
                    MultiStep::StageFinish { index }
                }
            },
            MultiStep::StageFinish { index } => {
                if n > 0 && index < n - 1 {
                    MultiStep::StageBegin { index: index + 1 }
                } else {
                    MultiStep::StartGets
                }
            },
            MultiStep::StartGets => MultiStep::Reset,
            MultiStep::Reset => MultiStep::Report,
            MultiStep::Report => MultiStep::Report,
        }
    }

    /// Whether a failure of the step fails the datapoint. Failed gets are part of its report, and
    /// failed resets are passed over.
    pub open spec fn fatal_spec(self) -> bool {
        !(self is StartGets || self is Reset || self is Report)
    }

    pub fn is_fatal(self) -> (r: bool)
        ensures
            r == self.fatal_spec(),
    {
        match self {
            MultiStep::StartGets => false,
            MultiStep::Reset => false,
            MultiStep::Report => false,
            _ => true,
        }
    }

    /// The indexes of a step are those of a getter and of a chunk.
    pub open spec fn valid(self, n: usize, chunks: usize) -> bool {
        match self {
            MultiStep::BeginGetter { index } => index < n,
            MultiStep::InitGetter { index } => index < n,
            MultiStep::StageBegin { index } => index < n,
            MultiStep::StageChunk { index, chunk } => index < n && chunk < chunks,
            MultiStep::StageFinish { index } => index < n,
            _ => true,
        }
    }

    /// Where a step stands in the order of a datapoint.
    pub open spec fn rank(self, n: usize, chunks: usize) -> int {
        let staging = 3 + 2 * n;
        let per_getter = chunks + 2;
        match self {
            MultiStep::BeginSource => 0,
            MultiStep::InitSource => 1,
            MultiStep::Preload => 2,
            MultiStep::BeginGetter { index } => 3 + 2 * index,
            MultiStep::InitGetter { index } => 4 + 2 * index,
            MultiStep::StageBegin { index } => staging + index * per_getter,
            MultiStep::StageChunk { index, chunk } => staging + index * per_getter + 1 + chunk,
            MultiStep::StageFinish { index } => staging + index * per_getter + 1 + chunks,
            MultiStep::StartGets => staging + n * per_getter,
            MultiStep::Reset => staging + n * per_getter + 1,
            MultiStep::Report => staging + n * per_getter + 2,
        }
    }

    /// The steps come in order and none is left out: every getter is open and holds every chunk
    /// before the gets start, and every datapoint ends.
    pub proof fn lemma_steps_in_order(self, n: usize, chunks: usize)
        requires
            self.valid(n, chunks),
            n > 0,
            self != MultiStep::Report,
        ensures
            self.next(n, chunks).valid(n, chunks),
            self.next(n, chunks).rank(n, chunks) == self.rank(n, chunks) + 1,
    {
        if let MultiStep::StageFinish { index } = self {
            let p = chunks + 2;
            assert((index + 1) * p == index * p + p) by (nonlinear_arith);
        }
        if let MultiStep::InitGetter { index } = self {
            assert(0 * (chunks + 2) == 0);
        }
    }
}

// ---------------------------------------------------------------------------------------------
// The steps of a datapoint with one getter
// ---------------------------------------------------------------------------------------------
#[derive(Clone, Copy, Debug, PartialEq, Eq, Structural)]
pub enum SingleStep {
    BeginGetter,
    InitGetter,
    OpenPutters,
    Preload,
    StageBegin,
    StageChunk { chunk: usize },
    StageFinish,
    StartGet,
    Reset,
    Report,
}

impl SingleStep {
    /// The step that follows, with the references in `chunks` chunks.
    pub open spec fn next(self, chunks: usize) -> SingleStep {
        match self {
            SingleStep::BeginGetter => SingleStep::InitGetter,
            SingleStep::InitGetter => SingleStep::OpenPutters,
            SingleStep::OpenPutters => SingleStep::Preload,
            SingleStep::Preload => SingleStep::StageBegin,
            SingleStep::StageBegin => if chunks > 0 {
                SingleStep::StageChunk { chunk: 0 }
            } else {
                SingleStep::StageFinish
            },
            SingleStep::StageChunk { chunk } => if chunk + 1 < chunks {
                SingleStep::StageChunk { chunk: (chunk + 1) as usize }
            } else {
                SingleStep::StageFinish
            },
            SingleStep::StageFinish => SingleStep::StartGet,
            SingleStep::StartGet => SingleStep::Reset,
            SingleStep::Reset => SingleStep::Report,
            SingleStep::Report => SingleStep::Report,
        }
    }

    pub fn following(self, chunks: usize) -> (r: SingleStep)
        ensures
            r == self.next(chunks),
    {
        match self {
            SingleStep::BeginGetter => SingleStep::InitGetter,
            SingleStep::InitGetter => SingleStep::OpenPutters,
            SingleStep::OpenPutters => SingleStep::Preload,
            SingleStep::Preload => SingleStep::StageBegin,
            SingleStep::StageBegin => {
                if chunks > 0 {
                    SingleStep::StageChunk { chunk: 0 }
                } else {
                    SingleStep::StageFinish
                }
            },
            SingleStep::StageChunk { chunk } => {
                if chunks > 0 && chunk < chunks - 1 {
                    SingleStep::StageChunk { chunk: chunk + 1 }
                } else {
                    SingleStep::StageFinish
                }
            },
            SingleStep::StageFinish => SingleStep::StartGet,
            SingleStep::StartGet => SingleStep::Reset,
            SingleStep::Reset => SingleStep::Report,
            SingleStep::Report => SingleStep::Report,
        }
    }

    /// Where a step stands in the order of a datapoint.
    pub open spec fn rank(self, chunks: usize) -> int {
        match self {
            SingleStep::BeginGetter => 0,
            SingleStep::InitGetter => 1,
            SingleStep::OpenPutters => 2,
            SingleStep::Preload => 3,
            SingleStep::StageBegin => 4,
            SingleStep::StageChunk { chunk } => 5 + chunk,
            SingleStep::StageFinish => 5 + chunks,
            SingleStep::StartGet => 6 + chunks,
            SingleStep::Reset => 7 + chunks,
            SingleStep::Report => 8 + chunks,
        }
    }

    /// The steps come in order, none is left out, and every datapoint ends.
    pub proof fn lemma_steps_in_order(self, chunks: usize)
        requires
            self matches SingleStep::StageChunk { chunk } ==> chunk < chunks,
            self != SingleStep::Report,
        ensures
            self.next(chunks).rank(chunks) == self.rank(chunks) + 1,
    {
    }
}

// ---------------------------------------------------------------------------------------------
// What the getters did together
// ---------------------------------------------------------------------------------------------
/// A getter's result under its id.
#[derive(Debug)]
pub struct GetterReport {
    pub instance_id: String,
    pub count: usize,
    pub total_bytes: u64,
    pub elapsed_ms: Real,
    pub materialized_dir: String,
    pub paced: PacedTaskRunReport,
}

impl GetterReport {
    pub fn from_result(instance_id: &str, result: PacedBlobGetResult) -> (r: GetterReport)
        ensures
            r.instance_id@ == instance_id@,
            r == (GetterReport {
                instance_id: r.instance_id,
                count: result.count,
                total_bytes: result.total_bytes,
                elapsed_ms: result.elapsed_ms,
                materialized_dir: result.materialized_dir,
                paced: result.paced,
            }),
    {
        GetterReport {
            instance_id: instance_id.to_owned(),
            count: result.count,
            total_bytes: result.total_bytes,
            elapsed_ms: result.elapsed_ms,
            materialized_dir: result.materialized_dir,
            paced: result.paced,
        }
    }
}

/// A putter's result under its id.
#[derive(Debug)]
pub struct PutterReport {
    pub instance_id: String,
    pub planned_count: usize,
    pub count: usize,
    pub total_bytes: u64,
    pub elapsed_ms: Real,
}

impl PutterReport {
    pub fn from_result(instance_id: &str, planned_count: usize, result: &BlobPutResult) -> (r:
        PutterReport)
        ensures
            r.instance_id@ == instance_id@,
            r.planned_count == planned_count,
            r.count == result.count,
            r.total_bytes == result.total_bytes,
            r.elapsed_ms == result.elapsed_ms,
    {
        PutterReport {
            instance_id: instance_id.to_owned(),
            planned_count,
            count: result.count,
            total_bytes: result.total_bytes,
            elapsed_ms: result.elapsed_ms,
        }
    }
}

pub open spec fn tasks_sum(s: Seq<GetterReport>) -> nat
    decreases s.len(),
{
    if s.len() == 0 {
        0
    } else {
        tasks_sum(s.drop_last()) + s.last().paced.total_tasks as nat
    }
}

pub open spec fn completed_sum(s: Seq<GetterReport>) -> nat
    decreases s.len(),
{
    if s.len() == 0 {
        0
    } else {
        completed_sum(s.drop_last()) + s.last().paced.completed_tasks as nat
    }
}

pub open spec fn failed_sum(s: Seq<GetterReport>) -> nat
    decreases s.len(),
{
    if s.len() == 0 {
        0
    } else {
        failed_sum(s.drop_last()) + s.last().paced.failed_tasks as nat
    }
}

pub open spec fn longest_wall(s: Seq<GetterReport>) -> Real
    decreases s.len(),
{
    if s.len() == 0 {
        Real::zero_spec()
    } else {
        sweep::larger(longest_wall(s.drop_last()), s.last().paced.wall_time_ms)
    }
}

pub open spec fn offered_all(s: Seq<GetterReport>) -> Seq<Real>
    decreases s.len(),
{
    if s.len() == 0 {
        Seq::empty()
    } else {
        offered_all(s.drop_last()) + paced::offered_of(s.last().paced.samples@)
    }
}

pub open spec fn service_all(s: Seq<GetterReport>) -> Seq<Real>
    decreases s.len(),
{
    if s.len() == 0 {
        Seq::empty()
    } else {
        service_all(s.drop_last()) + paced::service_of(s.last().paced.samples@)
    }
}

pub open spec fn lag_all(s: Seq<GetterReport>) -> Seq<Real>
    decreases s.len(),
{
    if s.len() == 0 {
        Seq::empty()
    } else {
        lag_all(s.drop_last()) + paced::lag_of(s.last().paced.samples@)
    }
}

/// The first failures of a getter behind its id.
pub open spec fn getter_failures(id: Seq<char>, failures: Seq<PacedTaskFailure>) -> Seq<Seq<char>> {
    paced::failure_lines_spec(failures).map_values(|line: Seq<char>| id + " "@ + line)
}

/// The failures of a datapoint: those of whole getters, then the first of each getter.
pub open spec fn failures_all(s: Seq<GetterReport>, logged: Seq<Seq<char>>) -> Seq<Seq<char>>
    decreases s.len(),
{
    if s.len() == 0 {
        logged
    } else {
        failures_all(s.drop_last(), logged) + getter_failures(
            s.last().instance_id@,
            s.last().paced.failures@,
        )
    }
}

proof fn lemma_sums_grow(s: Seq<GetterReport>, n: int)
    requires
        0 <= n <= s.len(),
    ensures
        tasks_sum(s.take(n)) <= tasks_sum(s),
        completed_sum(s.take(n)) <= completed_sum(s),
        failed_sum(s.take(n)) <= failed_sum(s),
    decreases s.len() - n,
{
    if n < s.len() {
        lemma_sums_grow(s, n + 1);
        assert(s.take(n + 1).drop_last() =~= s.take(n));
    } else {
        assert(s.take(n) =~= s);
    }
}

fn push_all(out: &mut Vec<Real>, values: Vec<Real>)
    ensures
        final(out)@ == old(out)@ + values@,
{
    let mut tail = values;
    out.append(&mut tail);
}

fn push_failures(lines: &mut Vec<String>, id: &str, failures: &Vec<PacedTaskFailure>)
    ensures
        text::views(final(lines)@) == text::views(old(lines)@) + getter_failures(
            id@,
            failures@,
        ),
{
    let plain = paced::failure_lines(failures);
    let ghost start = text::views(lines@);
    let ghost all = getter_failures(id@, failures@);
    let mut i: usize = 0;
    assert(text::views(lines@) =~= start + all.take(0));
    while i < plain.len()
        invariant
            i <= plain@.len(),
            text::views(plain@) == paced::failure_lines_spec(failures@),
            all == getter_failures(id@, failures@),
            text::views(lines@) == start + all.take(i as int),
        decreases plain.len() - i,
    {
        let line = text::cat3(id, " ", plain[i].as_str());
        assert(text::views(plain@)[i as int] == plain@[i as int]@);
        assert(all[i as int] == line@);
        let ghost before = text::views(lines@);
        lines.push(line);
        assert(text::views(lines@) =~= before.push(line@));
        assert(text::views(lines@) =~= start + all.take(i + 1));
        i = i + 1;
    }
    assert(text::views(plain@).len() == plain@.len());
    assert(all.take(i as int) =~= all);
}

/// The figures of the getters that are not whole numbers.
#[derive(Clone, Copy, Debug)]
pub struct GetterFigures {
    pub target_ops_per_s: Real,
    pub achieved_ops_per_s: Real,
    pub successful_ops_per_s: Real,
    pub offered_mean_ms: Real,
    pub service_mean_ms: Real,
    pub lag_mean_ms: Real,
}

/// Adds up what the getters did. A getter without a result counts as one failed task.
pub fn aggregate_getters(
    getters: &Vec<GetterReport>,
    failures: Vec<String>,
    figures: GetterFigures,
) -> (r: AggregatePacedSummary)
    requires
        tasks_sum(getters@) <= usize::MAX,
        completed_sum(getters@) <= usize::MAX,
        failed_sum(getters@) + failures@.len() <= usize::MAX,
    ensures
        r.target_ops_per_s == figures.target_ops_per_s,
        r.achieved_ops_per_s == figures.achieved_ops_per_s,
        r.successful_ops_per_s == figures.successful_ops_per_s,
        r.total_tasks == tasks_sum(getters@),
        r.completed_tasks == completed_sum(getters@),
        r.failed_tasks == failed_sum(getters@) + failures@.len(),
        r.wall_time_ms == longest_wall(getters@),
        r.offered_latency == LatencySummary::of(offered_all(getters@), figures.offered_mean_ms),
        r.service_latency == LatencySummary::of(service_all(getters@), figures.service_mean_ms),
        r.schedule_lag == LatencySummary::of(lag_all(getters@), figures.lag_mean_ms),
        text::views(r.failure_messages@) == failures_all(getters@, text::views(failures@)),
{
    let whole: usize = failures.len();
    let mut failure_messages = failures;
    let ghost logged = text::views(failure_messages@);
    let mut total_tasks: usize = 0;
    let mut completed_tasks: usize = 0;
    let mut failed_tasks: usize = 0;
    let mut wall_time_ms = Real::zero();
    let mut offered: Vec<Real> = Vec::new();
    let mut service: Vec<Real> = Vec::new();
    let mut lag: Vec<Real> = Vec::new();
    let mut i: usize = 0;
    assert(getters@.take(0) =~= Seq::<GetterReport>::empty());
    while i < getters.len()
        invariant
            i <= getters@.len(),
            tasks_sum(getters@) <= usize::MAX,
            completed_sum(getters@) <= usize::MAX,
            failed_sum(getters@) + whole <= usize::MAX,
            total_tasks == tasks_sum(getters@.take(i as int)),
            completed_tasks == completed_sum(getters@.take(i as int)),
            failed_tasks == failed_sum(getters@.take(i as int)),
            wall_time_ms == longest_wall(getters@.take(i as int)),
            offered@ == offered_all(getters@.take(i as int)),
            service@ == service_all(getters@.take(i as int)),
            lag@ == lag_all(getters@.take(i as int)),
            text::views(failure_messages@) == failures_all(getters@.take(i as int), logged),
        decreases getters.len() - i,
    {
        assert(getters@.take(i + 1).drop_last() =~= getters@.take(i as int));
        proof {
            lemma_sums_grow(getters@, i + 1);
        }
        let paced = &getters[i].paced;
        total_tasks = total_tasks + paced.total_tasks;
        completed_tasks = completed_tasks + paced.completed_tasks;
        failed_tasks = failed_tasks + paced.failed_tasks;
        wall_time_ms = sweep::max_real(wall_time_ms, paced.wall_time_ms);
        push_all(&mut offered, paced::offered_latencies(&paced.samples));
        push_all(&mut service, paced::service_latencies(&paced.samples));
        push_all(&mut lag, paced::schedule_lags(&paced.samples));
        push_failures(&mut failure_messages, getters[i].instance_id.as_str(), &paced.failures);
        i = i + 1;
    }
    assert(getters@.take(i as int) =~= getters@);
    AggregatePacedSummary {
        target_ops_per_s: figures.target_ops_per_s,
        achieved_ops_per_s: figures.achieved_ops_per_s,
        successful_ops_per_s: figures.successful_ops_per_s,
        total_tasks,
        completed_tasks,
        failed_tasks: failed_tasks + whole,
        wall_time_ms,
        offered_latency: LatencySummary::from_samples(&offered, figures.offered_mean_ms),
        service_latency: LatencySummary::from_samples(&service, figures.service_mean_ms),
        schedule_lag: LatencySummary::from_samples(&lag, figures.lag_mean_ms),
        failure_messages,
    }
}

/// The operations of all getters together.
pub fn operations_of_all(per_getter: usize, getters: usize) -> (r: u64)
    ensures
        r == text::min_int(per_getter * getters, usize::MAX as int),
{
    match per_getter.checked_mul(getters) {
        Some(n) => n as u64,
        None => usize::MAX as u64,
    }
}

// ---------------------------------------------------------------------------------------------
// A direct get
// ---------------------------------------------------------------------------------------------
#[derive(Clone, Copy, Debug, PartialEq, Eq, Structural)]
pub enum BlobGetStep {
    BeginPeer,
    InitPeer,
    PutOnPeer,
    BeginHere,
    InitHere,
    GetHere,
    ResetPeer,
    ResetHere,
    Done,
}

impl BlobGetStep {
    /// The step that follows; a step that fails fails the get.
    pub open spec fn next(self, cleanup: bool) -> BlobGetStep {
        match self {
            BlobGetStep::BeginPeer => BlobGetStep::InitPeer,
            BlobGetStep::InitPeer => BlobGetStep::PutOnPeer,
            BlobGetStep::PutOnPeer => BlobGetStep::BeginHere,
            BlobGetStep::BeginHere => BlobGetStep::InitHere,
            BlobGetStep::InitHere => BlobGetStep::GetHere,
            BlobGetStep::GetHere => if cleanup {
                BlobGetStep::ResetPeer
            } else {
                BlobGetStep::Done
            },
            BlobGetStep::ResetPeer => BlobGetStep::ResetHere,
            BlobGetStep::ResetHere => BlobGetStep::Done,
            BlobGetStep::Done => BlobGetStep::Done,
        }
    }

    pub fn following(self, cleanup: bool) -> (r: BlobGetStep)
        ensures
            r == self.next(cleanup),
    {
        match self {
            BlobGetStep::BeginPeer => BlobGetStep::InitPeer,
            BlobGetStep::InitPeer => BlobGetStep::PutOnPeer,
            BlobGetStep::PutOnPeer => BlobGetStep::BeginHere,
            BlobGetStep::BeginHere => BlobGetStep::InitHere,
            BlobGetStep::InitHere => BlobGetStep::GetHere,
            BlobGetStep::GetHere => {
                if cleanup {
                    BlobGetStep::ResetPeer
                } else {
                    BlobGetStep::Done
                }
            },
            BlobGetStep::ResetPeer => BlobGetStep::ResetHere,
            BlobGetStep::ResetHere => BlobGetStep::Done,
            BlobGetStep::Done => BlobGetStep::Done,
        }
    }
}

/// Why a direct get cannot be made.
pub open spec fn blob_get_problem(instances: InstancesConfig, request: RunBlobGetRequest) -> Option<
    Seq<char>,
> {
    if text::is_blank_spec(request.peer_instance_id@) {
        Some("peer_instance_id must not be empty"@)
    } else if !instances.has_id(request.peer_instance_id@) {
        Some("unknown peer instance id: "@ + request.peer_instance_id@)
    } else {
        None
    }
}

pub fn check_blob_get(instances: &InstancesConfig, request: &RunBlobGetRequest) -> (r: Result<
    (),
    String,
>)
    ensures
        match r {
            Ok(_) => blob_get_problem(*instances, *request) is None,
            Err(m) => blob_get_problem(*instances, *request) == Some(m@),
        },
{
    if text::is_blank(request.peer_instance_id.as_str()) {
        return Err("peer_instance_id must not be empty".to_owned());
    }
    if instances.find_instance(request.peer_instance_id.as_str()).is_none() {
        return Err(
            text::cat2("unknown peer instance id: ", request.peer_instance_id.as_str()),
        );
    }
    Ok(())
}

/// Whether the run of the getting node may be replaced: not where it is the peer, which holds the
/// blobs in it.
pub fn force_reset_here(request: &RunBlobGetRequest, own_id: &str) -> (r: bool)
    ensures
        r == (request.force_reset && request.peer_instance_id@ != own_id@),
{
    request.force_reset && !text::same(request.peer_instance_id.as_str(), own_id)
}

/// What the peer of a direct get is asked to put.
pub fn direct_put_request(request: &RunBlobGetRequest) -> (r: PutBlobBatchRequest)
    ensures
        r.run_id == request.run_id,
        r.count == request.count,
        r.object_size_bytes == request.object_size_bytes,
        r.max_in_flight == 1,
{
    PutBlobBatchRequest {
        run_id: request.run_id.clone(),
        count: request.count,
        object_size_bytes: request.object_size_bytes,
        max_in_flight: 1,
    }
}

/// What a direct get fetches: everything that the peer has put, in order.
pub fn direct_get_request(request: &RunBlobGetRequest, put: &BlobPutResult) -> (r:
    GetBlobBatchRequest)
    ensures
        r.run_id == request.run_id,
        native::trees(r.refs@) == native::trees(put.refs@),
        r.refs@.len() == put.refs@.len(),
{
    let refs = native::copy_json(&put.refs, 0, put.refs.len());
    assert(native::trees(refs@) =~= native::trees(put.refs@));
    GetBlobBatchRequest { run_id: request.run_id.clone(), refs }
}

/// What a direct get answers.
pub fn blob_get_response(
    request: &RunBlobGetRequest,
    own_id: &str,
    outcome: Result<(&BlobPutResult, &BlobGetResult), String>,
) -> (r: RunBlobGetResponse)
    ensures
        r.coordinator_id@ == own_id@,
        r.peer_instance_id == request.peer_instance_id,
        r.run_id == request.run_id,
        match outcome {
            Ok((put, get)) => {
                &&& r.ok
                &&& r.prepared_count == put.count
                &&& r.materialized_count == get.count
                &&& r.total_bytes == get.total_bytes
                &&& r.peer_put_elapsed_ms == put.elapsed_ms
                &&& r.local_get_elapsed_ms == get.elapsed_ms
                &&& r.message@ == "blob get completed"@
            },
            Err(m) => {
                &&& !r.ok
                &&& r.prepared_count == 0
                &&& r.materialized_count == 0
                &&& r.total_bytes == 0
                &&& r.peer_put_elapsed_ms == Real::zero_spec()
                &&& r.local_get_elapsed_ms == Real::zero_spec()
                &&& r.message@ == m@
            },
        },
{
    match outcome {
        Ok((put, get)) => RunBlobGetResponse {
            ok: true,
            coordinator_id: own_id.to_owned(),
            peer_instance_id: request.peer_instance_id.clone(),
            run_id: request.run_id.clone(),
            prepared_count: put.count,
            materialized_count: get.count,
            total_bytes: get.total_bytes,
            peer_put_elapsed_ms: put.elapsed_ms,
            local_get_elapsed_ms: get.elapsed_ms,
            message: "blob get completed".to_owned(),
        },
        Err(message) => RunBlobGetResponse {
            ok: false,
            coordinator_id: own_id.to_owned(),
            peer_instance_id: request.peer_instance_id.clone(),
            run_id: request.run_id.clone(),
            prepared_count: 0,
            materialized_count: 0,
            total_bytes: 0,
            peer_put_elapsed_ms: Real::zero(),
            local_get_elapsed_ms: Real::zero(),
            message,
        },
    }
}

/// The answer of another node to a direct get.
pub fn accept_blob_get(response: RunBlobGetResponse, target_id: &str) -> (r: Result<
    RunBlobGetResponse,
    String,
>)
    ensures
        match r {
            Ok(x) => response.ok && x == response,
            Err(m) => !response.ok && m@ == "target "@ + target_id@ + " rejected run_blob_get: "@
                + response.message@,
        },
{
    if response.ok {
        Ok(response)
    } else {
        Err(
            text::cat4("target ", target_id, " rejected run_blob_get: ", response.message.as_str()),
        )
    }
}

/// The node that gets what it has put: the worker, else the first participant, else this one.
pub fn worker_id(experiment: &ExperimentSpec, own_id: &str) -> (r: String)
    ensures
        r@ == match targets::with_label_from(experiment.participants@, "worker"@, 0) {
            Some(id) => id,
            None => if experiment.participants@.len() > 0 {
                experiment.participants@[0].instance_id@
            } else {
                own_id@
            },
        },
{
    match targets::participant_by_label(experiment, "worker") {
        Some(id) => id,
        None => match targets::first_participant_id(experiment) {
            Some(id) => id,
            None => own_id.to_owned(),
        },
    }
}

/// The request of the get-and-materialize experiment to its worker.
pub fn materialize_request(experiment: &ExperimentSpec, worker_id: &str) -> (r: RunBlobGetRequest)
    requires
        experiment.benchmark.operations <= usize::MAX,
    ensures
        r.run_id == experiment.run.run_id,
        r.peer_instance_id@ == worker_id@,
        r.count == experiment.benchmark.operations,
        r.object_size_bytes == experiment.benchmark.object_size_bytes,
        r.blob_store_backend == experiment.benchmark.backend,
        r.barrier_timeout_ms == experiment.coordination.barrier_timeout_ms,
        r.force_reset == experiment.coordination.force_reset_on_start,
        r.cleanup,
{
    RunBlobGetRequest {
        run_id: experiment.run.run_id.clone(),
        peer_instance_id: worker_id.to_owned(),
        count: experiment.benchmark.operations as usize,
        object_size_bytes: experiment.benchmark.object_size_bytes,
        blob_store_backend: experiment.benchmark.backend.clone(),
        barrier_timeout_ms: experiment.coordination.barrier_timeout_ms,
        force_reset: experiment.coordination.force_reset_on_start,
        cleanup: true,
    }
}

/// The line that the get-and-materialize experiment ends with.
pub fn materialize_line(workload: &str, get: &RunBlobGetResponse, shown_get_ms: &str) -> (r: String)
    ensures
        r@ == workload@ + " coordinator="@ + get.coordinator_id@ + " peer="@ + get.peer_instance_id@
            + " prepared="@ + text::dec(get.prepared_count as nat) + " materialized="@ + text::dec(
            get.materialized_count as nat,
        ) + " total_bytes="@ + text::dec(get.total_bytes as nat) + " get_ms="@ + shown_get_ms@,
{
    let head = text::cat7(
        workload,
        " coordinator=",
        get.coordinator_id.as_str(),
        " peer=",
        get.peer_instance_id.as_str(),
        " prepared=",
        text::decimal(get.prepared_count as u64).as_str(),
    );
    text::cat7(
        head.as_str(),
        " materialized=",
        text::decimal(get.materialized_count as u64).as_str(),
        " total_bytes=",
        text::decimal(get.total_bytes).as_str(),
        " get_ms=",
        shown_get_ms,
    )
}

// ---------------------------------------------------------------------------------------------
// What the aggregate says of the getters
// ---------------------------------------------------------------------------------------------

proof fn lemma_tasks_sum_splits(a: Seq<GetterReport>, b: Seq<GetterReport>)
    ensures
        tasks_sum(a + b) == tasks_sum(a) + tasks_sum(b),
    decreases b.len(),
{
    if b.len() == 0 {
        assert(a + b =~= a);
    } else {
        lemma_tasks_sum_splits(a, b.drop_last());
        assert((a + b).drop_last() =~= a + b.drop_last());
    }
}

proof fn lemma_completed_sum_splits(a: Seq<GetterReport>, b: Seq<GetterReport>)
    ensures
        completed_sum(a + b) == completed_sum(a) + completed_sum(b),
    decreases b.len(),
{
    if b.len() == 0 {
        assert(a + b =~= a);
    } else {
        lemma_completed_sum_splits(a, b.drop_last());
        assert((a + b).drop_last() =~= a + b.drop_last());
    }
}

proof fn lemma_failed_sum_splits(a: Seq<GetterReport>, b: Seq<GetterReport>)
    ensures
        failed_sum(a + b) == failed_sum(a) + failed_sum(b),
    decreases b.len(),
{
    if b.len() == 0 {
        assert(a + b =~= a);
    } else {
        lemma_failed_sum_splits(a, b.drop_last());
        assert((a + b).drop_last() =~= a + b.drop_last());
    }
}

proof fn lemma_offered_all_splits(a: Seq<GetterReport>, b: Seq<GetterReport>)
    ensures
        offered_all(a + b) == offered_all(a) + offered_all(b),
    decreases b.len(),
{
    if b.len() == 0 {
        assert(a + b =~= a);
        assert(offered_all(a) + offered_all(b) =~= offered_all(a));
    } else {
        lemma_offered_all_splits(a, b.drop_last());
        assert((a + b).drop_last() =~= a + b.drop_last());
        assert(offered_all(a + b) =~= offered_all(a) + offered_all(b));
    }
}

proof fn lemma_service_all_splits(a: Seq<GetterReport>, b: Seq<GetterReport>)
    ensures
        service_all(a + b) == service_all(a) + service_all(b),
    decreases b.len(),
{
    if b.len() == 0 {
        assert(a + b =~= a);
        assert(service_all(a) + service_all(b) =~= service_all(a));
    } else {
        lemma_service_all_splits(a, b.drop_last());
        assert((a + b).drop_last() =~= a + b.drop_last());
        assert(service_all(a + b) =~= service_all(a) + service_all(b));
    }
}

proof fn lemma_lag_all_splits(a: Seq<GetterReport>, b: Seq<GetterReport>)
    ensures
        lag_all(a + b) == lag_all(a) + lag_all(b),
    decreases b.len(),
{
    if b.len() == 0 {
        assert(a + b =~= a);
        assert(lag_all(a) + lag_all(b) =~= lag_all(a));
    } else {
        lemma_lag_all_splits(a, b.drop_last());
        assert((a + b).drop_last() =~= a + b.drop_last());
        assert(lag_all(a + b) =~= lag_all(a) + lag_all(b));
    }
}

/// The figures of two groups of getters together are those of the one and those of the other: numbers
/// of tasks add up, and samples stand behind each other.
pub proof fn lemma_groups_of_getters_add_up(a: Seq<GetterReport>, b: Seq<GetterReport>)
    ensures
        tasks_sum(a + b) == tasks_sum(a) + tasks_sum(b),
        completed_sum(a + b) == completed_sum(a) + completed_sum(b),
        failed_sum(a + b) == failed_sum(a) + failed_sum(b),
        offered_all(a + b) == offered_all(a) + offered_all(b),
        service_all(a + b) == service_all(a) + service_all(b),
        lag_all(a + b) == lag_all(a) + lag_all(b),
{
    lemma_tasks_sum_splits(a, b);
    lemma_completed_sum_splits(a, b);
    lemma_failed_sum_splits(a, b);
    lemma_offered_all_splits(a, b);
    lemma_service_all_splits(a, b);
    lemma_lag_all_splits(a, b);
}

/// One getter alone counts with its own numbers, and each of its samples with the three latencies of
/// that sample.
pub proof fn lemma_one_getter_counts(g: GetterReport)
    ensures
        tasks_sum(seq![g]) == g.paced.total_tasks,
        completed_sum(seq![g]) == g.paced.completed_tasks,
        failed_sum(seq![g]) == g.paced.failed_tasks,
        offered_all(seq![g]).len() == g.paced.samples@.len(),
        service_all(seq![g]).len() == g.paced.samples@.len(),
        lag_all(seq![g]).len() == g.paced.samples@.len(),
        forall|i: int|
            0 <= i < g.paced.samples@.len() ==> #[trigger] offered_all(seq![g])[i]
                == g.paced.samples@[i].offered_latency_ms,
        forall|i: int|
            0 <= i < g.paced.samples@.len() ==> #[trigger] service_all(seq![g])[i]
                == g.paced.samples@[i].service_latency_ms,
        forall|i: int|
            0 <= i < g.paced.samples@.len() ==> #[trigger] lag_all(seq![g])[i]
                == g.paced.samples@[i].schedule_lag_ms,
{
    assert(seq![g].drop_last() =~= Seq::<GetterReport>::empty());
    reveal_with_fuel(tasks_sum, 2);
    reveal_with_fuel(completed_sum, 2);
    reveal_with_fuel(failed_sum, 2);
    reveal_with_fuel(offered_all, 2);
    reveal_with_fuel(service_all, 2);
    reveal_with_fuel(lag_all, 2);
}

/// How many samples the getters have together.
pub open spec fn samples_of_all(s: Seq<GetterReport>) -> nat
    decreases s.len(),
{
    if s.len() == 0 {
        0
    } else {
        samples_of_all(s.drop_last()) + s.last().paced.samples@.len()
    }
}

/// Some getter has a sample with this service latency.
pub open spec fn is_a_service_latency(s: Seq<GetterReport>, x: Real) -> bool {
    exists|g: int, i: int|
        0 <= g < s.len() && 0 <= i < s[g].paced.samples@.len() && (
        #[trigger] s[g].paced.samples@[i]).service_latency_ms == x
}

/// Some getter has a sample with this offered latency.
pub open spec fn is_an_offered_latency(s: Seq<GetterReport>, x: Real) -> bool {
    exists|g: int, i: int|
        0 <= g < s.len() && 0 <= i < s[g].paced.samples@.len() && (
        #[trigger] s[g].paced.samples@[i]).offered_latency_ms == x
}

/// Some getter has a sample with this schedule lag.
pub open spec fn is_a_schedule_lag(s: Seq<GetterReport>, x: Real) -> bool {
    exists|g: int, i: int|
        0 <= g < s.len() && 0 <= i < s[g].paced.samples@.len() && (
        #[trigger] s[g].paced.samples@[i]).schedule_lag_ms == x
}

proof fn lemma_service_comes_from_samples(s: Seq<GetterReport>)
    ensures
        service_all(s).len() == samples_of_all(s),
        forall|k: int| 0 <= k < service_all(s).len() ==> is_a_service_latency(s, #[trigger] service_all(s)[k]),
    decreases s.len(),
{
    if s.len() > 0 {
        let init = s.drop_last();
        let before = service_all(init);
        lemma_service_comes_from_samples(init);
        assert forall|k: int| 0 <= k < service_all(s).len() implies is_a_service_latency(s, #[trigger] service_all(s)[k]) by {
            if k < before.len() {
                assert(service_all(s)[k] == before[k]);
                let (g, i) = choose|g: int, i: int|
                    0 <= g < init.len() && 0 <= i < init[g].paced.samples@.len() && (
                    #[trigger] init[g].paced.samples@[i]).service_latency_ms == before[k];
                assert(s[g].paced.samples@[i].service_latency_ms == before[k]);
            } else {
                assert(s[s.len() - 1].paced.samples@[k - before.len()].service_latency_ms == service_all(s)[k]);
            }
        }
    }
}

proof fn lemma_service_holds_all_samples(s: Seq<GetterReport>, g: int, i: int)
    requires
        0 <= g < s.len(),
        0 <= i < s[g].paced.samples@.len(),
    ensures
        service_all(s).contains(s[g].paced.samples@[i].service_latency_ms),
    decreases s.len(),
{
    let init = s.drop_last();
    let before = service_all(init);
    let x = s[g].paced.samples@[i].service_latency_ms;
    if g < init.len() {
        assert(init[g] == s[g]);
        lemma_service_holds_all_samples(init, g, i);
        let k = choose|k: int| 0 <= k < before.len() && before[k] == x;
        assert(service_all(s)[k] == x);
    } else {
        assert(service_all(s)[before.len() + i] == x);
    }
}

proof fn lemma_offered_comes_from_samples(s: Seq<GetterReport>)
    ensures
        offered_all(s).len() == samples_of_all(s),
        forall|k: int| 0 <= k < offered_all(s).len() ==> is_an_offered_latency(s, #[trigger] offered_all(s)[k]),
    decreases s.len(),
{
    if s.len() > 0 {
        let init = s.drop_last();
        let before = offered_all(init);
        lemma_offered_comes_from_samples(init);
        assert forall|k: int| 0 <= k < offered_all(s).len() implies is_an_offered_latency(s, #[trigger] offered_all(s)[k]) by {
            if k < before.len() {
                assert(offered_all(s)[k] == before[k]);
                let (g, i) = choose|g: int, i: int|
                    0 <= g < init.len() && 0 <= i < init[g].paced.samples@.len() && (
                    #[trigger] init[g].paced.samples@[i]).offered_latency_ms == before[k];
                assert(s[g].paced.samples@[i].offered_latency_ms == before[k]);
            } else {
                assert(s[s.len() - 1].paced.samples@[k - before.len()].offered_latency_ms == offered_all(s)[k]);
            }
        }
    }
}

proof fn lemma_offered_holds_all_samples(s: Seq<GetterReport>, g: int, i: int)
    requires
        0 <= g < s.len(),
        0 <= i < s[g].paced.samples@.len(),
    ensures
        offered_all(s).contains(s[g].paced.samples@[i].offered_latency_ms),
    decreases s.len(),
{
    let init = s.drop_last();
    let before = offered_all(init);
    let x = s[g].paced.samples@[i].offered_latency_ms;
    if g < init.len() {
        assert(init[g] == s[g]);
        lemma_offered_holds_all_samples(init, g, i);
        let k = choose|k: int| 0 <= k < before.len() && before[k] == x;
        assert(offered_all(s)[k] == x);
    } else {
        assert(offered_all(s)[before.len() + i] == x);
    }
}

proof fn lemma_lag_comes_from_samples(s: Seq<GetterReport>)
    ensures
        lag_all(s).len() == samples_of_all(s),
        forall|k: int| 0 <= k < lag_all(s).len() ==> is_a_schedule_lag(s, #[trigger] lag_all(s)[k]),
    decreases s.len(),
{
    if s.len() > 0 {
        let init = s.drop_last();
        let before = lag_all(init);
        lemma_lag_comes_from_samples(init);
        assert forall|k: int| 0 <= k < lag_all(s).len() implies is_a_schedule_lag(s, #[trigger] lag_all(s)[k]) by {
            if k < before.len() {
                assert(lag_all(s)[k] == before[k]);
                let (g, i) = choose|g: int, i: int|
                    0 <= g < init.len() && 0 <= i < init[g].paced.samples@.len() && (
                    #[trigger] init[g].paced.samples@[i]).schedule_lag_ms == before[k];
                assert(s[g].paced.samples@[i].schedule_lag_ms == before[k]);
            } else {
                assert(s[s.len() - 1].paced.samples@[k - before.len()].schedule_lag_ms == lag_all(s)[k]);
            }
        }
    }
}

proof fn lemma_lag_holds_all_samples(s: Seq<GetterReport>, g: int, i: int)
    requires
        0 <= g < s.len(),
        0 <= i < s[g].paced.samples@.len(),
    ensures
        lag_all(s).contains(s[g].paced.samples@[i].schedule_lag_ms),
    decreases s.len(),
{
    let init = s.drop_last();
    let before = lag_all(init);
    let x = s[g].paced.samples@[i].schedule_lag_ms;
    if g < init.len() {
        assert(init[g] == s[g]);
        lemma_lag_holds_all_samples(init, g, i);
        let k = choose|k: int| 0 <= k < before.len() && before[k] == x;
        assert(lag_all(s)[k] == x);
    } else {
        assert(lag_all(s)[before.len() + i] == x);
    }
}

/// Each of the three lists of latencies has one entry for every sample of every getter, taken from
/// the field of that name, and nothing else.
pub proof fn lemma_latencies_of_all_getters(s: Seq<GetterReport>)
    ensures
        service_all(s).len() == samples_of_all(s),
        offered_all(s).len() == samples_of_all(s),
        lag_all(s).len() == samples_of_all(s),
        forall|k: int|
            0 <= k < service_all(s).len() ==> is_a_service_latency(s, #[trigger] service_all(s)[k]),
        forall|k: int|
            0 <= k < offered_all(s).len() ==> is_an_offered_latency(s, #[trigger] offered_all(s)[k]),
        forall|k: int| 0 <= k < lag_all(s).len() ==> is_a_schedule_lag(s, #[trigger] lag_all(s)[k]),
{
    lemma_service_comes_from_samples(s);
    lemma_offered_comes_from_samples(s);
    lemma_lag_comes_from_samples(s);
}

/// Every sample of every getter is among the latencies, with each of its three.
pub proof fn lemma_every_sample_counts(s: Seq<GetterReport>, g: int, i: int)
    requires
        0 <= g < s.len(),
        0 <= i < s[g].paced.samples@.len(),
    ensures
        service_all(s).contains(s[g].paced.samples@[i].service_latency_ms),
        offered_all(s).contains(s[g].paced.samples@[i].offered_latency_ms),
        lag_all(s).contains(s[g].paced.samples@[i].schedule_lag_ms),
{
    lemma_service_holds_all_samples(s, g, i);
    lemma_offered_holds_all_samples(s, g, i);
    lemma_lag_holds_all_samples(s, g, i);
}

proof fn lemma_service_member(s: Seq<GetterReport>, x: Real)
    requires
        service_all(s).contains(x),
    ensures
        is_a_service_latency(s, x),
{
    lemma_service_comes_from_samples(s);
    let k = choose|k: int| 0 <= k < service_all(s).len() && service_all(s)[k] == x;
    assert(is_a_service_latency(s, service_all(s)[k]));
}

proof fn lemma_service_count(s: Seq<GetterReport>)
    ensures
        service_all(s).len() == samples_of_all(s),
{
    lemma_service_comes_from_samples(s);
}

#[verifier::spinoff_prover]
proof fn lemma_service_figures(s: Seq<GetterReport>, mean_ms: Real)
    requires
        0 < samples_of_all(s) <= usize::MAX,
    ensures
        ({
            let r = LatencySummary::of(service_all(s), mean_ms);
            &&& r.count == samples_of_all(s)
            &&& is_a_service_latency(s, r.min_ms)
            &&& is_a_service_latency(s, r.p50_ms)
            &&& is_a_service_latency(s, r.p90_ms)
            &&& is_a_service_latency(s, r.p95_ms)
            &&& is_a_service_latency(s, r.p99_ms)
            &&& is_a_service_latency(s, r.max_ms)
        }),
{
    let r = LatencySummary::of(service_all(s), mean_ms);
    lemma_service_count(s);
    latency::lemma_summary_is_of_samples(service_all(s), mean_ms);
    lemma_service_member(s, r.min_ms);
    lemma_service_member(s, r.p50_ms);
    lemma_service_member(s, r.p90_ms);
    lemma_service_member(s, r.p95_ms);
    lemma_service_member(s, r.p99_ms);
    lemma_service_member(s, r.max_ms);
}

proof fn lemma_offered_member(s: Seq<GetterReport>, x: Real)
    requires
        offered_all(s).contains(x),
    ensures
        is_an_offered_latency(s, x),
{
    lemma_offered_comes_from_samples(s);
    let k = choose|k: int| 0 <= k < offered_all(s).len() && offered_all(s)[k] == x;
    assert(is_an_offered_latency(s, offered_all(s)[k]));
}

proof fn lemma_offered_count(s: Seq<GetterReport>)
    ensures
        offered_all(s).len() == samples_of_all(s),
{
    lemma_offered_comes_from_samples(s);
}

#[verifier::spinoff_prover]
proof fn lemma_offered_figures(s: Seq<GetterReport>, mean_ms: Real)
    requires
        0 < samples_of_all(s) <= usize::MAX,
    ensures
        ({
            let r = LatencySummary::of(offered_all(s), mean_ms);
            &&& r.count == samples_of_all(s)
            &&& is_an_offered_latency(s, r.min_ms)
            &&& is_an_offered_latency(s, r.p50_ms)
            &&& is_an_offered_latency(s, r.p90_ms)
            &&& is_an_offered_latency(s, r.p95_ms)
            &&& is_an_offered_latency(s, r.p99_ms)
            &&& is_an_offered_latency(s, r.max_ms)
        }),
{
    let r = LatencySummary::of(offered_all(s), mean_ms);
    lemma_offered_count(s);
    latency::lemma_summary_is_of_samples(offered_all(s), mean_ms);
    lemma_offered_member(s, r.min_ms);
    lemma_offered_member(s, r.p50_ms);
    lemma_offered_member(s, r.p90_ms);
    lemma_offered_member(s, r.p95_ms);
    lemma_offered_member(s, r.p99_ms);
    lemma_offered_member(s, r.max_ms);
}

proof fn lemma_lag_member(s: Seq<GetterReport>, x: Real)
    requires
        lag_all(s).contains(x),
    ensures
        is_a_schedule_lag(s, x),
{
    lemma_lag_comes_from_samples(s);
    let k = choose|k: int| 0 <= k < lag_all(s).len() && lag_all(s)[k] == x;
    assert(is_a_schedule_lag(s, lag_all(s)[k]));
}

proof fn lemma_lag_count(s: Seq<GetterReport>)
    ensures
        lag_all(s).len() == samples_of_all(s),
{
    lemma_lag_comes_from_samples(s);
}

#[verifier::spinoff_prover]
proof fn lemma_lag_figures(s: Seq<GetterReport>, mean_ms: Real)
    requires
        0 < samples_of_all(s) <= usize::MAX,
    ensures
        ({
            let r = LatencySummary::of(lag_all(s), mean_ms);
            &&& r.count == samples_of_all(s)
            &&& is_a_schedule_lag(s, r.min_ms)
            &&& is_a_schedule_lag(s, r.p50_ms)
            &&& is_a_schedule_lag(s, r.p90_ms)
            &&& is_a_schedule_lag(s, r.p95_ms)
            &&& is_a_schedule_lag(s, r.p99_ms)
            &&& is_a_schedule_lag(s, r.max_ms)
        }),
{
    let r = LatencySummary::of(lag_all(s), mean_ms);
    lemma_lag_count(s);
    latency::lemma_summary_is_of_samples(lag_all(s), mean_ms);
    lemma_lag_member(s, r.min_ms);
    lemma_lag_member(s, r.p50_ms);
    lemma_lag_member(s, r.p90_ms);
    lemma_lag_member(s, r.p95_ms);
    lemma_lag_member(s, r.p99_ms);
    lemma_lag_member(s, r.max_ms);
}

/// Every figure of the aggregate but its means is the latency of a sample of some getter, of the kind
/// that it is named for.
pub proof fn lemma_aggregate_figures_are_samples(s: Seq<GetterReport>, mean_ms: Real)
    requires
        0 < samples_of_all(s) <= usize::MAX,
    ensures
        ({
            let r = LatencySummary::of(service_all(s), mean_ms);
            &&& r.count == samples_of_all(s)
            &&& is_a_service_latency(s, r.min_ms)
            &&& is_a_service_latency(s, r.p50_ms)
            &&& is_a_service_latency(s, r.p90_ms)
            &&& is_a_service_latency(s, r.p95_ms)
            &&& is_a_service_latency(s, r.p99_ms)
            &&& is_a_service_latency(s, r.max_ms)
        }),
        ({
            let r = LatencySummary::of(offered_all(s), mean_ms);
            &&& r.count == samples_of_all(s)
            &&& is_an_offered_latency(s, r.min_ms)
            &&& is_an_offered_latency(s, r.p50_ms)
            &&& is_an_offered_latency(s, r.p90_ms)
            &&& is_an_offered_latency(s, r.p95_ms)
            &&& is_an_offered_latency(s, r.p99_ms)
            &&& is_an_offered_latency(s, r.max_ms)
        }),
        ({
            let r = LatencySummary::of(lag_all(s), mean_ms);
            &&& r.count == samples_of_all(s)
            &&& is_a_schedule_lag(s, r.min_ms)
            &&& is_a_schedule_lag(s, r.p50_ms)
            &&& is_a_schedule_lag(s, r.p90_ms)
            &&& is_a_schedule_lag(s, r.p95_ms)
            &&& is_a_schedule_lag(s, r.p99_ms)
            &&& is_a_schedule_lag(s, r.max_ms)
        }),
{
    lemma_service_figures(s, mean_ms);
    lemma_offered_figures(s, mean_ms);
    lemma_lag_figures(s, mean_ms);
}

/// The getters together took as long as the slowest of them: that time is one of theirs, or zero, and
/// none took longer.
pub proof fn lemma_slowest_getter(s: Seq<GetterReport>)
    requires
        forall|i: int|
            0 <= i < s.len() ==> !(#[trigger] s[i]).paced.wall_time_ms.is_nan_spec(),
    ensures
        !longest_wall(s).is_nan_spec(),
        forall|i: int|
            0 <= i < s.len() ==> !longest_wall(s).lt_spec((#[trigger] s[i]).paced.wall_time_ms),
        !longest_wall(s).lt_spec(Real { bits: 0 }),
        longest_wall(s) == (Real { bits: 0 }) || exists|i: int|
            0 <= i < s.len() && (#[trigger] s[i]).paced.wall_time_ms == longest_wall(s),
    decreases s.len(),
{
    if s.len() > 0 {
        let init = s.drop_last();
        assert forall|i: int| 0 <= i < init.len() implies !(
        #[trigger] init[i]).paced.wall_time_ms.is_nan_spec() by {
            assert(!s[i].paced.wall_time_ms.is_nan_spec());
        }
        lemma_slowest_getter(init);
        let x = s[s.len() - 1].paced.wall_time_ms;
        assert(!x.is_nan_spec());
        assert forall|i: int| 0 <= i < s.len() implies !longest_wall(s).lt_spec(
            (#[trigger] s[i]).paced.wall_time_ms,
        ) by {
            if i < init.len() {
                assert(!longest_wall(init).lt_spec(init[i].paced.wall_time_ms));
            }
        }
        if longest_wall(s) != x && longest_wall(s) != (Real { bits: 0 }) {
            let i = choose|i: int|
                0 <= i < init.len() && (#[trigger] init[i]).paced.wall_time_ms == longest_wall(init);
            assert(s[i].paced.wall_time_ms == longest_wall(s));
        }
    }
}

/// The failures of the aggregate are those logged, then the first sixteen of every getter under its
/// id, getter by getter.
pub proof fn lemma_failures_of_all_getters(
    s: Seq<GetterReport>,
    last: GetterReport,
    logged: Seq<Seq<char>>,
)
    ensures
        failures_all(Seq::empty(), logged) == logged,
        ({
            let before = failures_all(s, logged);
            let all = failures_all(s.push(last), logged);
            let f = last.paced.failures@;
            &&& all.len() == before.len() + (if f.len() < 16 {
                f.len()
            } else {
                16
            })
            &&& all.take(before.len() as int) == before
            &&& forall|i: int|
                0 <= i < f.len() && i < 16 ==> #[trigger] all[before.len() + i]
                    == last.instance_id@ + " "@ + ("index="@ + text::dec(f[i].index as nat) + ": "@
                    + f[i].message@)
        }),
{
    let t = s.push(last);
    assert(t.drop_last() =~= s);
    let before = failures_all(s, logged);
    let all = failures_all(t, logged);
    paced::lemma_first_failures_are_shown(last.paced.failures@);
    assert(all.take(before.len() as int) =~= before);
    let lines = getter_failures(last.instance_id@, last.paced.failures@);
    assert forall|i: int|
        0 <= i < last.paced.failures@.len() && i < 16 implies #[trigger] all[before.len() + i]
        == last.instance_id@ + " "@ + ("index="@ + text::dec(last.paced.failures@[i].index as nat)
        + ": "@ + last.paced.failures@[i].message@) by {
        assert(all[before.len() + i] == lines[i]);
        assert(paced::failure_lines_spec(last.paced.failures@)[i] == "index="@ + text::dec(
            last.paced.failures@[i].index as nat,
        ) + ": "@ + last.paced.failures@[i].message@);
    }
}

// ---------------------------------------------------------------------------------------------
// Dealing and staging
// ---------------------------------------------------------------------------------------------
/// Whoever comes first gets no less.
pub proof fn lemma_first_get_the_rest(total: nat, n: nat, i: nat, j: nat)
    requires
        n > 0,
        i <= j < n,
    ensures
        share(total, n, j) <= share(total, n, i) <= share(total, n, j) + 1,
        n * share(total, n, j) <= total + n - 1,
        total < n * (share(total, n, i) + 1),
{
    vstd::arithmetic::div_mod::lemma_fundamental_div_mod(total as int, n as int);
    vstd::arithmetic::div_mod::lemma_mod_bound(total as int, n as int);
    let q = total / n;
    let r = total % n;
    assert(n * (q + 1) == n * q + n) by (nonlinear_arith);
    assert(n * (q + 1 + 1) == n * q + n + n) by (nonlinear_arith);
}

/// How many of the first `p` lists reach beyond `index`.
pub open spec fn longer_before<T>(lists: Seq<Seq<T>>, p: int, index: int) -> nat
    decreases p,
{
    if p <= 0 {
        0
    } else {
        longer_before(lists, p - 1, index) + if lists[p - 1].len() > index {
            1nat
        } else {
            0nat
        }
    }
}

proof fn lemma_longer_before_drop<T>(lists: Seq<Seq<T>>, p: int, index: int)
    requires
        0 <= p < lists.len(),
    ensures
        longer_before(lists.drop_last(), p, index) == longer_before(lists, p, index),
    decreases p,
{
    if p > 0 {
        lemma_longer_before_drop(lists, p - 1, index);
    }
}

proof fn lemma_row_counts<T>(lists: Seq<Seq<T>>, index: int)
    requires
        0 <= index,
    ensures
        row(lists, index).len() == longer_before(lists, lists.len() as int, index),
    decreases lists.len(),
{
    if lists.len() > 0 {
        lemma_row_counts(lists.drop_last(), index);
        lemma_longer_before_drop(lists, lists.len() - 1, index);
    }
}

proof fn lemma_row_place<T>(lists: Seq<Seq<T>>, p: int, index: int)
    requires
        0 <= p < lists.len(),
        0 <= index < lists[p].len(),
    ensures
        longer_before(lists, p, index) < row(lists, index).len(),
        row(lists, index)[longer_before(lists, p, index) as int] == lists[p][index],
    decreases lists.len(),
{
    let init = lists.drop_last();
    if p < init.len() {
        lemma_row_place(init, p, index);
        lemma_longer_before_drop(lists, p, index);
    } else {
        lemma_row_counts(init, index);
        lemma_longer_before_drop(lists, p, index);
    }
}

proof fn lemma_rows_place<T>(lists: Seq<Seq<T>>, n: nat, p: int, index: int)
    requires
        0 <= p < lists.len(),
        0 <= index < lists[p].len(),
        index < n,
    ensures
        clipped_len(lists, index as nat) + longer_before(lists, p, index) < rows(lists, n).len(),
        rows(lists, n)[(clipped_len(lists, index as nat) + longer_before(
            lists,
            p,
            index,
        )) as int] == lists[p][index],
    decreases n,
{
    lemma_rows_len(lists, (n - 1) as nat);
    if index == n - 1 {
        lemma_row_place(lists, p, index);
    } else {
        lemma_rows_place(lists, (n - 1) as nat, p, index);
    }
}

/// References are dealt in rounds: item `index` of list `p` comes behind everything that the lists
/// have before `index`, and behind the items at `index` of the lists before `p`.
pub proof fn lemma_round_robin_order<T>(lists: Seq<Seq<T>>, p: int, index: int)
    requires
        0 <= p < lists.len(),
        0 <= index < lists[p].len(),
    ensures
        clipped_len(lists, index as nat) + longer_before(lists, p, index) < round_robin(
            lists,
        ).len(),
        round_robin(lists)[(clipped_len(lists, index as nat) + longer_before(
            lists,
            p,
            index,
        )) as int] == lists[p][index],
{
    lemma_longest(lists, p);
    lemma_rows_place(lists, longest(lists), p, index);
}

/// A list goes over in chunks of 1024, all full but the last, which is not empty.
pub proof fn lemma_chunks_are_full<T>(refs: Seq<T>, index: nat)
    requires
        index < chunk_count_spec(refs.len()),
    ensures
        0 < chunk_spec(refs, index).len() <= 1024,
        index + 1 < chunk_count_spec(refs.len()) ==> chunk_spec(refs, index).len() == 1024,
        forall|j: int|
            0 <= j < chunk_spec(refs, index).len() ==> #[trigger] chunk_spec(refs, index)[j]
                == refs[1024 * index + j],
        chunk_count_spec(refs.len()) * 1024 < refs.len() + 1024,
        refs.len() <= chunk_count_spec(refs.len()) * 1024,
{
}

/// Two datapoints, and two getters of one datapoint, never share a plan.
pub proof fn lemma_plans_differ(a: nat, b: nat, getter: Seq<char>, other: Seq<char>)
    ensures
        plan_id_spec(a, getter) == plan_id_spec(b, getter) ==> a == b,
        plan_id_spec(a, getter) == plan_id_spec(a, other) ==> getter == other,
{
    reveal_strlit("datapoint-");
    reveal_strlit("-");
    let p = text::dec_padded(a, 6);
    let q = text::dec_padded(b, 6);
    text::lemma_padded_reads_back(a, 6);
    text::lemma_padded_reads_back(b, 6);
    if plan_id_spec(a, getter) == plan_id_spec(b, getter) {
        let s = plan_id_spec(a, getter);
        assert(s.len() == 10 + p.len() + 1 + getter.len());
        assert(s.subrange(10, 10 + p.len() as int) =~= p);
        assert(s.subrange(10, 10 + q.len() as int) =~= q);
    }
    if plan_id_spec(a, getter) == plan_id_spec(a, other) {
        let s = plan_id_spec(a, getter);
        assert(s.skip(11 + p.len() as int) =~= getter);
        assert(s.skip(11 + p.len() as int) =~= other);
    }
}

/// A preload goes with the concurrency of the experiment unless its environment names another, for
/// all getter experiments or for this kind; none goes with zero.
pub proof fn lemma_preload_concurrency(kind: GetterKind, e: ExperimentSpec)
    ensures
        ({
            let all = environment::lookup_spec(e.env@, "LC_BENCH_BLOB_PRELOAD_CONCURRENCY"@);
            let own = environment::lookup_spec(
                e.env@,
                if kind is Multi {
                    "LC_BENCH_BLOB_MULTI_GETTER_PRELOAD_CONCURRENCY"@
                } else {
                    "LC_BENCH_BLOB_SINGLE_GETTER_PRELOAD_CONCURRENCY"@
                },
            );
            let r = preload_spec(kind, e);
            &&& r is Ok ==> r->Ok_0 > 0
            &&& all is None && own is None && e.benchmark.concurrency > 0 ==> r == Ok::<
                usize,
                Seq<char>,
            >(e.benchmark.concurrency)
            &&& all is Some && r is Ok ==> text::number_spec(all->0, usize::MAX as nat) == Ok::<
                nat,
                text::NumberError,
            >(r->Ok_0 as nat)
            &&& all is None && own is Some && r is Ok ==> text::number_spec(
                own->0,
                usize::MAX as nat,
            ) == Ok::<nat, text::NumberError>(r->Ok_0 as nat)
            &&& all is Some && text::number_spec(all->0, usize::MAX as nat) is Ok
                && text::number_spec(all->0, usize::MAX as nat)->Ok_0 > 0 ==> r is Ok
        }),
{
    if let Some(v) = environment::lookup_spec(e.env@, "LC_BENCH_BLOB_PRELOAD_CONCURRENCY"@) {
        text::lemma_number_in_range(v, usize::MAX as nat);
    }
    if let Some(v) = environment::lookup_spec(e.env@, kind.preload_key()) {
        text::lemma_number_in_range(v, usize::MAX as nat);
    }
}

/// A getter experiment is set up exactly where it has a store that other nodes reach, a duration, a
/// lead and someone to follow it, and rates to run.
pub proof fn lemma_setups_that_are_taken(kind: GetterKind, e: ExperimentSpec, ladder: Seq<Real>)
    ensures
        ({
            let backend = text::normal_spec(e.benchmark.backend@);
            let lead_role = if kind is Multi {
                Role::Source
            } else {
                Role::LeadGetter
            };
            let role = if kind is Multi {
                Role::Getter
            } else {
                Role::Putter
            };
            let lead = participants::lead_spec(e.participants@, lead_role);
            setup_problem(kind, e, ladder) is None <==> {
                &&& backend == "s3"@ || backend == "p2p"@ && text::trim_spec(e.p2p.tracker_backend@)
                    == "dynamodb"@
                &&& e.benchmark.duration_seconds is Some
                &&& lead is Some
                &&& participants::followers_spec(e.participants@, role, lead->0).len() > 0
                &&& sweep::policy_of(e).problem() is None
                &&& sweep::target_rates_spec(e, sweep::policy_of(e), ladder).len() > 0
            }
        }),
{
    reveal_strlit("s3");
    reveal_strlit("p2p");
    assert("s3"@.len() == 2 && "p2p"@.len() == 3);
}

impl MultiStep {
    /// A failure before the gets start ends a datapoint; one after it is told in the report.
    pub proof fn lemma_fatal_until_the_gets(self, n: usize, chunks: usize)
        requires
            self.valid(n, chunks),
            n > 0,
        ensures
            self.fatal_spec() <==> self.rank(n, chunks) < MultiStep::StartGets.rank(n, chunks),
    {
        let p = chunks + 2;
        match self {
            MultiStep::StageBegin { index } => {
                assert((index + 1) * p <= n * p && (index + 1) * p == index * p + p)
                    by (nonlinear_arith)
                    requires
                        index + 1 <= n,
                        p >= 0,
                ;
            },
            MultiStep::StageChunk { index, chunk } => {
                assert((index + 1) * p <= n * p && (index + 1) * p == index * p + p)
                    by (nonlinear_arith)
                    requires
                        index + 1 <= n,
                        p >= 0,
                ;
            },
            MultiStep::StageFinish { index } => {
                assert((index + 1) * p <= n * p && (index + 1) * p == index * p + p)
                    by (nonlinear_arith)
                    requires
                        index + 1 <= n,
                        p >= 0,
                ;
            },
            _ => {
                assert(n * p >= 0) by (nonlinear_arith)
                    requires
                        p >= 0,
                        n >= 0,
                ;
            },
        }
    }
}

impl BlobGetStep {
    /// Where a step stands in a direct get.
    pub open spec fn place(self) -> int {
        match self {
            BlobGetStep::BeginPeer => 0,
            BlobGetStep::InitPeer => 1,
            BlobGetStep::PutOnPeer => 2,
            BlobGetStep::BeginHere => 3,
            BlobGetStep::InitHere => 4,
            BlobGetStep::GetHere => 5,
            BlobGetStep::ResetPeer => 6,
            BlobGetStep::ResetHere => 7,
            BlobGetStep::Done => 8,
        }
    }

    /// A direct get goes step by step: the peer puts before anything is fetched here, and both are
    /// reset at the end where that is asked for, and only there.
    pub proof fn lemma_steps_in_order(self, cleanup: bool)
        requires
            self != BlobGetStep::Done,
        ensures
            self.place() != 5 || cleanup ==> self.next(cleanup).place() == self.place() + 1,
            self.place() == 5 && !cleanup ==> self.next(cleanup) == BlobGetStep::Done,
    {
    }
}

/// A direct get is taken exactly where it names a peer that there is.
pub proof fn lemma_direct_gets_that_are_taken(instances: InstancesConfig, request: RunBlobGetRequest)
    ensures
        blob_get_problem(instances, request) is None <==> !text::is_blank_spec(
            request.peer_instance_id@,
        ) && exists|i: int|
            0 <= i < instances.instances@.len() && (#[trigger] instances.instances@[i]).id@
                == request.peer_instance_id@,
{
}

/// Where just one thing is wrong with a get experiment, it is told.
pub proof fn lemma_getter_setup_problems(kind: GetterKind, e: ExperimentSpec, ladder: Seq<Real>)
    ensures
        ({
            let backend = text::normal_spec(e.benchmark.backend@);
            let lead = participants::lead_spec(e.participants@, kind.lead_role());
            let m = backend != "s3"@ && backend != "p2p"@;
            let n = backend == "p2p"@ && text::trim_spec(e.p2p.tracker_backend@) != "dynamodb"@;
            let p = e.benchmark.duration_seconds is None;
            let q = lead is None;
            let r = participants::followers_spec(e.participants@, kind.follower_role(), lead->0).len() == 0;
            let s = sweep::policy_of(e).problem() is Some;
            let t = sweep::target_rates_spec(e, sweep::policy_of(e), ladder).len() == 0;
            &&& m && !n && !p && !q && !r && !s && !t ==> setup_problem(kind, e, ladder) == Some(kind.name() + " requires benchmark.backend = s3 or p2p"@)
            &&& n && !m && !p && !q && !r && !s && !t ==> setup_problem(kind, e, ladder) == Some(kind.name() + " p2p requires p2p.tracker_backend = dynamodb"@)
            &&& p && !m && !n && !q && !r && !s && !t ==> setup_problem(kind, e, ladder) == Some(kind.name() + " requires benchmark.duration_seconds"@)
            &&& q && !m && !n && !p && !r && !s && !t ==> setup_problem(kind, e, ladder) == Some(kind.name() + " requires participants"@)
            &&& r && !m && !n && !p && !q && !s && !t ==> setup_problem(kind, e, ladder) == Some(kind.nobody())
            &&& s && !m && !n && !p && !q && !r && !t ==> setup_problem(kind, e, ladder) == sweep::policy_of(e).problem()
            &&& t && !m && !n && !p && !q && !r && !s ==> setup_problem(kind, e, ladder) == Some(kind.name() + " throughput sweep generated no target rates"@)
        }),
{
}

/// Where just one thing is wrong with a direct get, it is told.
pub proof fn lemma_blob_get_problems(instances: InstancesConfig, request: RunBlobGetRequest)
    ensures
        ({
            let a = text::is_blank_spec(request.peer_instance_id@);
            let b = !instances.has_id(request.peer_instance_id@);
            &&& a && !b ==> blob_get_problem(instances, request) == Some("peer_instance_id must not be empty"@)
            &&& b && !a ==> blob_get_problem(instances, request) == Some("unknown peer instance id: "@ + request.peer_instance_id@)
        }),
{
}

impl GetterSetup {
    /// What a get experiment is set up with is what it asks for: its backend and its duration, a leader
    /// and at least one other among those who take part, and rates within its limit.
    pub proof fn lemma_setup_is_the_experiments(
        self,
        kind: GetterKind,
        e: ExperimentSpec,
        ladder: Seq<Real>,
        i: int,
    )
        requires
            self.fits(kind, e, ladder),
        ensures
            self.backend@ == text::normal_spec(e.benchmark.backend@),
            e.benchmark.duration_seconds == Some(self.duration_seconds),
            kind is Multi ==> Some(self.lead_id@) == participants::lead_spec(
                e.participants@,
                Role::Source,
            ),
            !(kind is Multi) ==> Some(self.lead_id@) == participants::lead_spec(
                e.participants@,
                Role::LeadGetter,
            ),
            self.follower_ids@.len() > 0,
            kind is Multi && 0 <= i < self.follower_ids@.len() ==> self.follower_ids@[i]@
                == participants::followers_spec(e.participants@, Role::Getter, self.lead_id@)[i],
            !(kind is Multi) && 0 <= i < self.follower_ids@.len() ==> self.follower_ids@[i]@
                == participants::followers_spec(e.participants@, Role::Putter, self.lead_id@)[i],
            e.throughput_sweep.max_ops_per_s is Some ==> self.policy.max_ops_per_s
                == e.throughput_sweep.max_ops_per_s->0,
            self.rates@ == sweep::target_rates_spec(e, sweep::policy_of(e), ladder),
    {
        sweep::lemma_policy_is_the_experiments(e);
        let all = participants::followers_spec(e.participants@, kind.follower_role(), self.lead_id@);
        assert(text::views(self.follower_ids@).len() == all.len());
        if 0 <= i < self.follower_ids@.len() {
            assert(text::views(self.follower_ids@)[i] == all[i]);
        }
    }
}

/// The plan of a getter is named after its datapoint, with six digits or more, and after the getter.
pub proof fn lemma_plan_names(datapoint: nat, getter: Seq<char>)
    ensures
        plan_id_spec(datapoint, getter) == "datapoint-"@ + text::dec_padded(datapoint, 6) + "-"@
            + getter,
{
}

/// The two kinds of get experiments by name, with what each says where nobody follows.
pub proof fn lemma_getter_kinds_by_name()
    ensures
        GetterKind::Multi.name() == "blob.multi_getter"@,
        GetterKind::Single.name() == "blob.single_getter"@,
        GetterKind::Multi.nobody()
            == "blob.multi_getter requires at least one getter participant"@,
        GetterKind::Single.nobody()
            == "blob.single_getter requires at least one putter participant"@,
        GetterKind::Multi.lead_role() == Role::Source && GetterKind::Multi.follower_role()
            == Role::Getter,
        GetterKind::Single.lead_role() == Role::LeadGetter && GetterKind::Single.follower_role()
            == Role::Putter,
{
}

/// A preload that would put nothing at a time is refused, and so is what is no number.
pub proof fn lemma_preloads_that_are_refused(kind: GetterKind, e: ExperimentSpec, value: Seq<char>)
    requires
        environment::lookup_spec(e.env@, "LC_BENCH_BLOB_PRELOAD_CONCURRENCY"@) == Some(value),
    ensures
        text::number_spec(value, usize::MAX as nat) == Ok::<nat, text::NumberError>(0)
            ==> preload_spec(kind, e) == Err::<usize, Seq<char>>(
            "blob preload concurrency must be greater than zero"@,
        ),
        text::number_spec(value, usize::MAX as nat) is Err ==> preload_spec(kind, e) == Err::<
            usize,
            Seq<char>,
        >(
            "invalid blob preload concurrency "@ + text::quoted_text(value) + ": "@
                + text::number_spec(value, usize::MAX as nat)->Err_0.text_spec(),
        ),
{
}

} // verus!
