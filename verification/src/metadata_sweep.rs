//! The metadata experiments: appending elements, scanning them, and claiming them.
use crate::binary64::Real;
use crate::config::{Entry, ExperimentSpec, InstanceConfig};
use crate::environment;
use crate::environment::EnvReader;
use crate::native;
use crate::native::{NativeField, NativeTree, NativeValue};
use crate::paced::PacedTaskRunConfig;
use crate::stores;
use crate::table;
use crate::text;
use crate::text::CharClass;
use vstd::prelude::*;
use vstd::string::*;

verus! {

#[derive(Clone, Copy, Debug, PartialEq, Eq, Structural)]
pub enum MetadataWorkload {
    Append,
    PrefixScan,
    CompetitiveClaimLocal,
}

impl MetadataWorkload {
    pub open spec fn named(workload: Seq<char>) -> Option<MetadataWorkload> {
        if workload == "metadata.append"@ {
            Some(MetadataWorkload::Append)
        } else if workload == "metadata.prefix_scan"@ {
            Some(MetadataWorkload::PrefixScan)
        } else if workload == "metadata.competitive_claim.local"@ {
            Some(MetadataWorkload::CompetitiveClaimLocal)
        } else {
            None
        }
    }

    pub fn from_workload(workload: &str) -> (r: Result<MetadataWorkload, String>)
        ensures
            match r {
                Ok(w) => MetadataWorkload::named(workload@) == Some(w),
                Err(m) => MetadataWorkload::named(workload@) is None && m@
                    == "unsupported metadata workload "@ + workload@
                    + "; use metadata.append, metadata.prefix_scan, or metadata.competitive_claim.local"@,
            },
    {
        if text::same(workload, "metadata.append") {
            Ok(MetadataWorkload::Append)
        } else if text::same(workload, "metadata.prefix_scan") {
            Ok(MetadataWorkload::PrefixScan)
        } else if text::same(workload, "metadata.competitive_claim.local") {
            Ok(MetadataWorkload::CompetitiveClaimLocal)
        } else {
            Err(
                text::cat3(
                    "unsupported metadata workload ",
                    workload,
                    "; use metadata.append, metadata.prefix_scan, or metadata.competitive_claim.local",
                ),
            )
        }
    }

    pub fn backend_name(self) -> (r: &'static str)
        ensures
            r@ == "dynamodb"@,
    {
        "dynamodb"
    }

    /// The operation of the metadata store that the workload measures.
    pub open spec fn operation_spec(self) -> Seq<char> {
        match self {
            MetadataWorkload::Append => "put_elem"@,
            MetadataWorkload::PrefixScan => "list_elems"@,
            MetadataWorkload::CompetitiveClaimLocal => "mark_consumed"@,
        }
    }

    pub fn operation(self) -> (r: &'static str)
        ensures
            r@ == self.operation_spec(),
    {
        match self {
            MetadataWorkload::Append => "put_elem",
            MetadataWorkload::PrefixScan => "list_elems",
            MetadataWorkload::CompetitiveClaimLocal => "mark_consumed",
        }
    }
}

pub fn ensure_dynamodb_backend(experiment: &ExperimentSpec) -> (r: Result<(), String>)
    ensures
        match r {
            Ok(_) => text::normal_spec(experiment.lambda_channel.metadata_backend@) == "dynamodb"@,
            Err(m) => {
                &&& text::normal_spec(experiment.lambda_channel.metadata_backend@) != "dynamodb"@
                &&& m@
                    == "metadata experiments currently support only lambda_channel.metadata_backend = \"dynamodb\"; got "@
                    + text::quoted_text(experiment.lambda_channel.metadata_backend@)
            },
        },
{
    let backend = text::normal(experiment.lambda_channel.metadata_backend.as_str());
    if text::same(backend.as_str(), "dynamodb") {
        Ok(())
    } else {
        Err(
            text::cat2(
                "metadata experiments currently support only lambda_channel.metadata_backend = \"dynamodb\"; got ",
                text::quoted(experiment.lambda_channel.metadata_backend.as_str()).as_str(),
            ),
        )
    }
}

// ---------------------------------------------------------------------------------------------
// Names
// ---------------------------------------------------------------------------------------------
/// A part of an id: letters, digits, dashes and underscores.
pub open spec fn identifier_spec(value: Seq<char>) -> Seq<char> {
    if value.len() == 0 {
        "metadata"@
    } else {
        text::clean_spec(value, CharClass::AlnumDashUnderscore, '-')
    }
}

pub fn sanitize_identifier(value: &str) -> (r: String)
    ensures
        r@ == identifier_spec(value@),
{
    let out = text::clean(value, CharClass::AlnumDashUnderscore, '-');
    let chars = text::chars_of(out.as_str());
    if chars.len() == 0 {
        "metadata".to_owned()
    } else {
        out
    }
}

/// A part of a table name: at most 128 of the characters that table names may have.
pub open spec fn table_part_spec(value: Seq<char>) -> Seq<char> {
    let part = text::head_spec(
        text::trim_class_spec(
            text::clean_spec(value, CharClass::AlnumDashUnderscoreDot, '-'),
            CharClass::DashDot,
        ),
        128,
    );
    if part.len() == 0 {
        "lcbench"@
    } else {
        part
    }
}

fn sanitize_table_part(value: &str) -> (r: String)
    ensures
        r@ == table_part_spec(value@),
{
    let cleaned = text::clean(value, CharClass::AlnumDashUnderscoreDot, '-');
    let trimmed = text::trim_class(cleaned.as_str(), CharClass::DashDot);
    let part = text::truncate_ascii(trimmed.as_str(), 128);
    let chars = text::chars_of(part.as_str());
    if chars.len() == 0 {
        "lcbench".to_owned()
    } else {
        part
    }
}

pub open spec fn table_name_spec(prefix: Seq<char>, resource_id: Seq<char>) -> Seq<char> {
    text::head_spec(table_part_spec(prefix) + "-"@ + table_part_spec(resource_id), 255)
}

/// The table of a datapoint.
pub fn dynamodb_table_name(prefix: &str, resource_id: &str) -> (r: String)
    ensures
        r@ == table_name_spec(prefix@, resource_id@),
{
    let name = text::cat3(
        sanitize_table_part(prefix).as_str(),
        "-",
        sanitize_table_part(resource_id).as_str(),
    );
    text::truncate_ascii(name.as_str(), 255)
}

/// A table name is from three to 255 characters long.
pub proof fn lemma_table_name_length(prefix: Seq<char>, resource_id: Seq<char>)
    ensures
        3 <= table_name_spec(prefix, resource_id).len() <= 255,
{
    reveal_strlit("-");
    reveal_strlit("lcbench");
}

/// An id for one datapoint of a run on an instance, from the time in nanoseconds.
pub open spec fn resource_id_spec(run_id: Seq<char>, instance_id: Seq<char>, now_nanos: nat) -> Seq<
    char,
> {
    identifier_spec(run_id) + "-"@ + identifier_spec(instance_id) + "-"@ + text::dec(now_nanos)
}

pub fn unique_resource_id(
    experiment: &ExperimentSpec,
    instance: &InstanceConfig,
    now_nanos: u128,
) -> (r: String)
    ensures
        r@ == resource_id_spec(experiment.run.run_id@, instance.id@, now_nanos as nat),
{
    text::cat5(
        sanitize_identifier(experiment.run.run_id.as_str()).as_str(),
        "-",
        sanitize_identifier(instance.id.as_str()).as_str(),
        "-",
        text::decimal_u128(now_nanos).as_str(),
    )
}

/// The channel of a datapoint.
pub fn channel_id(experiment: &ExperimentSpec, resource_id: &str) -> (r: String)
    ensures
        r@ == identifier_spec(experiment.lambda_channel.channel_id_prefix@) + "-"@ + resource_id@,
{
    let prefix = sanitize_identifier(experiment.lambda_channel.channel_id_prefix.as_str());
    text::cat3(prefix.as_str(), "-", resource_id)
}

// ---------------------------------------------------------------------------------------------
// The store of a datapoint
// ---------------------------------------------------------------------------------------------
/// The metadata table of a datapoint.
#[derive(Debug)]
pub struct ExperimentTablePlan {
    pub table_name: String,
    pub create_table: bool,
    pub cleanup_table: bool,
    pub init_wait_timeout_s: u64,
    pub details: Vec<Entry>,
}

pub open spec fn create_table_keys() -> Seq<Seq<char>> {
    seq!["LC_BENCH_METADATA_CREATE_TABLE"@, "METADATA_CREATE_TABLE"@, "DDB_CREATE_TABLE"@]
}

pub open spec fn cleanup_table_keys() -> Seq<Seq<char>> {
    seq!["LC_BENCH_METADATA_CLEANUP_TABLE"@, "METADATA_CLEANUP_TABLE"@]
}

/// A switch of the environment that is on unless it says otherwise.
pub open spec fn switch_spec(e: ExperimentSpec, process: Seq<Entry>, keys: Seq<Seq<char>>) -> Result<
    bool,
    Seq<char>,
> {
    match environment::env_bool_spec(EnvReader::MetadataExperiments, e.env@, process, keys) {
        Ok(Some(b)) => Ok(b),
        Ok(None) => Ok(true),
        Err(m) => Err(m),
    }
}

fn switch(experiment: &ExperimentSpec, process: &Vec<Entry>, keys: &[&str]) -> (r: Result<
    bool,
    String,
>)
    ensures
        environment::plain_result(r) == switch_spec(
            *experiment,
            process@,
            text::str_views(keys@),
        ),
{
    match environment::env_bool_any(EnvReader::MetadataExperiments, experiment, process, keys) {
        Ok(Some(b)) => Ok(b),
        Ok(None) => Ok(true),
        Err(m) => Err(m),
    }
}

/// Why the table of a datapoint cannot be planned.
pub open spec fn table_problem(e: ExperimentSpec, process: Seq<Entry>) -> Option<Seq<char>> {
    if switch_spec(e, process, create_table_keys()) is Err {
        Some(switch_spec(e, process, create_table_keys())->Err_0)
    } else if switch_spec(e, process, cleanup_table_keys()) is Err {
        Some(switch_spec(e, process, cleanup_table_keys())->Err_0)
    } else {
        match stores::metadata_timeout_spec(EnvReader::MetadataExperiments, e, process) {
            Err(m) => Some(m),
            Ok(_) => None,
        }
    }
}

impl ExperimentTablePlan {
    pub open spec fn fits(
        self,
        instance: InstanceConfig,
        e: ExperimentSpec,
        process: Seq<Entry>,
        resource_id: Seq<char>,
    ) -> bool {
        &&& self.table_name@ == table_name_spec(
            stores::metadata_table_prefix_spec(EnvReader::MetadataExperiments, e, process),
            resource_id,
        )
        &&& switch_spec(e, process, create_table_keys()) == Ok::<bool, Seq<char>>(
            self.create_table,
        )
        &&& switch_spec(e, process, cleanup_table_keys()) == Ok::<bool, Seq<char>>(
            self.cleanup_table,
        )
        &&& stores::metadata_timeout_spec(EnvReader::MetadataExperiments, e, process) == Ok::<
            u64,
            Seq<char>,
        >(self.init_wait_timeout_s)
        &&& environment::entry_views(self.details@) == stores::metadata_details_spec(
            self.table_name@,
            instance.id@,
        )
        &&& table::is_table(self.details@)
    }
}

pub fn plan_experiment_table(
    instance: &InstanceConfig,
    experiment: &ExperimentSpec,
    process: &Vec<Entry>,
    resource_id: &str,
) -> (r: Result<ExperimentTablePlan, String>)
    ensures
        match r {
            Ok(plan) => table_problem(*experiment, process@) is None && plan.fits(
                *instance,
                *experiment,
                process@,
                resource_id@,
            ),
            Err(m) => table_problem(*experiment, process@) == Some(m@),
        },
{
    let reader = EnvReader::MetadataExperiments;
    let prefix = stores::metadata_table_prefix(reader, experiment, process);
    let table_name = dynamodb_table_name(prefix.as_str(), resource_id);
    let create_keys = [
        "LC_BENCH_METADATA_CREATE_TABLE",
        "METADATA_CREATE_TABLE",
        "DDB_CREATE_TABLE",
    ];
    assert(text::str_views(create_keys@) =~= create_table_keys());
    let create_table = match switch(experiment, process, &create_keys) {
        Ok(b) => b,
        Err(m) => {
            return Err(m);
        },
    };
    let cleanup_keys = ["LC_BENCH_METADATA_CLEANUP_TABLE", "METADATA_CLEANUP_TABLE"];
    assert(text::str_views(cleanup_keys@) =~= cleanup_table_keys());
    let cleanup_table = match switch(experiment, process, &cleanup_keys) {
        Ok(b) => b,
        Err(m) => {
            return Err(m);
        },
    };
    let init_wait_timeout_s: u64 = match stores::metadata_timeout(reader, experiment, process) {
        Ok(n) => n,
        Err(m) => {
            return Err(m);
        },
    };
    let details = stores::metadata_details(table_name.as_str(), instance);
    Ok(
        ExperimentTablePlan {
            table_name,
            create_table,
            cleanup_table,
            init_wait_timeout_s,
            details,
        },
    )
}

// ---------------------------------------------------------------------------------------------
// Elements
// ---------------------------------------------------------------------------------------------
/// What a payload repeats.
pub open spec fn payload_template(seed: nat, seq: int) -> Seq<char> {
    text::dec(seed) + ":"@ + text::dec_int(seq) + ":lambda-channel-metadata-benchmark:"@
}

/// A payload of `size` characters: the template, over and over.
pub open spec fn payload_spec(seed: nat, seq: int, size: nat) -> Seq<char> {
    let template = payload_template(seed, seq);
    Seq::new(size, |i: int| template[i % (template.len() as int)])
}

pub fn make_payload(seed: u64, seq: i64, size: usize) -> (r: String)
    ensures
        r@ == payload_spec(seed as nat, seq as int, size as nat),
{
    let template = text::cat4(
        text::decimal(seed).as_str(),
        ":",
        text::decimal_i64(seq).as_str(),
        ":lambda-channel-metadata-benchmark:",
    );
    assert(template@ =~= payload_template(seed as nat, seq as int));
    let chars = text::chars_of(template.as_str());
    proof {
        reveal_strlit(":");
    }
    let n: usize = chars.len();
    let mut out = String::new();
    let mut i: usize = 0;
    let mut k: usize = 0;
    assert(out@ =~= payload_spec(seed as nat, seq as int, 0));
    while i < size
        invariant
            i <= size,
            chars@ == payload_template(seed as nat, seq as int),
            n == chars@.len(),
            k < n,
            k as int == i as int % (chars@.len() as int),
            out@ == payload_spec(seed as nat, seq as int, i as nat),
        decreases size - i,
    {
        out.push(chars[k]);
        assert(out@ =~= payload_spec(seed as nat, seq as int, (i + 1) as nat));
        proof {
            lemma_next_place(i as int, chars@.len() as int);
        }
        i = i + 1;
        k = if k + 1 == n {
            0
        } else {
            k + 1
        };
    }
    out
}

proof fn lemma_next_place(i: int, n: int)
    requires
        0 <= i,
        0 < n,
    ensures
        (i + 1) % n == if i % n + 1 == n {
            0
        } else {
            i % n + 1
        },
{
    vstd::arithmetic::div_mod::lemma_fundamental_div_mod(i, n);
    vstd::arithmetic::div_mod::lemma_mod_bound(i, n);
    let q = i / n;
    let m = i % n;
    if m + 1 == n {
        assert(i + 1 == (q + 1) * n + 0) by (nonlinear_arith)
            requires
                i == n * q + m,
                m + 1 == n,
        ;
        vstd::arithmetic::div_mod::lemma_fundamental_div_mod_converse(i + 1, n, q + 1, 0);
    } else {
        assert(i + 1 == q * n + (m + 1)) by (nonlinear_arith)
            requires
                i == n * q + m,
        ;
        vstd::arithmetic::div_mod::lemma_fundamental_div_mod_converse(i + 1, n, q, m + 1);
    }
}

/// What the pointer of an element holds.
pub open spec fn pointer_spec(seq: i64, seed: u64, payload_size: usize) -> Seq<
    (Seq<char>, NativeTree),
> {
    let fixed = seq![
        ("kind"@, NativeTree::Text("metadata-bench"@)),
        ("seq"@, NativeTree::Int(seq)),
        ("seed"@, NativeTree::Int(seed as i64)),
    ];
    if payload_size > 0 {
        fixed.push(
            (
                "payload"@,
                NativeTree::Text(payload_spec(seed as nat, seq as int, payload_size as nat)),
            ),
        )
    } else {
        fixed
    }
}

fn push_field(out: &mut Vec<NativeField>, key: &str, value: NativeValue)
    ensures
        native::field_trees(final(out)@) == native::field_trees(old(out)@).push(
            (key@, value.tree()),
        ),
{
    out.push(NativeField { key: key.to_owned(), value });
    assert(native::field_trees(out@) =~= native::field_trees(old(out)@).push((key@, value.tree())));
}

/// The pointer of element `seq`.
pub fn element_pointer(seq: i64, seed: u64, payload_size: usize) -> (r: Vec<NativeField>)
    ensures
        native::field_trees(r@) == pointer_spec(seq, seed, payload_size),
{
    let mut out: Vec<NativeField> = Vec::new();
    assert(native::field_trees(out@) =~= Seq::<(Seq<char>, NativeTree)>::empty());
    push_field(&mut out, "kind", NativeValue::Text("metadata-bench".to_owned()));
    push_field(&mut out, "seq", NativeValue::Int(seq));
    push_field(&mut out, "seed", NativeValue::Int(seed as i64));
    if payload_size > 0 {
        push_field(&mut out, "payload", NativeValue::Text(make_payload(seed, seq, payload_size)));
    }
    assert(native::field_trees(out@) =~= pointer_spec(seq, seed, payload_size));
    out
}

// ---------------------------------------------------------------------------------------------
// Sequence numbers
// ---------------------------------------------------------------------------------------------
/// The sequence number `offset` after `start`; `what` names the range for messages.
pub open spec fn seq_spec(start: nat, offset: nat, what: Seq<char>) -> Result<int, Seq<char>> {
    if start + offset > usize::MAX {
        Err(what + " overflowed usize"@)
    } else if start + offset > i64::MAX {
        Err("value "@ + text::dec(start + offset) + " is too large for i64"@)
    } else {
        Ok((start + offset) as int)
    }
}

pub fn i64_from_usize(value: usize) -> (r: Result<i64, String>)
    ensures
        match r {
            Ok(n) => n == value,
            Err(m) => value > i64::MAX && m@ == "value "@ + text::dec(value as nat)
                + " is too large for i64"@,
        },
{
    if value as u64 > i64::MAX as u64 {
        Err(text::cat3("value ", text::decimal(value as u64).as_str(), " is too large for i64"))
    } else {
        Ok(value as i64)
    }
}

pub fn seq_at(start: usize, offset: usize, what: &str) -> (r: Result<i64, String>)
    ensures
        match r {
            Ok(n) => seq_spec(start as nat, offset as nat, what@) == Ok::<int, Seq<char>>(n as int),
            Err(m) => seq_spec(start as nat, offset as nat, what@) == Err::<int, Seq<char>>(m@),
        },
{
    match start.checked_add(offset) {
        None => Err(text::cat2(what, " overflowed usize")),
        Some(seq) => i64_from_usize(seq),
    }
}

/// The offset of task `index`: tasks go round a target count, where there is one.
pub open spec fn offset_of(index: nat, around: Option<usize>) -> nat {
    match around {
        Some(n) => if n == 0 {
            index
        } else {
            index % (n as nat)
        },
        None => index,
    }
}

/// The sequence number of task `index`.
#[verifier::opaque]
pub open spec fn task_seq_spec(
    start: nat,
    index: nat,
    around: Option<usize>,
    what: Seq<char>,
) -> Result<int, Seq<char>> {
    seq_spec(start, offset_of(index, around), what)
}

pub fn task_seq(start: usize, index: usize, around: Option<usize>, what: &str) -> (r: Result<
    i64,
    String,
>)
    ensures
        match r {
            Ok(n) => task_seq_spec(start as nat, index as nat, around, what@) == Ok::<
                int,
                Seq<char>,
            >(n as int),
            Err(m) => task_seq_spec(start as nat, index as nat, around, what@) == Err::<
                int,
                Seq<char>,
            >(m@),
        },
{
    reveal(task_seq_spec);
    let offset: usize = match around {
        Some(n) => if n == 0 {
            index
        } else {
            index % n
        },
        None => index,
    };
    seq_at(start, offset, what)
}

/// Whether task `i` is the first without a sequence number, and `problem` says why.
pub open spec fn is_first_problem(
    start: nat,
    i: int,
    around: Option<usize>,
    what: Seq<char>,
    problem: Seq<char>,
) -> bool {
    &&& task_seq_spec(start, i as nat, around, what) == Err::<int, Seq<char>>(problem)
    &&& forall|j: int|
        0 <= j < i ==> #[trigger] task_seq_spec(start, j as nat, around, what) is Ok
}

/// Whether one of `count` tasks is the first without a sequence number.
pub open spec fn has_first_problem(
    start: nat,
    count: int,
    around: Option<usize>,
    what: Seq<char>,
    problem: Seq<char>,
) -> bool {
    exists|i: int|
        0 <= i < count && #[trigger] is_first_problem(start, i, around, what, problem)
}

/// The sequence numbers of `count` tasks, or the first problem with one of them.
pub fn task_seqs(start: usize, count: usize, around: Option<usize>, what: &str) -> (r: Result<
    Vec<i64>,
    String,
>)
    ensures
        match r {
            Ok(seqs) => {
                &&& seqs@.len() == count
                &&& forall|i: int|
                    0 <= i < count ==> task_seq_spec(start as nat, i as nat, around, what@) == Ok::<
                        int,
                        Seq<char>,
                    >(#[trigger] seqs@[i] as int)
            },
            Err(m) => has_first_problem(start as nat, count as int, around, what@, m@),
        },
{
    let mut seqs: Vec<i64> = Vec::new();
    let mut i: usize = 0;
    while i < count
        invariant
            i <= count,
            seqs@.len() == i,
            forall|j: int|
                0 <= j < i ==> task_seq_spec(start as nat, j as nat, around, what@) == Ok::<
                    int,
                    Seq<char>,
                >(#[trigger] seqs@[j] as int),
        decreases count - i,
    {
        match task_seq(start, i, around, what) {
            Ok(seq) => {
                seqs.push(seq);
            },
            Err(m) => {
                proof {
                    assert forall|j: int| 0 <= j < i implies #[trigger] task_seq_spec(
                        start as nat,
                        j as nat,
                        around,
                        what@,
                    ) is Ok by {
                        assert(task_seq_spec(start as nat, j as nat, around, what@) == Ok::<
                            int,
                            Seq<char>,
                        >(seqs@[j] as int));
                    }
                    assert(is_first_problem(start as nat, i as int, around, what@, m@));
                }
                return Err(m);
            },
        }
        i = i + 1;
    }
    Ok(seqs)
}

/// Tasks that do not go round have different sequence numbers.
pub proof fn lemma_seqs_are_distinct(start: nat, i: nat, j: nat, what: Seq<char>)
    requires
        i != j,
        task_seq_spec(start, i, None, what) is Ok,
        task_seq_spec(start, j, None, what) is Ok,
    ensures
        task_seq_spec(start, i, None, what)->Ok_0 != task_seq_spec(start, j, None, what)->Ok_0,
{
    reveal(task_seq_spec);
}

/// Tasks that go round a target count never leave it.
pub proof fn lemma_rounds_stay_in_range(start: nat, i: nat, around: usize, what: Seq<char>)
    requires
        around > 0,
        task_seq_spec(start, i, Some(around), what) is Ok,
    ensures
        start <= task_seq_spec(start, i, Some(around), what)->Ok_0 < start + around,
{
    reveal(task_seq_spec);
}

// ---------------------------------------------------------------------------------------------
// Counts
// ---------------------------------------------------------------------------------------------
pub fn usize_from_u64(value: u64, name: &str) -> (r: Result<usize, String>)
    ensures
        match r {
            Ok(n) => n == value,
            Err(m) => value > usize::MAX && m@ == name@ + " is too large for this platform"@,
        },
{
    if value > usize::MAX as u64 {
        Err(text::cat2(name, " is too large for this platform"))
    } else {
        Ok(value as usize)
    }
}

/// The sizes of a metadata datapoint.
#[derive(Clone, Copy, Debug, PartialEq, Eq, Structural)]
pub struct MetadataCounts {
    pub measured: usize,
    pub warmup: usize,
    pub payload_size: usize,
}

pub open spec fn counts_problem(measured_operations: u64, e: ExperimentSpec) -> Option<Seq<char>> {
    if measured_operations > usize::MAX {
        Some("duration-based benchmark operations is too large for this platform"@)
    } else if e.benchmark.warmup_operations > usize::MAX {
        Some("benchmark.warmup_operations is too large for this platform"@)
    } else if e.benchmark.object_size_bytes > usize::MAX {
        Some("benchmark.object_size_bytes is too large for this platform"@)
    } else {
        None
    }
}

/// The sizes of a datapoint with so many operations to measure.
pub fn metadata_counts(measured_operations: u64, experiment: &ExperimentSpec) -> (r: Result<
    MetadataCounts,
    String,
>)
    ensures
        match r {
            Ok(c) => {
                &&& counts_problem(measured_operations, *experiment) is None
                &&& c.measured == measured_operations
                &&& c.warmup == experiment.benchmark.warmup_operations
                &&& c.payload_size == experiment.benchmark.object_size_bytes
            },
            Err(m) => counts_problem(measured_operations, *experiment) == Some(m@),
        },
{
    let measured: usize = match usize_from_u64(
        measured_operations,
        "duration-based benchmark operations",
    ) {
        Ok(n) => n,
        Err(m) => {
            proof {
                lemma_too_large("duration-based benchmark operations"@);
            }
            return Err(m);
        },
    };
    let warmup: usize = match usize_from_u64(
        experiment.benchmark.warmup_operations,
        "benchmark.warmup_operations",
    ) {
        Ok(n) => n,
        Err(m) => {
            proof {
                lemma_too_large("benchmark.warmup_operations"@);
            }
            return Err(m);
        },
    };
    let payload_size: usize = match usize_from_u64(
        experiment.benchmark.object_size_bytes,
        "benchmark.object_size_bytes",
    ) {
        Ok(n) => n,
        Err(m) => {
            proof {
                lemma_too_large("benchmark.object_size_bytes"@);
            }
            return Err(m);
        },
    };
    Ok(MetadataCounts { measured, warmup, payload_size })
}

proof fn lemma_too_large(name: Seq<char>)
    ensures
        name == "duration-based benchmark operations"@ ==> name
            + " is too large for this platform"@
            == "duration-based benchmark operations is too large for this platform"@,
        name == "benchmark.warmup_operations"@ ==> name + " is too large for this platform"@
            == "benchmark.warmup_operations is too large for this platform"@,
        name == "benchmark.object_size_bytes"@ ==> name + " is too large for this platform"@
            == "benchmark.object_size_bytes is too large for this platform"@,
{
    reveal_strlit(" is too large for this platform");
    reveal_strlit("duration-based benchmark operations");
    reveal_strlit("duration-based benchmark operations is too large for this platform");
    reveal_strlit("benchmark.warmup_operations");
    reveal_strlit("benchmark.warmup_operations is too large for this platform");
    reveal_strlit("benchmark.object_size_bytes");
    reveal_strlit("benchmark.object_size_bytes is too large for this platform");
}

pub open spec fn scan_limit_keys() -> Seq<Seq<char>> {
    seq!["LC_BENCH_METADATA_SCAN_LIMIT"@, "METADATA_SCAN_LIMIT"@]
}

pub open spec fn claim_target_keys() -> Seq<Seq<char>> {
    seq!["LC_BENCH_METADATA_CLAIM_TARGET_COUNT"@, "METADATA_CLAIM_TARGET_COUNT"@]
}

/// A count of the environment, with a default, and at least one.
pub open spec fn count_spec(
    e: ExperimentSpec,
    process: Seq<Entry>,
    keys: Seq<Seq<char>>,
    fallback: usize,
) -> Result<usize, Seq<char>> {
    match environment::env_usize_spec(EnvReader::MetadataExperiments, e.env@, process, keys) {
        Err(m) => Err(m),
        Ok(found) => {
            let n = match found {
                Some(n) => n,
                None => fallback,
            };
            Ok(
                if n == 0 {
                    1usize
                } else {
                    n
                },
            )
        },
    }
}

fn count_of(
    experiment: &ExperimentSpec,
    process: &Vec<Entry>,
    keys: &[&str],
    fallback: usize,
) -> (r: Result<usize, String>)
    ensures
        environment::plain_result(r) == count_spec(
            *experiment,
            process@,
            text::str_views(keys@),
            fallback,
        ),
        r matches Ok(n) ==> n > 0,
{
    match environment::env_usize_any(EnvReader::MetadataExperiments, experiment, process, keys) {
        Err(m) => Err(m),
        Ok(found) => {
            let n: usize = match found {
                Some(n) => n,
                None => fallback,
            };
            if n == 0 {
                Ok(1)
            } else {
                Ok(n)
            }
        },
    }
}

/// How much a scan reads at a time, and how many elements are there before the first: enough that
/// every scan that is measured can be full.
pub fn scan_plan(experiment: &ExperimentSpec, process: &Vec<Entry>, counts: MetadataCounts) -> (r:
    Result<(usize, usize), String>)
    ensures
        match r {
            Ok((scan_limit, preload)) => {
                &&& count_spec(*experiment, process@, scan_limit_keys(), 32) == Ok::<
                    usize,
                    Seq<char>,
                >(scan_limit)
                &&& preload == counts.warmup + counts.measured + scan_limit
            },
            Err(m) => match count_spec(*experiment, process@, scan_limit_keys(), 32) {
                Err(e) => m@ == e,
                Ok(limit) => counts.warmup + counts.measured + limit > usize::MAX && m@
                    == "metadata prefix scan preload count overflowed usize"@,
            },
        },
{
    let keys = ["LC_BENCH_METADATA_SCAN_LIMIT", "METADATA_SCAN_LIMIT"];
    assert(text::str_views(keys@) =~= scan_limit_keys());
    let scan_limit: usize = match count_of(experiment, process, &keys, 32) {
        Ok(n) => n,
        Err(m) => {
            return Err(m);
        },
    };
    let overflow = "metadata prefix scan preload count overflowed usize";
    match counts.warmup.checked_add(counts.measured) {
        None => Err(overflow.to_owned()),
        Some(n) => match n.checked_add(scan_limit) {
            None => Err(overflow.to_owned()),
            Some(preload) => Ok((scan_limit, preload)),
        },
    }
}

/// How many elements are claimed, and how many are there before the first claim.
pub fn claim_plan(experiment: &ExperimentSpec, process: &Vec<Entry>, counts: MetadataCounts) -> (r:
    Result<(usize, usize), String>)
    ensures
        match r {
            Ok((target, total)) => {
                &&& count_spec(*experiment, process@, claim_target_keys(), counts.measured) == Ok::<
                    usize,
                    Seq<char>,
                >(target)
                &&& total == counts.warmup + target
                &&& target > 0
            },
            Err(m) => match count_spec(
                *experiment,
                process@,
                claim_target_keys(),
                counts.measured,
            ) {
                Err(e) => m@ == e,
                Ok(target) => counts.warmup + target > usize::MAX && m@
                    == "metadata claim preload count overflowed usize"@,
            },
        },
{
    let keys = ["LC_BENCH_METADATA_CLAIM_TARGET_COUNT", "METADATA_CLAIM_TARGET_COUNT"];
    assert(text::str_views(keys@) =~= claim_target_keys());
    let target: usize = match count_of(experiment, process, &keys, counts.measured) {
        Ok(n) => n,
        Err(m) => {
            return Err(m);
        },
    };
    match counts.warmup.checked_add(target) {
        None => Err("metadata claim preload count overflowed usize".to_owned()),
        Some(total) => Ok((target, total)),
    }
}

/// The puts of a preload that are under way at a time.
pub fn preload_limit(max_in_flight: usize) -> (r: usize)
    ensures
        r == if max_in_flight == 0 {
            1usize
        } else {
            max_in_flight
        },
{
    if max_in_flight == 0 {
        1
    } else {
        max_in_flight
    }
}

/// What a preload is to do next.
#[derive(Clone, Copy, Debug, PartialEq, Eq, Structural)]
pub enum PreloadStep {
    /// Start the put of the element with this sequence number.
    Put { seq: i64 },
    /// Wait for one of the puts under way.
    Await,
    Done,
}

/// The elements that stand in a channel before a datapoint, put with a limit on how many are under
/// way at a time.
#[derive(Debug)]
pub struct Preload {
    pub seqs: Vec<i64>,
    pub limit: usize,
    pub next_index: usize,
    pub in_flight: usize,
}

impl Preload {
    pub open spec fn wf(self) -> bool {
        &&& 0 < self.limit
        &&& self.in_flight <= self.limit
        &&& self.in_flight <= self.next_index <= self.seqs@.len()
    }

    /// Every put has been started and has completed.
    pub open spec fn done_spec(self) -> bool {
        self.next_index == self.seqs@.len() && self.in_flight == 0
    }

    /// A preload of `count` elements, numbered from zero.
    pub fn new(count: usize, max_in_flight: usize) -> (r: Result<Preload, String>)
        ensures
            match r {
                Ok(p) => {
                    &&& p.wf()
                    &&& p.next_index == 0
                    &&& p.in_flight == 0
                    &&& p.limit == (if max_in_flight == 0 {
                        1usize
                    } else {
                        max_in_flight
                    })
                    &&& p.seqs@.len() == count
                    &&& forall|i: int| 0 <= i < count ==> #[trigger] p.seqs@[i] == i
                },
                Err(m) => has_first_problem(0, count as int, None, "metadata seq range"@, m@),
            },
    {
        match task_seqs(0, count, None, "metadata seq range") {
            Ok(seqs) => {
                assert forall|i: int| 0 <= i < count implies #[trigger] seqs@[i] == i by {
                    reveal(task_seq_spec);
                    assert(task_seq_spec(0, i as nat, None, "metadata seq range"@) == Ok::<
                        int,
                        Seq<char>,
                    >(seqs@[i] as int));
                }
                Ok(Preload { seqs, limit: preload_limit(max_in_flight), next_index: 0, in_flight: 0 })
            },
            Err(m) => Err(m),
        }
    }

    /// What follows: the next put while there is one and room for it, else to wait for those under
    /// way.
    pub fn next(&mut self) -> (r: PreloadStep)
        requires
            old(self).wf(),
        ensures
            final(self).wf(),
            if old(self).next_index < old(self).seqs@.len() && old(self).in_flight < old(
                self,
            ).limit {
                &&& r == PreloadStep::Put { seq: old(self).seqs@[old(self).next_index as int] }
                &&& *final(self) == (Preload {
                    next_index: (old(self).next_index + 1) as usize,
                    in_flight: (old(self).in_flight + 1) as usize,
                    ..*old(self)
                })
            } else {
                &&& *final(self) == *old(self)
                &&& r == (if old(self).in_flight > 0 {
                    PreloadStep::Await
                } else {
                    PreloadStep::Done
                })
            },
            r is Done ==> final(self).done_spec(),
    {
        if self.next_index < self.seqs.len() && self.in_flight < self.limit {
            let seq: i64 = self.seqs[self.next_index];
            self.next_index = self.next_index + 1;
            self.in_flight = self.in_flight + 1;
            PreloadStep::Put { seq }
        } else if self.in_flight > 0 {
            PreloadStep::Await
        } else {
            PreloadStep::Done
        }
    }

    /// Records a put that ended. The first failure ends the preload.
    pub fn completed(&mut self, seq: i64, outcome: Result<(), String>) -> (r: Result<(), String>)
        requires
            old(self).wf(),
            old(self).in_flight > 0,
        ensures
            final(self).wf(),
            *final(self) == (Preload {
                in_flight: (old(self).in_flight - 1) as usize,
                ..*old(self)
            }),
            match outcome {
                Ok(_) => r is Ok,
                Err(e) => r matches Err(m) && m@ == "failed to put preload elem seq="@
                    + text::dec_int(seq as int) + ": "@ + e@,
            },
    {
        self.in_flight = self.in_flight - 1;
        match outcome {
            Ok(_) => Ok(()),
            Err(e) => {
                let number = text::decimal_i64(seq);
                let head = text::cat2("failed to put preload elem seq=", number.as_str());
                Err(text::cat3(head.as_str(), ": ", e.as_str()))
            },
        }
    }
}

/// The paced run of a metadata datapoint.
pub fn run_config(experiment: &ExperimentSpec, target_ops_per_s: Real) -> (r: Result<
    PacedTaskRunConfig,
    String,
>)
    ensures
        match r {
            Ok(c) => {
                &&& environment::pacer_core_spec(experiment.env@) == Ok::<
                    Option<usize>,
                    Seq<char>,
                >(c.pacer_core_id)
                &&& c.target_ops_per_s == target_ops_per_s
                &&& c.max_in_flight == experiment.benchmark.concurrency
            },
            Err(m) => environment::pacer_core_spec(experiment.env@) == Err::<
                Option<usize>,
                Seq<char>,
            >(m@),
        },
{
    match environment::pacer_core_id_from_experiment(experiment) {
        Ok(pacer_core_id) => Ok(
            PacedTaskRunConfig {
                target_ops_per_s,
                max_in_flight: experiment.benchmark.concurrency,
                pacer_core_id,
            },
        ),
        Err(m) => Err(m),
    }
}

// ---------------------------------------------------------------------------------------------
// Claims
// ---------------------------------------------------------------------------------------------
/// What a claim came to.
#[derive(Clone, Copy, Debug, PartialEq, Eq, Structural)]
pub enum ClaimOutcome {
    Claimed,
    AlreadyConsumed,
    Missing,
    Eof,
}

/// How often each came about.
#[derive(Clone, Copy, Debug, PartialEq, Eq, Structural)]
pub struct ClaimCounters {
    pub claimed: u64,
    pub already_consumed: u64,
    pub missing: u64,
    pub eof: u64,
}

impl ClaimCounters {
    pub open spec fn attempts(self) -> int {
        self.claimed + self.already_consumed + self.missing + self.eof
    }

    pub open spec fn of(self, outcome: ClaimOutcome) -> u64 {
        match outcome {
            ClaimOutcome::Claimed => self.claimed,
            ClaimOutcome::AlreadyConsumed => self.already_consumed,
            ClaimOutcome::Missing => self.missing,
            ClaimOutcome::Eof => self.eof,
        }
    }

    pub fn new() -> (r: ClaimCounters)
        ensures
            r.attempts() == 0,
            forall|o: ClaimOutcome| #[trigger] r.of(o) == 0,
    {
        ClaimCounters { claimed: 0, already_consumed: 0, missing: 0, eof: 0 }
    }

    pub fn count(&mut self, outcome: ClaimOutcome)
        requires
            old(self).attempts() < u64::MAX,
        ensures
            final(self).attempts() == old(self).attempts() + 1,
            forall|o: ClaimOutcome|
                #[trigger] final(self).of(o) == if o == outcome {
                    old(self).of(o) + 1
                } else {
                    old(self).of(o) as int
                },
    {
        match outcome {
            ClaimOutcome::Claimed => {
                self.claimed = self.claimed + 1;
            },
            ClaimOutcome::AlreadyConsumed => {
                self.already_consumed = self.already_consumed + 1;
            },
            ClaimOutcome::Missing => {
                self.missing = self.missing + 1;
            },
            ClaimOutcome::Eof => {
                self.eof = self.eof + 1;
            },
        }
    }
}

/// The consumer that claim `index` is made for.
pub fn claim_consumer(instance_id: &str, index: usize) -> (r: String)
    ensures
        r@ == instance_id@ + "-claim-"@ + text::dec(index as nat),
{
    text::cat3(instance_id, "-claim-", text::decimal(index as u64).as_str())
}

/// A counter of a report.
#[derive(Debug)]
pub struct Counter {
    pub name: String,
    pub value: u64,
}

pub open spec fn counter_views(s: Seq<Counter>) -> Seq<(Seq<char>, u64)> {
    s.map_values(|c: Counter| (c.name@, c.value))
}

/// The names of the counters ascend, so none of them occurs twice.
pub open spec fn counters_ascend(s: Seq<(Seq<char>, u64)>) -> bool {
    forall|i: int, j: int|
        0 <= i < j < s.len() ==> text::lex_before((#[trigger] s[i]).0, (#[trigger] s[j]).0)
}

/// The names that counters have stand in this order.
proof fn lemma_counter_names()
    ensures
        text::lex_before("already_consumed_count"@, "claim_attempt_count"@),
        text::lex_before("claim_attempt_count"@, "claimed_count"@),
        text::lex_before("claimed_count"@, "eof_count"@),
        text::lex_before("eof_count"@, "missing_count"@),
        text::lex_before("listed_elem_count"@, "scan_count"@),
{
    reveal_strlit("already_consumed_count");
    reveal_strlit("claim_attempt_count");
    reveal_strlit("claimed_count");
    reveal_strlit("eof_count");
    reveal_strlit("missing_count");
    reveal_strlit("listed_elem_count");
    reveal_strlit("scan_count");
    reveal_with_fuel(text::lex_before, 7);
}

fn push_counter(out: &mut Vec<Counter>, name: &str, value: u64)
    ensures
        counter_views(final(out)@) == counter_views(old(out)@).push((name@, value)),
{
    out.push(Counter { name: name.to_owned(), value });
    assert(counter_views(out@) =~= counter_views(old(out)@).push((name@, value)));
}

/// The counters of an append datapoint.
pub fn append_counters(measured: usize) -> (r: Vec<Counter>)
    ensures
        counter_views(r@) == seq![("appended_count"@, measured as u64)],
        counters_ascend(counter_views(r@)),
{
    let mut out: Vec<Counter> = Vec::new();
    push_counter(&mut out, "appended_count", measured as u64);
    assert(counter_views(out@) =~= seq![("appended_count"@, measured as u64)]);
    out
}

/// The counters of a scan datapoint.
pub fn scan_counters(measured: usize, listed: u64) -> (r: Vec<Counter>)
    ensures
        counter_views(r@) == seq![("listed_elem_count"@, listed), ("scan_count"@, measured as u64)],
        counters_ascend(counter_views(r@)),
{
    let mut out: Vec<Counter> = Vec::new();
    push_counter(&mut out, "listed_elem_count", listed);
    push_counter(&mut out, "scan_count", measured as u64);
    assert(counter_views(out@) =~= seq![
        ("listed_elem_count"@, listed),
        ("scan_count"@, measured as u64),
    ]);
    proof {
        lemma_counter_names();
    }
    out
}

/// The counters of a claim datapoint.
pub fn claim_counters(measured: usize, counters: ClaimCounters) -> (r: Vec<Counter>)
    ensures
        counter_views(r@) == seq![
            ("already_consumed_count"@, counters.already_consumed),
            ("claim_attempt_count"@, measured as u64),
            ("claimed_count"@, counters.claimed),
            ("eof_count"@, counters.eof),
            ("missing_count"@, counters.missing),
        ],
        counters_ascend(counter_views(r@)),
{
    let mut out: Vec<Counter> = Vec::new();
    push_counter(&mut out, "already_consumed_count", counters.already_consumed);
    push_counter(&mut out, "claim_attempt_count", measured as u64);
    push_counter(&mut out, "claimed_count", counters.claimed);
    push_counter(&mut out, "eof_count", counters.eof);
    push_counter(&mut out, "missing_count", counters.missing);
    assert(counter_views(out@) =~= seq![
        ("already_consumed_count"@, counters.already_consumed),
        ("claim_attempt_count"@, measured as u64),
        ("claimed_count"@, counters.claimed),
        ("eof_count"@, counters.eof),
        ("missing_count"@, counters.missing),
    ]);
    proof {
        lemma_counter_names();
        text::lemma_lex_transitive(
            "already_consumed_count"@,
            "claim_attempt_count"@,
            "claimed_count"@,
        );
        text::lemma_lex_transitive("already_consumed_count"@, "claimed_count"@, "eof_count"@);
        text::lemma_lex_transitive("already_consumed_count"@, "eof_count"@, "missing_count"@);
        text::lemma_lex_transitive("claim_attempt_count"@, "claimed_count"@, "eof_count"@);
        text::lemma_lex_transitive("claim_attempt_count"@, "eof_count"@, "missing_count"@);
        text::lemma_lex_transitive("claimed_count"@, "eof_count"@, "missing_count"@);
    }
    out
}

// ---------------------------------------------------------------------------------------------
// Outcome
// ---------------------------------------------------------------------------------------------
/// Why a metadata datapoint has no report.
pub open spec fn metadata_problem(
    execution: Option<Seq<char>>,
    cleanup: Result<(), Seq<char>>,
) -> Option<Seq<char>> {
    match (execution, cleanup) {
        (None, Ok(_)) => None,
        (None, Err(c)) => Some(c),
        (Some(e), Ok(_)) => Some(e),
        (Some(e), Err(c)) => Some(e + "; cleanup also failed: "@ + c),
    }
}

/// What a metadata datapoint comes to, once its table is cleaned up.
pub fn metadata_outcome(execution_error: Option<String>, cleanup: Result<(), String>) -> (r: Result<
    (),
    String,
>)
    ensures
        match metadata_problem(
            text::option_view(execution_error),
            environment::plain_result(cleanup),
        ) {
            Some(problem) => r matches Err(m) && m@ == problem,
            None => r is Ok,
        },
{
    match execution_error {
        None => cleanup,
        Some(e) => match cleanup {
            Ok(_) => Err(e),
            Err(c) => Err(text::cat3(e.as_str(), "; cleanup also failed: ", c.as_str())),
        },
    }
}

// ---------------------------------------------------------------------------------------------
// What the metadata experiments are
// ---------------------------------------------------------------------------------------------
/// The metadata workloads by name, and the operation that each measures.
pub proof fn lemma_metadata_workloads_by_name(workload: Seq<char>)
    ensures
        MetadataWorkload::named(workload) == Some(MetadataWorkload::Append) <==> workload
            == "metadata.append"@,
        MetadataWorkload::named(workload) == Some(MetadataWorkload::PrefixScan) <==> workload
            == "metadata.prefix_scan"@,
        MetadataWorkload::named(workload) == Some(MetadataWorkload::CompetitiveClaimLocal)
            <==> workload == "metadata.competitive_claim.local"@,
        MetadataWorkload::Append.operation_spec() == "put_elem"@,
        MetadataWorkload::PrefixScan.operation_spec() == "list_elems"@,
        MetadataWorkload::CompetitiveClaimLocal.operation_spec() == "mark_consumed"@,
{
    reveal_strlit("metadata.append");
    reveal_strlit("metadata.prefix_scan");
    reveal_strlit("metadata.competitive_claim.local");
    assert("metadata.append"@.len() == 15);
    assert("metadata.prefix_scan"@.len() == 20);
    assert("metadata.competitive_claim.local"@.len() == 32);
}

/// An identifier is as long as what it is made of, keeps the letters, digits, dashes and underscores of
/// it, and has a dash in the place of each other character. Nothing is called `metadata`.
pub proof fn lemma_identifiers(value: Seq<char>)
    ensures
        value.len() == 0 ==> identifier_spec(value) == "metadata"@,
        value.len() > 0 ==> identifier_spec(value).len() == value.len(),
        value.len() > 0 ==> forall|i: int|
            #![trigger identifier_spec(value)[i]]
            0 <= i < value.len() ==> identifier_spec(value)[i] == (if text::is_alnum_spec(value[i])
                || value[i] == '-' || value[i] == '_' {
                value[i]
            } else {
                '-'
            }),
{
}

/// The part of a table name is made of letters, digits, dashes, underscores and dots, has no dash or
/// dot in front, and is at most 128 characters long. A part that is such already stays as it is.
pub proof fn lemma_table_parts(value: Seq<char>)
    ensures
        1 <= table_part_spec(value).len() <= 128,
        forall|i: int|
            0 <= i < table_part_spec(value).len() ==> {
                let c = #[trigger] table_part_spec(value)[i];
                text::is_alnum_spec(c) || c == '-' || c == '_' || c == '.'
            },
        table_part_spec(value)[0] != '-' && table_part_spec(value)[0] != '.',
        is_table_part(value) ==> table_part_spec(value) == value,
{
    let class = CharClass::AlnumDashUnderscoreDot;
    let cleaned = text::clean_spec(value, class, '-');
    let trimmed = text::trim_class_spec(cleaned, CharClass::DashDot);
    text::lemma_clean_keeps_what_is_allowed(value, class, '-');
    text::lemma_trim_leaves_the_core(cleaned, CharClass::DashDot);
    text::lemma_head_and_tail(trimmed, 128);
    let part = text::head_spec(trimmed, 128);
    let (from, to) = choose|from: int, to: int|
        {
            &&& 0 <= from <= to <= cleaned.len()
            &&& trimmed == #[trigger] cleaned.subrange(from, to)
            &&& forall|i: int|
                0 <= i < from || to <= i < cleaned.len() ==> CharClass::DashDot.has_spec(
                    #[trigger] cleaned[i],
                )
            &&& from < to ==> !CharClass::DashDot.has_spec(cleaned[from])
                && !CharClass::DashDot.has_spec(cleaned[to - 1])
        };
    if part.len() == 0 {
        reveal_strlit("lcbench");
        assert(table_part_spec(value) == "lcbench"@);
    } else {
        assert forall|i: int| 0 <= i < part.len() implies ({
            let c = #[trigger] part[i];
            text::is_alnum_spec(c) || c == '-' || c == '_' || c == '.'
        }) by {
            assert(part[i] == cleaned[from + i]);
        }
        assert(part[0] == cleaned[from]);
    }
    if is_table_part(value) {
        assert(cleaned =~= value);
        assert(trimmed == value);
    }
}

/// Whether a text can stand in a table name as it is.
pub open spec fn is_table_part(value: Seq<char>) -> bool {
    &&& 1 <= value.len() <= 128
    &&& forall|i: int|
        0 <= i < value.len() ==> {
            let c = #[trigger] value[i];
            text::is_alnum_spec(c) || c == '-' || c == '_' || c == '.'
        }
    &&& value[0] != '-' && value[0] != '.' && value.last() != '-' && value.last() != '.'
}

/// The name of a table is its prefix and the id of its resources with a dash between, cut off at 255
/// characters.
pub proof fn lemma_table_names(prefix: Seq<char>, resource_id: Seq<char>)
    ensures
        ({
            let whole = table_part_spec(prefix) + "-"@ + table_part_spec(resource_id);
            &&& whole.len() <= 255 ==> table_name_spec(prefix, resource_id) == whole
            &&& whole.len() > 255 ==> table_name_spec(prefix, resource_id) == whole.take(255)
        }),
{
    let whole = table_part_spec(prefix) + "-"@ + table_part_spec(resource_id);
    text::lemma_head_and_tail(whole, 255);
}

/// The id of the resources of a run holds the run, the instance and the time, so two runs at different
/// times share none.
pub proof fn lemma_resource_ids_differ(run_id: Seq<char>, instance_id: Seq<char>, a: nat, b: nat)
    requires
        resource_id_spec(run_id, instance_id, a) == resource_id_spec(run_id, instance_id, b),
    ensures
        a == b,
        resource_id_spec(run_id, instance_id, a) == identifier_spec(run_id) + "-"@ + identifier_spec(
            instance_id,
        ) + "-"@ + text::dec(a),
{
    let start = identifier_spec(run_id) + "-"@ + identifier_spec(instance_id) + "-"@;
    assert((start + text::dec(a)).skip(start.len() as int) =~= text::dec(a));
    assert((start + text::dec(b)).skip(start.len() as int) =~= text::dec(b));
    text::lemma_dec_reads_back(a);
    text::lemma_dec_reads_back(b);
}

/// A table is created and removed unless a setting says otherwise, and a setting that says neither
/// yes nor no is an error.
pub proof fn lemma_switches_are_on(e: ExperimentSpec, process: Seq<Entry>, keys: Seq<Seq<char>>)
    ensures
        ({
            let read = environment::env_bool_spec(
                EnvReader::MetadataExperiments,
                e.env@,
                process,
                keys,
            );
            &&& switch_spec(e, process, keys) is Err <==> read is Err
            &&& read is Err ==> switch_spec(e, process, keys)->Err_0 == read->Err_0
            &&& read is Ok ==> (switch_spec(e, process, keys)->Ok_0 <==> read->Ok_0 != Some(false))
        }),
{
}

/// The settings that switch the making and the removing of a table, and those that bound a scan and
/// count what is claimed, by name and in the order in which they are asked for.
pub proof fn lemma_metadata_settings_by_name()
    ensures
        create_table_keys().len() == 3,
        create_table_keys()[0] == "LC_BENCH_METADATA_CREATE_TABLE"@,
        create_table_keys()[1] == "METADATA_CREATE_TABLE"@,
        create_table_keys()[2] == "DDB_CREATE_TABLE"@,
        cleanup_table_keys().len() == 2,
        cleanup_table_keys()[0] == "LC_BENCH_METADATA_CLEANUP_TABLE"@,
        cleanup_table_keys()[1] == "METADATA_CLEANUP_TABLE"@,
        scan_limit_keys().len() == 2,
        scan_limit_keys()[0] == "LC_BENCH_METADATA_SCAN_LIMIT"@,
        scan_limit_keys()[1] == "METADATA_SCAN_LIMIT"@,
        claim_target_keys().len() == 2,
        claim_target_keys()[0] == "LC_BENCH_METADATA_CLAIM_TARGET_COUNT"@,
        claim_target_keys()[1] == "METADATA_CLAIM_TARGET_COUNT"@,
{
}

/// A payload is as long as asked for and goes round the same words: the seed, the number of the
/// element and the name of the benchmark.
pub proof fn lemma_payload_goes_round(seed: nat, seq: int, size: nat)
    ensures
        payload_spec(seed, seq, size).len() == size,
        ({
            let words = text::dec(seed) + ":"@ + text::dec_int(seq)
                + ":lambda-channel-metadata-benchmark:"@;
            let n = words.len() as int;
            &&& n > 0
            &&& forall|i: int|
                0 <= i < size && i < n ==> #[trigger] payload_spec(seed, seq, size)[i] == words[i]
            &&& forall|i: int|
                n <= i < size ==> #[trigger] payload_spec(seed, seq, size)[i] == payload_spec(
                    seed,
                    seq,
                    size,
                )[i - n]
        }),
{
    let words = text::dec(seed) + ":"@ + text::dec_int(seq) + ":lambda-channel-metadata-benchmark:"@;
    let n = words.len() as int;
    text::lemma_dec_reads_back(seed);
    assert(text::dec(seed).len() > 0);
    assert forall|i: int| 0 <= i < size && i < n implies #[trigger] payload_spec(seed, seq, size)[i]
        == words[i] by {
        assert(i % n == i) by (nonlinear_arith)
            requires
                0 <= i < n,
        ;
    }
    assert forall|i: int| n <= i < size implies #[trigger] payload_spec(seed, seq, size)[i]
        == payload_spec(seed, seq, size)[i - n] by {
        vstd::arithmetic::div_mod::lemma_mod_sub_multiples_vanish(i, n);
        assert((i - n) % n == i % n);
    }
}

/// What an element points at says what it is, its number and the seed, and holds a payload just where
/// one is asked for.
pub proof fn lemma_pointers_say_what_they_are(seq: i64, seed: u64, payload_size: usize)
    ensures
        pointer_spec(seq, seed, payload_size).len() == if payload_size > 0 {
            4nat
        } else {
            3nat
        },
        pointer_spec(seq, seed, payload_size)[0] == ("kind"@, NativeTree::Text("metadata-bench"@)),
        pointer_spec(seq, seed, payload_size)[1] == ("seq"@, NativeTree::Int(seq)),
        pointer_spec(seq, seed, payload_size)[2] == ("seed"@, NativeTree::Int(seed as i64)),
        payload_size > 0 ==> pointer_spec(seq, seed, payload_size)[3] == (
            "payload"@,
            NativeTree::Text(payload_spec(seed as nat, seq as int, payload_size as nat)),
        ),
{
}

/// A task has the number of its start plus its place, which goes round where it is told to, and no
/// number just where the platform or 64 bits with a sign cannot hold it.
pub proof fn lemma_numbers_of_tasks(start: nat, index: nat, around: Option<usize>, what: Seq<char>)
    ensures
        around is None ==> (task_seq_spec(start, index, around, what) is Ok <==> start + index
            <= usize::MAX && start + index <= i64::MAX),
        around is None && task_seq_spec(start, index, around, what) is Ok ==> task_seq_spec(
            start,
            index,
            around,
            what,
        )->Ok_0 == start + index,
        around is Some && around->0 > 0 && task_seq_spec(start, index, around, what) is Ok ==> {
            let r = task_seq_spec(start, index, around, what)->Ok_0;
            &&& start <= r < start + around->0
            &&& (r - start - index) % (around->0 as int) == 0
        },
{
    reveal(task_seq_spec);
    if around is Some && around->0 > 0 {
        let n = around->0 as int;
        let i = index as int;
        assert(0 <= i % n < n && (i % n - i) % n == 0) by (nonlinear_arith)
            requires
                n > 0,
        {
            assert(i % n - i == n * (-(i / n)));
            vstd::arithmetic::div_mod::lemma_mod_multiples_basic(-(i / n), n);
            assert((n * (-(i / n))) % n == 0) by {
                assert(n * (-(i / n)) == (-(i / n)) * n);
            }
        }
    }
}

/// A metadata experiment is taken just where the platform can count its operations, those of its
/// warmup and the bytes of its payloads.
pub proof fn lemma_metadata_counts_that_are_taken(measured_operations: u64, e: ExperimentSpec)
    ensures
        counts_problem(measured_operations, e) is None <==> measured_operations <= usize::MAX
            && e.benchmark.warmup_operations <= usize::MAX && e.benchmark.object_size_bytes
            <= usize::MAX,
{
}

/// A count of the settings is the one that is set, or else the one at hand, and at least one.
pub proof fn lemma_counts_are_at_least_one(
    e: ExperimentSpec,
    process: Seq<Entry>,
    keys: Seq<Seq<char>>,
    fallback: usize,
)
    ensures
        ({
            let read = environment::env_usize_spec(
                EnvReader::MetadataExperiments,
                e.env@,
                process,
                keys,
            );
            let r = count_spec(e, process, keys, fallback);
            &&& r is Err <==> read is Err
            &&& r is Ok ==> r->Ok_0 >= 1
            &&& r is Ok && read->Ok_0 is Some && (read->Ok_0)->0 >= 1 ==> r->Ok_0 == (read->Ok_0)->0
            &&& r is Ok && read->Ok_0 is None && fallback >= 1 ==> r->Ok_0 == fallback
        }),
{
}

/// Attempts to claim are counted by how they end, each in its own counter.
pub proof fn lemma_claims_by_outcome(c: ClaimCounters)
    ensures
        c.of(ClaimOutcome::Claimed) == c.claimed,
        c.of(ClaimOutcome::AlreadyConsumed) == c.already_consumed,
        c.of(ClaimOutcome::Missing) == c.missing,
        c.of(ClaimOutcome::Eof) == c.eof,
        c.attempts() == c.of(ClaimOutcome::Claimed) + c.of(ClaimOutcome::AlreadyConsumed) + c.of(
            ClaimOutcome::Missing,
        ) + c.of(ClaimOutcome::Eof),
{
}

/// An experiment that went well says nothing, and one that did not says both what went wrong in it and
/// what went wrong in cleaning up.
pub proof fn lemma_metadata_problems_are_told(
    execution: Option<Seq<char>>,
    cleanup: Result<(), Seq<char>>,
)
    ensures
        metadata_problem(execution, cleanup) is None <==> execution is None && cleanup is Ok,
        execution is Some && cleanup is Ok ==> metadata_problem(execution, cleanup) == execution,
        execution is None && cleanup is Err ==> metadata_problem(execution, cleanup) == Some(
            cleanup->Err_0,
        ),
        execution is Some && cleanup is Err ==> metadata_problem(execution, cleanup) == Some(
            execution->0 + "; cleanup also failed: "@ + cleanup->Err_0,
        ),
{
}

/// Where just one count of a metadata experiment is too large, it is told.
pub proof fn lemma_metadata_count_problems(measured_operations: u64, e: ExperimentSpec)
    ensures
        ({
            let a = measured_operations > usize::MAX;
            let b = e.benchmark.warmup_operations > usize::MAX;
            let c = e.benchmark.object_size_bytes > usize::MAX;
            &&& a && !b && !c ==> counts_problem(measured_operations, e) == Some("duration-based benchmark operations is too large for this platform"@)
            &&& b && !a && !c ==> counts_problem(measured_operations, e) == Some("benchmark.warmup_operations is too large for this platform"@)
            &&& c && !a && !b ==> counts_problem(measured_operations, e) == Some("benchmark.object_size_bytes is too large for this platform"@)
        }),
{
}

/// A number that cannot be is told: one that 64 bits with a sign do not hold by itself, and one that
/// the platform does not hold by what it counts.
pub proof fn lemma_numbers_that_cannot_be(start: nat, offset: nat, what: Seq<char>)
    ensures
        start + offset > usize::MAX ==> seq_spec(start, offset, what) == Err::<int, Seq<char>>(
            what + " overflowed usize"@,
        ),
        i64::MAX < start + offset <= usize::MAX ==> seq_spec(start, offset, what) == Err::<
            int,
            Seq<char>,
        >("value "@ + text::dec(start + offset) + " is too large for i64"@),
{
}

} // verus!
