//! The blob put experiments.
use crate::binary64::Real;
use crate::config::ExperimentSpec;
use crate::environment;
use crate::latency::LatencySummary;
use crate::paced;
use crate::paced::PacedTaskRunReport;
use crate::payload;
use crate::text;
use vstd::prelude::*;
use vstd::string::*;

verus! {

/// The store that a put experiment puts into.
#[derive(Clone, Copy, Debug, PartialEq, Eq, Structural)]
pub enum PutWorkload {
    LocalFile,
    S3,
    P2P,
}

impl PutWorkload {
    pub open spec fn named(workload: Seq<char>) -> Option<PutWorkload> {
        if workload == "blob.put.local_file"@ {
            Some(PutWorkload::LocalFile)
        } else if workload == "blob.put.s3"@ {
            Some(PutWorkload::S3)
        } else if workload == "blob.put.p2p"@ {
            Some(PutWorkload::P2P)
        } else {
            None
        }
    }

    pub fn from_workload(workload: &str) -> (r: Result<PutWorkload, String>)
        ensures
            match r {
                Ok(w) => PutWorkload::named(workload@) == Some(w),
                Err(m) => PutWorkload::named(workload@) is None && m@
                    == "unsupported blob put workload "@ + workload@
                    + "; use blob.put.local_file, blob.put.s3, or blob.put.p2p"@,
            },
    {
        if text::same(workload, "blob.put.local_file") {
            Ok(PutWorkload::LocalFile)
        } else if text::same(workload, "blob.put.s3") {
            Ok(PutWorkload::S3)
        } else if text::same(workload, "blob.put.p2p") {
            Ok(PutWorkload::P2P)
        } else {
            Err(
                text::cat3(
                    "unsupported blob put workload ",
                    workload,
                    "; use blob.put.local_file, blob.put.s3, or blob.put.p2p",
                ),
            )
        }
    }

    pub fn backend_name(self) -> (r: &'static str)
        ensures
            r@ == match self {
                PutWorkload::LocalFile => "local-file"@,
                PutWorkload::S3 => "s3"@,
                PutWorkload::P2P => "p2p"@,
            },
    {
        match self {
            PutWorkload::LocalFile => "local-file",
            PutWorkload::S3 => "s3",
            PutWorkload::P2P => "p2p",
        }
    }
}

/// The sizes of a put datapoint: the objects to measure, those to warm up with, and both together.
#[derive(Clone, Copy, Debug, PartialEq, Eq, Structural)]
pub struct PutCounts {
    pub object_size: usize,
    pub measured: usize,
    pub warmup: usize,
    pub total: usize,
}

/// What is wrong with the sizes of a put datapoint, in the order in which it is looked for.
pub open spec fn counts_problem(measured_operations: u64, e: ExperimentSpec) -> Option<Seq<char>> {
    let b = e.benchmark;
    if b.object_size_bytes < 8 {
        Some(
            "blob put object_size_bytes must be at least 8 so each tiny object can carry a unique id"@,
        )
    } else if b.object_size_bytes > usize::MAX {
        Some("object_size_bytes is too large for this platform"@)
    } else if measured_operations > usize::MAX {
        Some("benchmark.operations is too large for this platform"@)
    } else if b.warmup_operations > usize::MAX {
        Some("benchmark.warmup_operations is too large for this platform"@)
    } else if b.warmup_operations + measured_operations > usize::MAX {
        Some("warmup_operations + operations is too large"@)
    } else {
        None
    }
}

/// The sizes of a datapoint with so many operations to measure, which
/// `BenchmarkConfig::operations_for_target` gives for the rate of the datapoint.
pub fn put_counts(measured_operations: u64, experiment: &ExperimentSpec) -> (r: Result<
    PutCounts,
    String,
>)
    ensures
        match r {
            Ok(c) => {
                &&& counts_problem(measured_operations, *experiment) is None
                &&& c.object_size == experiment.benchmark.object_size_bytes
                &&& c.measured == measured_operations
                &&& c.warmup == experiment.benchmark.warmup_operations
                &&& c.total == c.warmup + c.measured
                &&& c.object_size >= 8
            },
            Err(m) => counts_problem(measured_operations, *experiment) == Some(m@),
        },
{
    let object_size: usize = match payload::object_size_usize(
        experiment.benchmark.object_size_bytes,
    ) {
        Ok(n) => n,
        Err(m) => {
            return Err(m);
        },
    };
    if measured_operations > usize::MAX as u64 {
        return Err("benchmark.operations is too large for this platform".to_owned());
    }
    if experiment.benchmark.warmup_operations > usize::MAX as u64 {
        return Err("benchmark.warmup_operations is too large for this platform".to_owned());
    }
    let measured: usize = measured_operations as usize;
    let warmup: usize = experiment.benchmark.warmup_operations as usize;
    match warmup.checked_add(measured) {
        Some(total) => Ok(PutCounts { object_size, measured, warmup, total }),
        None => Err("warmup_operations + operations is too large".to_owned()),
    }
}

/// The bytes that a put datapoint with so many operations measures.
pub fn put_total_bytes(measured_operations: u64, experiment: &ExperimentSpec) -> (r: u64)
    ensures
        r == text::min_int(
            measured_operations * experiment.benchmark.object_size_bytes,
            u64::MAX as int,
        ),
{
    match measured_operations.checked_mul(experiment.benchmark.object_size_bytes) {
        Some(n) => n,
        None => u64::MAX,
    }
}

// ---------------------------------------------------------------------------------------------
// Cleaning up
// ---------------------------------------------------------------------------------------------
/// Something that a datapoint leaves behind.
#[derive(Debug)]
pub enum CleanupResource {
    LocalDir(String),
    S3Bucket(String),
    DynamoDbTable(String),
}

/// What is done about it once the datapoint is over.
#[derive(Debug)]
pub enum CleanupAction {
    RemoveDir(String),
    /// It stays for the collector, and the line says so.
    Defer(String),
}

/// The line that leaves an AWS resource to the collector.
pub open spec fn deferred_spec(kind: Seq<char>, name: Seq<char>) -> Seq<char> {
    "deferred AWS cleanup for "@ + kind + " "@ + name
        + "; run cloudlab/scripts/entrypoints/gc_aws_resources.py by prefix"@
}

pub fn deferred_cleanup(kind: &str, name: &str) -> (r: String)
    ensures
        r@ == deferred_spec(kind@, name@),
{
    text::cat5(
        "deferred AWS cleanup for ",
        kind,
        " ",
        name,
        "; run cloudlab/scripts/entrypoints/gc_aws_resources.py by prefix",
    )
}

impl CleanupResource {
    /// Only local files are removed here. What is on AWS is left to the collector, which finds it
    /// by its prefix.
    pub fn action(&self) -> (r: CleanupAction)
        ensures
            match *self {
                CleanupResource::LocalDir(path) => r matches CleanupAction::RemoveDir(p) && p@
                    == path@,
                CleanupResource::S3Bucket(name) => r matches CleanupAction::Defer(line) && line@
                    == deferred_spec("S3 bucket"@, name@),
                CleanupResource::DynamoDbTable(name) => r matches CleanupAction::Defer(line)
                    && line@ == deferred_spec("DynamoDB table"@, name@),
            },
    {
        match self {
            CleanupResource::LocalDir(path) => CleanupAction::RemoveDir(path.clone()),
            CleanupResource::S3Bucket(name) => CleanupAction::Defer(
                deferred_cleanup("S3 bucket", name.as_str()),
            ),
            CleanupResource::DynamoDbTable(name) => CleanupAction::Defer(
                deferred_cleanup("DynamoDB table", name.as_str()),
            ),
        }
    }
}

pub open spec fn cleanup_spec(errors: Seq<Seq<char>>) -> Result<(), Seq<char>> {
    if errors.len() == 0 {
        Ok(())
    } else {
        Err("cleanup failed: "@ + text::join_spec(errors, "; "@))
    }
}

/// What a cleanup comes to, with the errors it met.
pub fn cleanup_outcome(errors: &Vec<String>) -> (r: Result<(), String>)
    ensures
        environment::plain_result(r) == cleanup_spec(text::views(errors@)),
{
    if errors.len() == 0 {
        assert(text::views(errors@).len() == 0);
        Ok(())
    } else {
        Err(text::cat2("cleanup failed: ", text::join(errors, "; ").as_str()))
    }
}

pub open spec fn also(so_far: Seq<char>, r: Result<(), Seq<char>>) -> Seq<char> {
    match r {
        Ok(_) => so_far,
        Err(e) => so_far + "; also "@ + e,
    }
}

/// An error with those that followed it.
pub fn with_followup_errors(
    primary: &str,
    close: &Result<(), String>,
    cleanup: &Result<(), String>,
) -> (r: String)
    ensures
        r@ == also(
            also(primary@, environment::plain_result(*close)),
            environment::plain_result(*cleanup),
        ),
{
    let mut message = primary.to_owned();
    if let Err(e) = close {
        message = text::cat3(message.as_str(), "; also ", e.as_str());
    }
    if let Err(e) = cleanup {
        message = text::cat3(message.as_str(), "; also ", e.as_str());
    }
    message
}

/// Why a put datapoint has no report: the first thing that went wrong, with what followed.
pub open spec fn put_problem(
    execution: Option<Seq<char>>,
    close: Result<(), Seq<char>>,
    cleanup: Result<(), Seq<char>>,
) -> Option<Seq<char>> {
    match execution {
        Some(e) => Some(also(also("blob put execution failed: "@ + e, close), cleanup)),
        None => match close {
            Err(e) => Some(also(e, cleanup)),
            Ok(_) => match cleanup {
                Err(e) => Some(e),
                Ok(_) => None,
            },
        },
    }
}

/// What a put datapoint comes to, once its store is closed and cleaned up.
pub fn put_outcome(
    execution_error: &Option<String>,
    close: Result<(), String>,
    cleanup: Result<(), String>,
) -> (r: Result<(), String>)
    ensures
        match put_problem(
            text::option_view(*execution_error),
            environment::plain_result(close),
            environment::plain_result(cleanup),
        ) {
            Some(problem) => r matches Err(m) && m@ == problem,
            None => r is Ok,
        },
{
    match execution_error {
        Some(e) => {
            let primary = text::cat2("blob put execution failed: ", e.as_str());
            Err(with_followup_errors(primary.as_str(), &close, &cleanup))
        },
        None => match close {
            Err(e) => {
                let fine: Result<(), String> = Ok(());
                Err(with_followup_errors(e.as_str(), &fine, &cleanup))
            },
            Ok(_) => cleanup,
        },
    }
}

/// Whether an error of AWS says that what is to be removed is not there.
pub open spec fn is_missing_spec(detail: Seq<char>) -> bool {
    ||| text::contains_spec(detail, "NoSuchBucket"@)
    ||| text::contains_spec(detail, "NoSuchKey"@)
    ||| text::contains_spec(detail, "NotFound"@)
    ||| text::contains_spec(detail, "NotFoundException"@)
    ||| text::contains_spec(detail, "ResourceNotFoundException"@)
}

pub fn aws_error_is_missing(detail: &str) -> (r: bool)
    ensures
        r == is_missing_spec(detail@),
{
    text::contains(detail, "NoSuchBucket") || text::contains(detail, "NoSuchKey")
        || text::contains(detail, "NotFound") || text::contains(detail, "NotFoundException")
        || text::contains(detail, "ResourceNotFoundException")
}

/// Where the listing of a bucket goes on: with the token of the next page, or not at all.
pub fn next_page(bucket: &str, truncated: Option<bool>, token: Option<String>) -> (r: Result<
    Option<String>,
    String,
>)
    ensures
        match r {
            Ok(None) => truncated != Some(true),
            Ok(Some(t)) => truncated == Some(true) && token == Some(t),
            Err(m) => truncated == Some(true) && token is None && m@ == "S3 bucket "@ + bucket@
                + " listing was truncated without a continuation token"@,
        },
{
    match truncated {
        Some(true) => match token {
            Some(t) => Ok(Some(t)),
            None => Err(
                text::cat3(
                    "S3 bucket ",
                    bucket,
                    " listing was truncated without a continuation token",
                ),
            ),
        },
        _ => Ok(None),
    }
}

// ---------------------------------------------------------------------------------------------
// The paced part of a report
// ---------------------------------------------------------------------------------------------
/// A paced run without its samples, and with its first failures only.
#[derive(Debug)]
pub struct PacedRunSummary {
    pub target_ops_per_s: Real,
    pub achieved_ops_per_s: Real,
    pub successful_ops_per_s: Real,
    pub total_tasks: usize,
    pub completed_tasks: usize,
    pub failed_tasks: usize,
    pub wall_time_ms: Real,
    pub offered_latency: LatencySummary,
    pub service_latency: LatencySummary,
    pub schedule_lag: LatencySummary,
    pub failure_messages: Vec<String>,
}

impl PacedRunSummary {
    /// Whether this sums up a run.
    pub open spec fn is_of(self, report: PacedTaskRunReport) -> bool {
        &&& self == (PacedRunSummary {
            target_ops_per_s: report.target_ops_per_s,
            achieved_ops_per_s: report.achieved_ops_per_s,
            successful_ops_per_s: report.successful_ops_per_s,
            total_tasks: report.total_tasks,
            completed_tasks: report.completed_tasks,
            failed_tasks: report.failed_tasks,
            wall_time_ms: report.wall_time_ms,
            offered_latency: report.offered_latency,
            service_latency: report.service_latency,
            schedule_lag: report.schedule_lag,
            failure_messages: self.failure_messages,
        })
        &&& text::views(self.failure_messages@) == paced::failure_lines_spec(report.failures@)
    }

    pub fn of(report: &PacedTaskRunReport) -> (r: PacedRunSummary)
        ensures
            r.is_of(*report),
    {
        PacedRunSummary {
            target_ops_per_s: report.target_ops_per_s,
            achieved_ops_per_s: report.achieved_ops_per_s,
            successful_ops_per_s: report.successful_ops_per_s,
            total_tasks: report.total_tasks,
            completed_tasks: report.completed_tasks,
            failed_tasks: report.failed_tasks,
            wall_time_ms: report.wall_time_ms,
            offered_latency: report.offered_latency,
            service_latency: report.service_latency,
            schedule_lag: report.schedule_lag,
            failure_messages: paced::failure_lines(&report.failures),
        }
    }
}

/// The workloads that put blobs, by name.
pub proof fn lemma_put_workloads_by_name(workload: Seq<char>)
    ensures
        PutWorkload::named(workload) == Some(PutWorkload::LocalFile) <==> workload
            == "blob.put.local_file"@,
        PutWorkload::named(workload) == Some(PutWorkload::S3) <==> workload == "blob.put.s3"@,
        PutWorkload::named(workload) == Some(PutWorkload::P2P) <==> workload == "blob.put.p2p"@,
{
    reveal_strlit("blob.put.local_file");
    reveal_strlit("blob.put.s3");
    reveal_strlit("blob.put.p2p");
    assert("blob.put.local_file"@.len() == 19);
    assert("blob.put.s3"@.len() == 11);
    assert("blob.put.p2p"@.len() == 12);
}

/// A put experiment is taken just where an object holds its own id of 8 bytes and the platform can
/// count the bytes of an object and the operations with those of the warmup.
pub proof fn lemma_put_counts_that_are_taken(measured_operations: u64, e: ExperimentSpec)
    ensures
        counts_problem(measured_operations, e) is None <==> 8 <= e.benchmark.object_size_bytes
            <= usize::MAX && e.benchmark.warmup_operations + measured_operations <= usize::MAX,
{
}

/// A put that went well says nothing. One that did not says all that went wrong: the execution first,
/// then the closing, then the cleaning up.
pub proof fn lemma_put_problems_are_told(
    execution: Option<Seq<char>>,
    close: Result<(), Seq<char>>,
    cleanup: Result<(), Seq<char>>,
)
    ensures
        put_problem(execution, close, cleanup) is None <==> execution is None && close is Ok
            && cleanup is Ok,
        execution is Some && close is Err && cleanup is Err ==> put_problem(execution, close, cleanup)
            == Some(
            "blob put execution failed: "@ + execution->0 + "; also "@ + close->Err_0 + "; also "@
                + cleanup->Err_0,
        ),
        execution is Some && close is Err && cleanup is Ok ==> put_problem(execution, close, cleanup)
            == Some("blob put execution failed: "@ + execution->0 + "; also "@ + close->Err_0),
        execution is Some && close is Ok && cleanup is Err ==> put_problem(execution, close, cleanup)
            == Some("blob put execution failed: "@ + execution->0 + "; also "@ + cleanup->Err_0),
        execution is Some && close is Ok && cleanup is Ok ==> put_problem(execution, close, cleanup)
            == Some("blob put execution failed: "@ + execution->0),
        execution is None && close is Err && cleanup is Err ==> put_problem(execution, close, cleanup)
            == Some(close->Err_0 + "; also "@ + cleanup->Err_0),
        execution is None && close is Err && cleanup is Ok ==> put_problem(execution, close, cleanup)
            == Some(close->Err_0),
        execution is None && close is Ok && cleanup is Err ==> put_problem(execution, close, cleanup)
            == Some(cleanup->Err_0),
{
}

/// Cleaning up succeeds just where nothing went wrong, and tells all that did.
pub proof fn lemma_cleanup_tells_all(errors: Seq<Seq<char>>)
    ensures
        cleanup_spec(errors) is Ok <==> errors.len() == 0,
        errors.len() > 0 ==> cleanup_spec(errors)->Err_0 == "cleanup failed: "@ + text::join_spec(
            errors,
            "; "@,
        ),
{
}

/// What is missing already need not be cleaned up: any of the words that a store has for it tells so,
/// wherever it stands.
pub proof fn lemma_words_for_missing(a: Seq<char>, b: Seq<char>)
    ensures
        is_missing_spec(a + "NoSuchBucket"@ + b),
        is_missing_spec(a + "NoSuchKey"@ + b),
        is_missing_spec(a + "NotFound"@ + b),
        is_missing_spec(a + "ResourceNotFoundException"@ + b),
        is_missing_spec(a) ==> text::contains_spec(a, "NoSuchBucket"@) || text::contains_spec(
            a,
            "NoSuchKey"@,
        ) || text::contains_spec(a, "NotFound"@),
{
    text::lemma_contains_what_is_there(a, "NoSuchBucket"@, b);
    text::lemma_contains_what_is_there(a, "NoSuchKey"@, b);
    text::lemma_contains_what_is_there(a, "NotFound"@, b);
    text::lemma_contains_what_is_there(a, "ResourceNotFoundException"@, b);
    reveal_strlit("NotFound");
    reveal_strlit("NotFoundException");
    reveal_strlit("ResourceNotFoundException");
    if text::contains_spec(a, "NotFoundException"@) {
        let i = choose|i: int| #[trigger] text::occurs_at(a, "NotFoundException"@, i);
        assert(a.subrange(i, i + 8) =~= a.subrange(i, i + 17).take(8));
        assert("NotFoundException"@.take(8) =~= "NotFound"@);
        assert(text::occurs_at(a, "NotFound"@, i));
    }
    if text::contains_spec(a, "ResourceNotFoundException"@) {
        let i = choose|i: int| #[trigger] text::occurs_at(a, "ResourceNotFoundException"@, i);
        assert(a.subrange(i + 8, i + 16) =~= a.subrange(i, i + 25).subrange(8, 16));
        assert("ResourceNotFoundException"@.subrange(8, 16) =~= "NotFound"@);
        assert(text::occurs_at(a, "NotFound"@, i + 8));
    }
}

/// What is left for later is named, with what removes it.
pub proof fn lemma_deferred_cleanup_is_named(kind: Seq<char>, name: Seq<char>)
    ensures
        deferred_spec(kind, name) == "deferred AWS cleanup for "@ + kind + " "@ + name
            + "; run cloudlab/scripts/entrypoints/gc_aws_resources.py by prefix"@,
{
}

/// The summary of a paced run has the figures of the run, each in its own place.
pub proof fn lemma_summary_has_the_figures(s: PacedRunSummary, report: PacedTaskRunReport)
    requires
        s.is_of(report),
    ensures
        s.target_ops_per_s == report.target_ops_per_s,
        s.achieved_ops_per_s == report.achieved_ops_per_s,
        s.successful_ops_per_s == report.successful_ops_per_s,
        s.total_tasks == report.total_tasks,
        s.completed_tasks == report.completed_tasks,
        s.failed_tasks == report.failed_tasks,
        s.wall_time_ms == report.wall_time_ms,
        s.offered_latency == report.offered_latency,
        s.service_latency == report.service_latency,
        s.schedule_lag == report.schedule_lag,
        text::views(s.failure_messages@) == paced::failure_lines_spec(report.failures@),
{
}

/// Where just one thing is wrong with the counts of a put experiment, it is told.
pub proof fn lemma_put_count_problems(measured_operations: u64, e: ExperimentSpec)
    ensures
        ({
            let b = e.benchmark;
            let k = b.object_size_bytes < 8;
            let m = b.object_size_bytes > usize::MAX;
            let n = measured_operations > usize::MAX;
            let o = b.warmup_operations > usize::MAX;
            let p = b.warmup_operations + measured_operations > usize::MAX;
            &&& k && !m && !n && !o && !p ==> counts_problem(measured_operations, e) == Some("blob put object_size_bytes must be at least 8 so each tiny object can carry a unique id"@)
            &&& m && !k && !n && !o && !p ==> counts_problem(measured_operations, e) == Some("object_size_bytes is too large for this platform"@)
            &&& n && !k && !m && !o && !p ==> counts_problem(measured_operations, e) == Some("benchmark.operations is too large for this platform"@)
            &&& o && !k && !m && !n && !p ==> counts_problem(measured_operations, e) == Some("benchmark.warmup_operations is too large for this platform"@)
            &&& p && !k && !m && !n && !o ==> counts_problem(measured_operations, e) == Some("warmup_operations + operations is too large"@)
        }),
{
}

} // verus!
