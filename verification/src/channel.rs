//! Channels on a node: paced sends of files with a header, and a receiver that polls and
//! materializes several elements at a time.
use crate::binary64::Real;
use crate::latency::LatencySummary;
use crate::naming;
use crate::paced;
use crate::paced::{PacedTaskFailure, PacedTaskRunReport};
use crate::protocol::{
    ChannelReceiverResult, ChannelSendResult, StartChannelReceiverRequest,
    StartPacedChannelSendRequest,
};
use crate::staging;
use crate::text;
use crate::text::CharClass;
use std::collections::VecDeque;
use vstd::bytes::*;
use vstd::prelude::*;
use vstd::string::*;
use vstd::utf8::*;

verus! {

/// The bytes of a payload header.
pub const HEADER_LEN: usize = 32;

/// Every header ends in these bits, mixed with a hash of the run.
pub const HEADER_MARKER: u32 = 0xC0DECAFE;

/// A receiver polls at least this often.
pub const MAX_POLL_PERIOD_MS: u64 = 500;

/// The failures that a result carries.
pub const MAX_RETAINED_FAILURES: usize = 64;

// ---------------------------------------------------------------------------------------------
// Headers
// ---------------------------------------------------------------------------------------------
/// `LCCH`
pub open spec fn magic() -> Seq<u8> {
    seq![0x4cu8, 0x43u8, 0x43u8, 0x48u8]
}

/// The header of a payload: the magic, then the sequence number, the time of sending, the size and
/// the marker, each with its lowest byte first.
pub open spec fn header_spec(seq: i64, send_unix_ns: u64, object_size_bytes: u64, run_hash: u32) -> Seq<
    u8,
> {
    magic() + spec_u64_to_le_bytes(seq as u64) + spec_u64_to_le_bytes(send_unix_ns)
        + spec_u64_to_le_bytes(object_size_bytes) + spec_u32_to_le_bytes(HEADER_MARKER ^ run_hash)
}

fn push_all(out: &mut Vec<u8>, bytes: Vec<u8>)
    ensures
        final(out)@ == old(out)@ + bytes@,
{
    let mut tail = bytes;
    out.append(&mut tail);
}

pub fn encode_header(seq: i64, send_unix_ns: u64, object_size_bytes: u64, run_hash: u32) -> (r: Vec<
    u8,
>)
    ensures
        r@ == header_spec(seq, send_unix_ns, object_size_bytes, run_hash),
        r@.len() == HEADER_LEN,
{
    let mut out: Vec<u8> = Vec::new();
    out.push(0x4c);
    out.push(0x43);
    out.push(0x43);
    out.push(0x48);
    assert(out@ =~= magic());
    push_all(&mut out, u64_to_le_bytes(seq as u64));
    push_all(&mut out, u64_to_le_bytes(send_unix_ns));
    push_all(&mut out, u64_to_le_bytes(object_size_bytes));
    push_all(&mut out, u32_to_le_bytes(HEADER_MARKER ^ run_hash));
    out
}

/// What a header says.
#[derive(Clone, Copy, Debug, PartialEq, Eq, Structural)]
pub struct PayloadHeader {
    pub seq: i64,
    pub send_unix_ns: u64,
    pub object_size_bytes: u64,
}

pub open spec fn decode_spec(bytes: Seq<u8>) -> Option<PayloadHeader> {
    if bytes.take(4) != magic() {
        None
    } else {
        Some(
            PayloadHeader {
                seq: spec_u64_from_le_bytes(bytes.subrange(4, 12)) as i64,
                send_unix_ns: spec_u64_from_le_bytes(bytes.subrange(12, 20)),
                object_size_bytes: spec_u64_from_le_bytes(bytes.subrange(20, 28)),
            },
        )
    }
}

/// Reads the header at the start of the payload in file `path`.
pub fn decode_header(bytes: &Vec<u8>, path: &str) -> (r: Result<PayloadHeader, String>)
    requires
        bytes@.len() == HEADER_LEN,
    ensures
        match r {
            Ok(h) => decode_spec(bytes@) == Some(h),
            Err(m) => decode_spec(bytes@) is None && m@ == "materialized payload "@ + path@
                + " has invalid magic"@,
        },
{
    if !(bytes[0] == 0x4c && bytes[1] == 0x43 && bytes[2] == 0x43 && bytes[3] == 0x48) {
        assert(bytes@.take(4)[0] == bytes@[0] && bytes@.take(4)[1] == bytes@[1] && bytes@.take(
            4,
        )[2] == bytes@[2] && bytes@.take(4)[3] == bytes@[3]);
        return Err(text::cat3("materialized payload ", path, " has invalid magic"));
    }
    assert(bytes@.take(4) =~= magic());
    let all = bytes.as_slice();
    let seq_bytes = vstd::slice::slice_subrange(all, 4, 12);
    let send_bytes = vstd::slice::slice_subrange(all, 12, 20);
    let size_bytes = vstd::slice::slice_subrange(all, 20, 28);
    Ok(
        PayloadHeader {
            seq: u64_from_le_bytes(seq_bytes) as i64,
            send_unix_ns: u64_from_le_bytes(send_bytes),
            object_size_bytes: u64_from_le_bytes(size_bytes),
        },
    )
}

/// A header that was written reads back as what was written.
pub proof fn lemma_header_round_trip(
    seq: i64,
    send_unix_ns: u64,
    object_size_bytes: u64,
    run_hash: u32,
)
    ensures
        decode_spec(header_spec(seq, send_unix_ns, object_size_bytes, run_hash)) == Some(
            (PayloadHeader { seq, send_unix_ns, object_size_bytes }),
        ),
{
    lemma_auto_spec_u64_to_from_le_bytes();
    lemma_auto_spec_u32_to_from_le_bytes();
    let h = header_spec(seq, send_unix_ns, object_size_bytes, run_hash);
    assert(h.take(4) =~= magic());
    assert(h.subrange(4, 12) =~= spec_u64_to_le_bytes(seq as u64));
    assert(h.subrange(12, 20) =~= spec_u64_to_le_bytes(send_unix_ns));
    assert(h.subrange(20, 28) =~= spec_u64_to_le_bytes(object_size_bytes));
    assert((seq as u64) as i64 == seq) by (bit_vector);
}

// ---------------------------------------------------------------------------------------------
// Sending
// ---------------------------------------------------------------------------------------------
pub open spec fn send_problem(r: StartPacedChannelSendRequest) -> Option<Seq<char>> {
    if r.count == 0 {
        Some("channel send count must be greater than zero"@)
    } else if r.object_size_bytes < HEADER_LEN {
        Some("channel payload object_size_bytes must be at least 32"@)
    } else if !r.target_ops_per_s.is_positive_spec() {
        Some("target_ops_per_s must be a finite positive number"@)
    } else if r.max_in_flight == 0 {
        Some("max_in_flight must be greater than zero"@)
    } else {
        None
    }
}

pub fn check_send(request: &StartPacedChannelSendRequest) -> (r: Result<(), String>)
    ensures
        match r {
            Ok(_) => send_problem(*request) is None,
            Err(m) => send_problem(*request) == Some(m@),
        },
{
    if request.count == 0 {
        Err("channel send count must be greater than zero".to_owned())
    } else if request.object_size_bytes < HEADER_LEN as u64 {
        Err("channel payload object_size_bytes must be at least 32".to_owned())
    } else if !request.target_ops_per_s.is_positive() {
        Err("target_ops_per_s must be a finite positive number".to_owned())
    } else if request.max_in_flight == 0 {
        Err("max_in_flight must be greater than zero".to_owned())
    } else {
        Ok(())
    }
}

/// The payload file `index` of a send.
pub fn send_payload_path(dir: &str, index: usize) -> (r: String)
    ensures
        r@ == staging::numbered_file_spec(dir@, "payload_"@, index as nat, 8),
{
    let name = text::cat3("payload_", text::decimal_padded(index as u64, 8).as_str(), ".bin");
    naming::path_join(dir, name.as_str())
}

/// The lines that a send reports: the first failures of its tasks, then that of the closing, while
/// there is room.
pub open spec fn send_failures_spec(
    failures: Seq<PacedTaskFailure>,
    close_error: Option<Seq<char>>,
) -> Seq<Seq<char>> {
    let lines = Seq::new(
        text::min_int(failures.len() as int, MAX_RETAINED_FAILURES as int) as nat,
        |i: int| paced::failure_line(failures[i]),
    );
    match close_error {
        Some(detail) if lines.len() < MAX_RETAINED_FAILURES => lines.push(
            "close failed: "@ + detail,
        ),
        _ => lines,
    }
}

fn send_failures(failures: &Vec<PacedTaskFailure>, close_error: &Option<String>) -> (r: Vec<String>)
    ensures
        text::views(r@) == send_failures_spec(failures@, text::option_view(*close_error)),
{
    let mut out: Vec<String> = Vec::new();
    let mut i: usize = 0;
    while i < failures.len() && i < MAX_RETAINED_FAILURES
        invariant
            i <= failures@.len(),
            i <= MAX_RETAINED_FAILURES,
            out@.len() == i,
            forall|j: int| 0 <= j < i ==> (#[trigger] out@[j])@ == paced::failure_line(failures@[j]),
        decreases failures.len() - i,
    {
        let line = text::cat4(
            "index=",
            text::decimal(failures[i].index as u64).as_str(),
            ": ",
            failures[i].message.as_str(),
        );
        out.push(line);
        i = i + 1;
    }
    if let Some(detail) = close_error {
        if out.len() < MAX_RETAINED_FAILURES {
            out.push(text::cat2("close failed: ", detail.as_str()));
        }
    }
    assert(text::views(out@) =~= send_failures_spec(failures@, text::option_view(*close_error)));
    out
}

/// How many elements a send delivered to its channel.
pub open spec fn sent_count_spec(paced: PacedTaskRunReport) -> nat {
    if paced.completed_tasks < paced.failed_tasks {
        0
    } else {
        (paced.completed_tasks - paced.failed_tasks) as nat
    }
}

impl ChannelSendResult {
    /// What a send that has run and closed its channel comes to.
    pub fn of(
        request: &StartPacedChannelSendRequest,
        payload_dir: String,
        prestage_payload_ms: Real,
        close_elapsed_ms: Real,
        close_error: &Option<String>,
        paced: PacedTaskRunReport,
    ) -> (r: ChannelSendResult)
        ensures
            r.sent_count == sent_count_spec(paced),
            r.total_bytes == text::min_int(
                request.object_size_bytes * sent_count_spec(paced),
                u64::MAX as int,
            ),
            r.close_elapsed_ms == close_elapsed_ms,
            r.prestage_payload_ms == prestage_payload_ms,
            r.payload_strategy == request.payload_strategy,
            r.payload_dir == payload_dir,
            r.paced == paced,
            text::views(r.failure_messages@) == send_failures_spec(
                paced.failures@,
                text::option_view(*close_error),
            ),
    {
        let sent_count: usize = if paced.completed_tasks < paced.failed_tasks {
            0
        } else {
            paced.completed_tasks - paced.failed_tasks
        };
        let total_bytes: u64 = match request.object_size_bytes.checked_mul(sent_count as u64) {
            Some(total) => total,
            None => u64::MAX,
        };
        let failure_messages = send_failures(&paced.failures, close_error);
        ChannelSendResult {
            sent_count,
            total_bytes,
            close_elapsed_ms,
            prestage_payload_ms,
            payload_strategy: request.payload_strategy.clone(),
            payload_dir,
            paced,
            failure_messages,
        }
    }
}

// ---------------------------------------------------------------------------------------------
// Errors
// ---------------------------------------------------------------------------------------------
/// The texts without those that repeat the one before.
pub open spec fn deduped(parts: Seq<Seq<char>>) -> Seq<Seq<char>>
    decreases parts.len(),
{
    if parts.len() == 0 {
        parts
    } else if parts.len() >= 2 && parts[parts.len() - 2] == parts.last() {
        deduped(parts.drop_last())
    } else {
        deduped(parts.drop_last()).push(parts.last())
    }
}

/// An error with what caused it: the texts of the chain, repetitions left out.
pub fn error_detail(parts: &Vec<String>) -> (r: String)
    ensures
        r@ == text::join_spec(deduped(text::views(parts@)), " | caused by: "@),
{
    let mut kept: Vec<String> = Vec::new();
    let mut i: usize = 0;
    let ghost all = text::views(parts@);
    assert(all.take(0) =~= Seq::<Seq<char>>::empty());
    assert(text::views(kept@) =~= Seq::<Seq<char>>::empty());
    while i < parts.len()
        invariant
            i <= parts@.len(),
            all == text::views(parts@),
            text::views(kept@) == deduped(all.take(i as int)),
        decreases parts.len() - i,
    {
        let ghost next = all.take(i + 1);
        assert(next.drop_last() =~= all.take(i as int));
        assert(next.last() == parts@[i as int]@);
        if i > 0 {
            assert(next[next.len() - 2] == parts@[i - 1]@);
        }
        if i == 0 || !text::same(parts[i - 1].as_str(), parts[i].as_str()) {
            kept.push(parts[i].clone());
            assert(text::views(kept@) =~= deduped(all.take(i as int)).push(next.last()));
        }
        i = i + 1;
    }
    assert(all.take(i as int) =~= all);
    text::join(&kept, " | caused by: ")
}

/// Whether a failed poll is worth another: throttled, timed out, or the metadata store was slow.
pub open spec fn is_transient_spec(message: Seq<char>) -> bool {
    let m = text::lower_spec(message);
    ||| text::contains_spec(m, "throttling"@)
    ||| text::contains_spec(m, "throughput"@)
    ||| text::contains_spec(m, "requestlimit"@)
    ||| text::contains_spec(m, "request limit"@)
    ||| text::contains_spec(m, "timeout"@)
    ||| text::contains_spec(m, "temporar"@)
    ||| text::contains_spec(m, "failed to list elements"@)
    ||| text::contains_spec(m, "failed to mark element consumed"@)
}

pub fn is_transient_try_pop_error(message: &str) -> (r: bool)
    ensures
        r == is_transient_spec(message@),
{
    let m = text::lower(message);
    let m = m.as_str();
    text::contains(m, "throttling") || text::contains(m, "throughput") || text::contains(
        m,
        "requestlimit",
    ) || text::contains(m, "request limit") || text::contains(m, "timeout") || text::contains(
        m,
        "temporar",
    ) || text::contains(m, "failed to list elements") || text::contains(
        m,
        "failed to mark element consumed",
    )
}

// ---------------------------------------------------------------------------------------------
// Receiving
// ---------------------------------------------------------------------------------------------
pub open spec fn receive_problem(r: StartChannelReceiverRequest) -> Option<Seq<char>> {
    if !r.poll_target_ops_per_s.is_positive_spec() {
        Some("poll_target_ops_per_s must be a finite positive number"@)
    } else if r.materialize_concurrency == 0 {
        Some("materialize_concurrency must be greater than zero"@)
    } else if r.poll_concurrency == 0 {
        Some("poll_concurrency must be greater than zero"@)
    } else {
        None
    }
}

pub fn check_receive(request: &StartChannelReceiverRequest) -> (r: Result<(), String>)
    ensures
        match r {
            Ok(_) => receive_problem(*request) is None,
            Err(m) => receive_problem(*request) == Some(m@),
        },
{
    if !request.poll_target_ops_per_s.is_positive() {
        Err("poll_target_ops_per_s must be a finite positive number".to_owned())
    } else if request.materialize_concurrency == 0 {
        Err("materialize_concurrency must be greater than zero".to_owned())
    } else if request.poll_concurrency == 0 {
        Err("poll_concurrency must be greater than zero".to_owned())
    } else {
        Ok(())
    }
}

/// An output directory name made of letters, digits, `-` and `_`.
pub open spec fn receiver_part_spec(input: Seq<char>) -> Seq<char> {
    if input.len() == 0 {
        "receiver"@
    } else {
        text::clean_spec(input, CharClass::AlnumDashUnderscore, '-')
    }
}

pub fn sanitize_path_part(input: &str) -> (r: String)
    ensures
        r@ == receiver_part_spec(input@),
{
    let out = text::clean(input, CharClass::AlnumDashUnderscore, '-');
    let chars = text::chars_of(out.as_str());
    if chars.len() == 0 {
        "receiver".to_owned()
    } else {
        out
    }
}

/// The directory that a receiver writes to.
pub fn receive_dir(run_dir: &str, output_subdir: &str, nanos: u128) -> (r: String)
    ensures
        r@ == naming::path_join_spec(
            naming::path_join_spec(
                naming::path_join_spec(run_dir@, "channel-materialized"@),
                receiver_part_spec(output_subdir@),
            ),
            staging::batch_id_spec("recv"@, nanos as nat),
        ),
{
    let part = sanitize_path_part(output_subdir);
    let base = naming::path_join(run_dir, "channel-materialized");
    let dir = naming::path_join(base.as_str(), part.as_str());
    let id = staging::unique_batch_id("recv", nanos);
    naming::path_join(dir.as_str(), id.as_str())
}

/// A number with leading zeros up to a width that includes the sign.
pub open spec fn signed_padded_spec(n: int, width: nat) -> Seq<char> {
    if n < 0 {
        "-"@ + text::dec_padded((-n) as nat, (width - 1) as nat)
    } else {
        text::dec_padded(n as nat, width)
    }
}

/// The file that element `seq` is written to.
pub fn element_path(dir: &str, seq: i64) -> (r: String)
    ensures
        r@ == naming::path_join_spec(
            dir@,
            "materialized_"@ + signed_padded_spec(seq as int, 8) + ".bin"@,
        ),
{
    let number = if seq < 0 {
        let m: i128 = -(seq as i128);
        text::cat2("-", text::decimal_padded(m as u64, 7).as_str())
    } else {
        text::decimal_padded(seq as u64, 8)
    };
    let name = text::cat3("materialized_", number.as_str(), ".bin");
    naming::path_join(dir, name.as_str())
}

/// The pause between polls.
pub fn poll_period_ns(period_ns: u64) -> (r: u64)
    ensures
        r == text::min_int(period_ns as int, MAX_POLL_PERIOD_MS * 1_000_000),
{
    let most: u64 = MAX_POLL_PERIOD_MS * 1_000_000;
    if period_ns < most {
        period_ns
    } else {
        most
    }
}

/// How long an element was on its way.
pub fn delivery_ns(now_unix_ns: u64, send_unix_ns: u64) -> (r: u64)
    ensures
        r == if now_unix_ns <= send_unix_ns {
            0
        } else {
            text::min_int(now_unix_ns - send_unix_ns, u64::MAX as int / 2)
        },
{
    if now_unix_ns <= send_unix_ns {
        0
    } else {
        let d: u64 = now_unix_ns - send_unix_ns;
        if d < u64::MAX / 2 {
            d
        } else {
            u64::MAX / 2
        }
    }
}

/// What one poll found. An element is known by a number that its owner hands out.
#[derive(Debug)]
pub enum ReceiverPopTaskResult {
    Empty,
    TransientError(String),
    Eof { seq: i64, elapsed_ms: Real },
    Elem { seq: i64, element: u64 },
}

/// What one materialization came to.
#[derive(Debug)]
pub enum ReceiverMaterializeTaskResult {
    Delivered { bytes: u64, delivery_ms: Real, materialize_ms: Real },
    Failure(String),
}

/// Where a receiver stands between two actions.
#[derive(Clone, Copy, Debug, PartialEq, Eq, Structural)]
pub enum ReceiverStage {
    /// Before a round of polling.
    Head,
    /// The ready results are taken.
    Drained,
    /// Making room for another poll.
    Fill,
    /// The pause before the next poll is over.
    Rested,
    /// No more polls; what is under way is to be finished.
    Tail,
    /// The same, with the ready results taken.
    TailDrained,
    Closed,
}

/// What a receiver is to do next.
#[derive(Clone, Copy, Debug, PartialEq, Eq, Structural)]
pub enum ReceiverAction {
    /// Take the results that are ready, then start materializations while there is room.
    DrainReady,
    /// Wait for a poll, take the materializations that are ready, and start more.
    JoinPollAndRefill,
    JoinPoll,
    JoinMaterialization,
    RestUntilNextPoll,
    StartPoll,
    Close,
}

/// What a receiver learns from outside before it decides.
#[derive(Clone, Copy, Debug, PartialEq, Eq, Structural)]
pub struct ReceiverSignals {
    pub cancelled: bool,
    pub past_deadline: bool,
    pub eof: bool,
}

/// The state of a receiver as plain mathematical values.
#[verifier::ext_equal]
pub struct ReceiverModel {
    pub stage: ReceiverStage,
    pub poll_concurrency: usize,
    pub materialize_concurrency: usize,
    pub polling: usize,
    pub materializing: usize,
    pub pending: Seq<(i64, u64)>,
    pub delivered_bytes: u64,
    pub empty_polls: u64,
    pub transient_poll_errors: u64,
    pub timed_out: bool,
    pub cancelled: bool,
    pub eof: Option<(i64, Real)>,
    pub delivery_samples: Seq<Real>,
    pub materialize_samples: Seq<Real>,
    pub failures: Seq<Seq<char>>,
}

impl ReceiverModel {
    /// Never more polls or materializations than allowed, nor more failures than are kept, and the
    /// two kinds of samples go together.
    pub open spec fn wf(self) -> bool {
        &&& self.polling <= self.poll_concurrency
        &&& self.stage == ReceiverStage::Rested ==> self.polling < self.poll_concurrency
        &&& self.materializing <= self.materialize_concurrency
        &&& self.failures.len() <= MAX_RETAINED_FAILURES
        &&& self.delivery_samples.len() == self.materialize_samples.len()
    }

    /// Nothing is under way.
    pub open spec fn idle(self) -> bool {
        self.polling == 0 && self.pending.len() == 0 && self.materializing == 0
    }

    /// A receiver before its first poll.
    pub open spec fn start(poll_concurrency: usize, materialize_concurrency: usize) -> ReceiverModel {
        ReceiverModel {
            stage: ReceiverStage::Head,
            poll_concurrency,
            materialize_concurrency,
            polling: 0,
            materializing: 0,
            pending: Seq::empty(),
            delivered_bytes: 0,
            empty_polls: 0,
            transient_poll_errors: 0,
            timed_out: false,
            cancelled: false,
            eof: None,
            delivery_samples: Seq::empty(),
            materialize_samples: Seq::empty(),
            failures: Seq::empty(),
        }
    }

    pub open spec fn failing(self, message: Seq<char>) -> ReceiverModel {
        if self.failures.len() < MAX_RETAINED_FAILURES {
            ReceiverModel { failures: self.failures.push(message), ..self }
        } else {
            self
        }
    }

    pub open spec fn cancel(self) -> ReceiverModel {
        (ReceiverModel { cancelled: true, ..self }).failing("receiver cancelled before EOF"@)
    }

    pub open spec fn time_out(self) -> ReceiverModel {
        (ReceiverModel { timed_out: true, ..self }).failing("receiver timed out before EOF"@)
    }

    /// Finishing: close when nothing is under way, else take the ready results first.
    pub open spec fn finishing(self) -> (ReceiverModel, ReceiverAction) {
        if self.idle() {
            (ReceiverModel { stage: ReceiverStage::Closed, ..self }, ReceiverAction::Close)
        } else {
            (ReceiverModel { stage: ReceiverStage::TailDrained, ..self }, ReceiverAction::DrainReady)
        }
    }

    /// Polling: wait for a poll while none more may start, else rest until the next is due.
    pub open spec fn filling(self) -> (ReceiverModel, ReceiverAction) {
        if self.polling >= self.poll_concurrency {
            (
                ReceiverModel { stage: ReceiverStage::Fill, ..self },
                ReceiverAction::JoinPollAndRefill,
            )
        } else {
            (ReceiverModel { stage: ReceiverStage::Rested, ..self }, ReceiverAction::RestUntilNextPoll)
        }
    }

    /// What follows, and the state it leaves.
    pub open spec fn next(self, signals: ReceiverSignals) -> (ReceiverModel, ReceiverAction) {
        match self.stage {
            ReceiverStage::Head => if signals.eof {
                self.finishing()
            } else {
                (ReceiverModel { stage: ReceiverStage::Drained, ..self }, ReceiverAction::DrainReady)
            },
            ReceiverStage::Drained => if signals.cancelled {
                self.cancel().finishing()
            } else if signals.past_deadline {
                self.time_out().finishing()
            } else {
                self.filling()
            },
            ReceiverStage::Fill => self.filling(),
            ReceiverStage::Rested => if signals.cancelled {
                self.cancel().finishing()
            } else if signals.eof {
                self.finishing()
            } else {
                (
                    ReceiverModel {
                        stage: ReceiverStage::Head,
                        polling: (self.polling + 1) as usize,
                        ..self
                    },
                    ReceiverAction::StartPoll,
                )
            },
            ReceiverStage::Tail => self.finishing(),
            ReceiverStage::TailDrained => if self.polling > 0 {
                (ReceiverModel { stage: ReceiverStage::Tail, ..self }, ReceiverAction::JoinPoll)
            } else if self.materializing > 0 {
                (
                    ReceiverModel { stage: ReceiverStage::Tail, ..self },
                    ReceiverAction::JoinMaterialization,
                )
            } else {
                self.finishing()
            },
            ReceiverStage::Closed => (self, ReceiverAction::Close),
        }
    }

    /// The state after a poll that did not fail.
    pub open spec fn polled(self, result: ReceiverPopTaskResult) -> ReceiverModel {
        let s = ReceiverModel { polling: (self.polling - 1) as usize, ..self };
        match result {
            ReceiverPopTaskResult::Empty => ReceiverModel {
                empty_polls: (s.empty_polls + 1) as u64,
                ..s
            },
            ReceiverPopTaskResult::TransientError(_) => ReceiverModel {
                transient_poll_errors: (s.transient_poll_errors + 1) as u64,
                ..s
            },
            ReceiverPopTaskResult::Eof { seq, elapsed_ms } => ReceiverModel {
                eof: if s.eof is None {
                    Some((seq, elapsed_ms))
                } else {
                    s.eof
                },
                ..s
            },
            ReceiverPopTaskResult::Elem { seq, element } => ReceiverModel {
                pending: s.pending.push((seq, element)),
                ..s
            },
        }
    }

    /// There is an element to materialize, and room for it.
    pub open spec fn can_materialize(self) -> bool {
        self.materializing < self.materialize_concurrency && self.pending.len() > 0
    }

    /// The state after the start of a materialization.
    pub open spec fn materializing_next(self) -> ReceiverModel {
        ReceiverModel {
            pending: self.pending.skip(1),
            materializing: (self.materializing + 1) as usize,
            ..self
        }
    }

    /// The state after a materialization.
    pub open spec fn materialized(self, result: ReceiverMaterializeTaskResult) -> ReceiverModel {
        let s = ReceiverModel { materializing: (self.materializing - 1) as usize, ..self };
        match result {
            ReceiverMaterializeTaskResult::Delivered { bytes, delivery_ms, materialize_ms } =>
                ReceiverModel {
                delivered_bytes: text::min_int(
                    s.delivered_bytes + bytes,
                    u64::MAX as int,
                ) as u64,
                delivery_samples: s.delivery_samples.push(delivery_ms),
                materialize_samples: s.materialize_samples.push(materialize_ms),
                ..s
            },
            ReceiverMaterializeTaskResult::Failure(message) => s.failing(message@),
        }
    }
}

/// A receiver that polls its channel and materializes what it pops.
#[derive(Debug)]
pub struct ReceiverRun {
    pub stage: ReceiverStage,
    pub poll_concurrency: usize,
    pub materialize_concurrency: usize,
    pub polling: usize,
    pub materializing: usize,
    pub pending: VecDeque<(i64, u64)>,
    pub delivered_bytes: u64,
    pub empty_polls: u64,
    pub transient_poll_errors: u64,
    pub timed_out: bool,
    pub cancelled: bool,
    pub eof: Option<(i64, Real)>,
    pub delivery_samples: Vec<Real>,
    pub materialize_samples: Vec<Real>,
    pub failure_messages: Vec<String>,
}

impl ReceiverRun {
    pub open spec fn model(self) -> ReceiverModel {
        ReceiverModel {
            stage: self.stage,
            poll_concurrency: self.poll_concurrency,
            materialize_concurrency: self.materialize_concurrency,
            polling: self.polling,
            materializing: self.materializing,
            pending: self.pending@,
            delivered_bytes: self.delivered_bytes,
            empty_polls: self.empty_polls,
            transient_poll_errors: self.transient_poll_errors,
            timed_out: self.timed_out,
            cancelled: self.cancelled,
            eof: self.eof,
            delivery_samples: self.delivery_samples@,
            materialize_samples: self.materialize_samples@,
            failures: text::views(self.failure_messages@),
        }
    }

    /// A receiver before its first poll.
    pub fn new(poll_concurrency: usize, materialize_concurrency: usize) -> (r: ReceiverRun)
        ensures
            r.model().wf(),
            r.model().idle(),
            r.model() == ReceiverModel::start(poll_concurrency, materialize_concurrency),
    {
        let r = ReceiverRun {
            stage: ReceiverStage::Head,
            poll_concurrency,
            materialize_concurrency,
            polling: 0,
            materializing: 0,
            pending: VecDeque::new(),
            delivered_bytes: 0,
            empty_polls: 0,
            transient_poll_errors: 0,
            timed_out: false,
            cancelled: false,
            eof: None,
            delivery_samples: Vec::new(),
            materialize_samples: Vec::new(),
            failure_messages: Vec::new(),
        };
        assert(r.model().failures =~= Seq::empty());
        r
    }

    fn fail(&mut self, message: String)
        ensures
            final(self).model() == old(self).model().failing(message@),
    {
        if self.failure_messages.len() < MAX_RETAINED_FAILURES {
            self.failure_messages.push(message);
        }
        assert(self.model() =~= old(self).model().failing(message@));
    }

    fn finish_up(&mut self) -> (r: ReceiverAction)
        ensures
            (final(self).model(), r) == old(self).model().finishing(),
    {
        if self.polling == 0 && self.pending.len() == 0 && self.materializing == 0 {
            self.stage = ReceiverStage::Closed;
            ReceiverAction::Close
        } else {
            self.stage = ReceiverStage::TailDrained;
            ReceiverAction::DrainReady
        }
    }

    fn fill_up(&mut self) -> (r: ReceiverAction)
        ensures
            (final(self).model(), r) == old(self).model().filling(),
    {
        if self.polling >= self.poll_concurrency {
            self.stage = ReceiverStage::Fill;
            ReceiverAction::JoinPollAndRefill
        } else {
            self.stage = ReceiverStage::Rested;
            ReceiverAction::RestUntilNextPoll
        }
    }

    fn cancel(&mut self) -> (r: ReceiverAction)
        ensures
            (final(self).model(), r) == old(self).model().cancel().finishing(),
    {
        self.cancelled = true;
        self.fail("receiver cancelled before EOF".to_owned());
        self.finish_up()
    }

    /// Decides what follows the last action.
    pub fn next(&mut self, signals: ReceiverSignals) -> (r: ReceiverAction)
        requires
            old(self).model().wf(),
        ensures
            (final(self).model(), r) == old(self).model().next(signals),
            final(self).model().wf(),
    {
        match self.stage {
            ReceiverStage::Head => {
                if signals.eof {
                    self.finish_up()
                } else {
                    self.stage = ReceiverStage::Drained;
                    ReceiverAction::DrainReady
                }
            },
            ReceiverStage::Drained => {
                if signals.cancelled {
                    self.cancel()
                } else if signals.past_deadline {
                    self.timed_out = true;
                    self.fail("receiver timed out before EOF".to_owned());
                    self.finish_up()
                } else {
                    self.fill_up()
                }
            },
            ReceiverStage::Fill => self.fill_up(),
            ReceiverStage::Rested => {
                if signals.cancelled {
                    self.cancel()
                } else if signals.eof {
                    self.finish_up()
                } else {
                    self.stage = ReceiverStage::Head;
                    self.polling = self.polling + 1;
                    ReceiverAction::StartPoll
                }
            },
            ReceiverStage::Tail => self.finish_up(),
            ReceiverStage::TailDrained => {
                if self.polling > 0 {
                    self.stage = ReceiverStage::Tail;
                    ReceiverAction::JoinPoll
                } else if self.materializing > 0 {
                    self.stage = ReceiverStage::Tail;
                    ReceiverAction::JoinMaterialization
                } else {
                    self.finish_up()
                }
            },
            ReceiverStage::Closed => ReceiverAction::Close,
        }
    }

    /// Records a poll that ended. The outer error is that of the task, the inner that of the poll.
    pub fn on_polled(&mut self, result: Result<Result<ReceiverPopTaskResult, String>, String>) -> (r:
        Result<(), String>)
        requires
            old(self).model().wf(),
            old(self).polling > 0,
            old(self).empty_polls < u64::MAX,
            old(self).transient_poll_errors < u64::MAX,
        ensures
            final(self).model().wf(),
            match result {
                Ok(Ok(found)) => r is Ok && final(self).model() == old(self).model().polled(found),
                Ok(Err(e)) => {
                    &&& r matches Err(m)
                    &&& m@ == e@
                    &&& final(self).model() == (ReceiverModel {
                        polling: (old(self).polling - 1) as usize,
                        ..old(self).model()
                    })
                },
                Err(e) => {
                    &&& r matches Err(m)
                    &&& m@ == "receiver pop task join failed: "@ + e@
                    &&& final(self).model() == (ReceiverModel {
                        polling: (old(self).polling - 1) as usize,
                        ..old(self).model()
                    })
                },
            },
    {
        self.polling = self.polling - 1;
        match result {
            Err(e) => Err(text::cat2("receiver pop task join failed: ", e.as_str())),
            Ok(Err(e)) => Err(e),
            Ok(Ok(ReceiverPopTaskResult::Empty)) => {
                self.empty_polls = self.empty_polls + 1;
                Ok(())
            },
            Ok(Ok(ReceiverPopTaskResult::TransientError(_))) => {
                self.transient_poll_errors = self.transient_poll_errors + 1;
                Ok(())
            },
            Ok(Ok(ReceiverPopTaskResult::Eof { seq, elapsed_ms })) => {
                if self.eof.is_none() {
                    self.eof = Some((seq, elapsed_ms));
                }
                Ok(())
            },
            Ok(Ok(ReceiverPopTaskResult::Elem { seq, element })) => {
                self.pending.push_back((seq, element));
                Ok(())
            },
        }
    }

    /// The next element to materialize, in the order in which they were popped, while there is room.
    pub fn start_materialize(&mut self) -> (r: Option<(i64, u64)>)
        requires
            old(self).model().wf(),
        ensures
            final(self).model().wf(),
            if old(self).model().can_materialize() {
                &&& r == Some(old(self).pending@[0])
                &&& final(self).model() == old(self).model().materializing_next()
            } else {
                r is None && final(self).model() == old(self).model()
            },
    {
        if self.materializing < self.materialize_concurrency {
            match self.pending.pop_front() {
                Some(element) => {
                    self.materializing = self.materializing + 1;
                    assert(self.pending@ =~= old(self).pending@.skip(1));
                    Some(element)
                },
                None => None,
            }
        } else {
            None
        }
    }

    /// Records a materialization that ended. The outer error is that of the task.
    pub fn on_materialized(
        &mut self,
        result: Result<Result<ReceiverMaterializeTaskResult, String>, String>,
    ) -> (r: Result<(), String>)
        requires
            old(self).model().wf(),
            old(self).materializing > 0,
        ensures
            final(self).model().wf(),
            match result {
                Ok(Ok(done)) => r is Ok && final(self).model() == old(self).model().materialized(
                    done,
                ),
                Ok(Err(e)) => {
                    &&& r matches Err(m)
                    &&& m@ == e@
                    &&& final(self).model() == (ReceiverModel {
                        materializing: (old(self).materializing - 1) as usize,
                        ..old(self).model()
                    })
                },
                Err(e) => {
                    &&& r matches Err(m)
                    &&& m@ == "materialize task join failed: "@ + e@
                    &&& final(self).model() == (ReceiverModel {
                        materializing: (old(self).materializing - 1) as usize,
                        ..old(self).model()
                    })
                },
            },
    {
        self.materializing = self.materializing - 1;
        match result {
            Err(e) => Err(text::cat2("materialize task join failed: ", e.as_str())),
            Ok(Err(e)) => Err(e),
            Ok(
                Ok(
                    ReceiverMaterializeTaskResult::Delivered { bytes, delivery_ms, materialize_ms },
                ),
            ) => {
                self.delivered_bytes = self.delivered_bytes.saturating_add(bytes);
                self.delivery_samples.push(delivery_ms);
                self.materialize_samples.push(materialize_ms);
                Ok(())
            },
            Ok(Ok(ReceiverMaterializeTaskResult::Failure(message))) => {
                self.fail(message);
                Ok(())
            },
        }
    }
}

/// A receiver closes only when every poll has ended and every element popped has been materialized
/// or has failed.
pub proof fn lemma_close_leaves_nothing(s: ReceiverModel, signals: ReceiverSignals)
    requires
        s.stage != ReceiverStage::Closed,
        s.next(signals).1 == ReceiverAction::Close,
    ensures
        s.next(signals).0.idle(),
{
}

/// A receiver that was cancelled, timed out or saw the end of its channel starts no more polls.
pub proof fn lemma_no_polls_after_the_end(s: ReceiverModel, signals: ReceiverSignals)
    requires
        s.stage == ReceiverStage::Tail || s.stage == ReceiverStage::TailDrained || s.stage
            == ReceiverStage::Closed,
    ensures
        s.next(signals).1 != ReceiverAction::StartPoll,
        s.next(signals).0.stage == ReceiverStage::Tail || s.next(signals).0.stage
            == ReceiverStage::TailDrained || s.next(signals).0.stage == ReceiverStage::Closed,
{
}

/// Of several ends of a channel the first is kept.
pub proof fn lemma_first_end_is_kept(s: ReceiverModel, result: ReceiverPopTaskResult)
    requires
        s.eof is Some,
    ensures
        s.polled(result).eof == s.eof,
{
}

// ---------------------------------------------------------------------------------------------
// How a receiver ends
// ---------------------------------------------------------------------------------------------
/// What can happen to a receiver.
pub enum ReceiverEvent {
    /// It decides what follows.
    Decided(ReceiverSignals),
    /// A poll under way meets the end of the channel. It raises the signal before it ends.
    MetEnd,
    /// A poll ends.
    Polled(ReceiverPopTaskResult),
    /// A materialization starts.
    StartedMaterializing,
    /// A materialization ends.
    Materialized(ReceiverMaterializeTaskResult),
}

/// A receiver, and how many of its polls under way have met the end of the channel.
pub struct ReceiverProgress {
    pub model: ReceiverModel,
    pub at_end: nat,
}

impl ReceiverProgress {
    pub open spec fn start(poll_concurrency: usize, materialize_concurrency: usize) -> ReceiverProgress {
        ReceiverProgress {
            model: ReceiverModel::start(poll_concurrency, materialize_concurrency),
            at_end: 0,
        }
    }

    /// `event` can happen now. The signal of the end is there only where a poll has met the end,
    /// and a poll that has met it reports it.
    pub open spec fn can(self, event: ReceiverEvent) -> bool {
        match event {
            ReceiverEvent::Decided(signals) => signals.eof ==> self.model.eof is Some || self.at_end
                > 0,
            ReceiverEvent::MetEnd => self.at_end < self.model.polling,
            ReceiverEvent::Polled(result) => {
                &&& self.model.polling > 0
                &&& if result is Eof {
                    self.at_end > 0
                } else {
                    self.at_end < self.model.polling
                }
            },
            ReceiverEvent::StartedMaterializing => self.model.can_materialize(),
            ReceiverEvent::Materialized(_) => self.model.materializing > 0,
        }
    }

    pub open spec fn after(self, event: ReceiverEvent) -> ReceiverProgress {
        match event {
            ReceiverEvent::Decided(signals) => ReceiverProgress {
                model: self.model.next(signals).0,
                ..self
            },
            ReceiverEvent::MetEnd => ReceiverProgress { at_end: self.at_end + 1, ..self },
            ReceiverEvent::Polled(result) => ReceiverProgress {
                model: self.model.polled(result),
                at_end: if result is Eof {
                    (self.at_end - 1) as nat
                } else {
                    self.at_end
                },
            },
            ReceiverEvent::StartedMaterializing => ReceiverProgress {
                model: self.model.materializing_next(),
                ..self
            },
            ReceiverEvent::Materialized(result) => ReceiverProgress {
                model: self.model.materialized(result),
                ..self
            },
        }
    }

    /// Where `events`, each of which could happen when it did, take the receiver.
    pub open spec fn reach(self, events: Seq<ReceiverEvent>) -> Option<ReceiverProgress>
        decreases events.len(),
    {
        if events.len() == 0 {
            Some(self)
        } else {
            match self.reach(events.drop_last()) {
                Some(p) => if p.can(events.last()) {
                    Some(p.after(events.last()))
                } else {
                    None
                },
                None => None,
            }
        }
    }

    /// The receiver starts no more polls.
    spec fn ending(self) -> bool {
        self.model.stage == ReceiverStage::Tail || self.model.stage == ReceiverStage::TailDrained
            || self.model.stage == ReceiverStage::Closed
    }

    spec fn accounted(self) -> bool {
        &&& self.model.wf()
        &&& self.at_end <= self.model.polling
        &&& !(self.model.timed_out && self.model.cancelled)
        &&& self.model.timed_out || self.model.cancelled ==> self.ending()
        &&& self.ending() ==> self.model.timed_out || self.model.cancelled || self.model.eof is Some
            || self.at_end > 0
        &&& self.model.stage == ReceiverStage::Closed ==> self.model.idle()
    }
}

proof fn lemma_step_is_accounted(p: ReceiverProgress, event: ReceiverEvent)
    requires
        p.accounted(),
        p.can(event),
    ensures
        p.after(event).accounted(),
{
}

proof fn lemma_reached_is_accounted(start: ReceiverProgress, events: Seq<ReceiverEvent>)
    requires
        start.accounted(),
        start.reach(events) is Some,
    ensures
        start.reach(events)->0.accounted(),
    decreases events.len(),
{
    if events.len() > 0 {
        lemma_reached_is_accounted(start, events.drop_last());
        lemma_step_is_accounted(start.reach(events.drop_last())->0, events.last());
    }
}

/// Whatever happens to a receiver, it never counts as both timed out and cancelled. Once it is
/// closed nothing is under way, and it was cancelled, or timed out, or has the end of its channel.
pub proof fn lemma_receiver_ends_one_way(
    poll_concurrency: usize,
    materialize_concurrency: usize,
    events: Seq<ReceiverEvent>,
)
    requires
        ReceiverProgress::start(poll_concurrency, materialize_concurrency).reach(events) is Some,
    ensures
        ({
            let p = ReceiverProgress::start(poll_concurrency, materialize_concurrency).reach(
                events,
            )->0;
            &&& p.model.wf()
            &&& !(p.model.timed_out && p.model.cancelled)
            &&& p.model.stage == ReceiverStage::Closed ==> {
                &&& p.model.idle()
                &&& p.model.timed_out || p.model.cancelled || p.model.eof is Some
            }
        }),
{
    lemma_reached_is_accounted(
        ReceiverProgress::start(poll_concurrency, materialize_concurrency),
        events,
    );
}

/// What a poll came to, as its task reports it. No poll is made once the receiver is at its end.
pub open spec fn poll_failure_spec(message: Seq<char>) -> (bool, Seq<char>) {
    if is_transient_spec(message) {
        (true, "transient receiver try_pop failed: "@ + message)
    } else {
        (false, "receiver try_pop failed: "@ + message)
    }
}

pub fn poll_failure(message: &str) -> (r: Result<ReceiverPopTaskResult, String>)
    ensures
        match r {
            Ok(ReceiverPopTaskResult::TransientError(m)) => (true, m@) == poll_failure_spec(
                message@,
            ),
            Ok(_) => false,
            Err(m) => (false, m@) == poll_failure_spec(message@),
        },
{
    if is_transient_try_pop_error(message) {
        Ok(
            ReceiverPopTaskResult::TransientError(
                text::cat2("transient receiver try_pop failed: ", message),
            ),
        )
    } else {
        Err(text::cat2("receiver try_pop failed: ", message))
    }
}

/// The times and the place of a receiver run.
#[derive(Debug)]
pub struct ReceiverTimes {
    pub elapsed_ms: Real,
    pub started_unix_ns: u64,
    pub finished_unix_ns: u64,
    pub materialized_dir: String,
    pub delivery_mean_ms: Real,
    pub materialize_mean_ms: Real,
}

impl ReceiverRun {
    /// What a receiver that has closed reports.
    pub fn into_result(self, request: &StartChannelReceiverRequest, times: ReceiverTimes) -> (r:
        ChannelReceiverResult)
        requires
            self.model().wf(),
        ensures
            r.delivered_count == self.delivery_samples@.len(),
            r.delivered_bytes == self.delivered_bytes,
            r.empty_polls == self.empty_polls,
            r.transient_poll_errors == self.transient_poll_errors,
            r.timed_out == self.timed_out,
            r.cancelled == self.cancelled,
            match self.eof {
                Some((seq, elapsed_ms)) => r.eof_seq == Some(seq) && r.eof_elapsed_ms == Some(
                    elapsed_ms,
                ),
                None => r.eof_seq is None && r.eof_elapsed_ms is None,
            },
            r.elapsed_ms == times.elapsed_ms,
            r.started_unix_ns == times.started_unix_ns,
            r.finished_unix_ns == times.finished_unix_ns,
            r.materialized_dir == times.materialized_dir,
            r.poll_target_ops_per_s == request.poll_target_ops_per_s,
            r.poll_concurrency == request.poll_concurrency,
            r.materialize_concurrency == request.materialize_concurrency,
            r.delivery_latency == LatencySummary::of(
                self.delivery_samples@,
                times.delivery_mean_ms,
            ),
            r.materialize_latency == LatencySummary::of(
                self.materialize_samples@,
                times.materialize_mean_ms,
            ),
            r.delivery_latency_samples_ms == self.delivery_samples,
            r.materialize_latency_samples_ms == self.materialize_samples,
            r.failure_messages == self.failure_messages,
    {
        let delivery_latency = LatencySummary::from_samples(
            &self.delivery_samples,
            times.delivery_mean_ms,
        );
        let materialize_latency = LatencySummary::from_samples(
            &self.materialize_samples,
            times.materialize_mean_ms,
        );
        let mut eof_seq: Option<i64> = None;
        let mut eof_elapsed_ms: Option<Real> = None;
        if let Some((seq, elapsed_ms)) = self.eof {
            eof_seq = Some(seq);
            eof_elapsed_ms = Some(elapsed_ms);
        }
        ChannelReceiverResult {
            delivered_count: self.delivery_samples.len(),
            delivered_bytes: self.delivered_bytes,
            empty_polls: self.empty_polls,
            transient_poll_errors: self.transient_poll_errors,
            timed_out: self.timed_out,
            cancelled: self.cancelled,
            eof_seq,
            eof_elapsed_ms,
            elapsed_ms: times.elapsed_ms,
            started_unix_ns: times.started_unix_ns,
            finished_unix_ns: times.finished_unix_ns,
            materialized_dir: times.materialized_dir,
            poll_target_ops_per_s: request.poll_target_ops_per_s,
            poll_concurrency: request.poll_concurrency,
            materialize_concurrency: request.materialize_concurrency,
            delivery_latency,
            materialize_latency,
            delivery_latency_samples_ms: self.delivery_samples,
            materialize_latency_samples_ms: self.materialize_samples,
            failure_messages: self.failure_messages,
        }
    }
}

// ---------------------------------------------------------------------------------------------
// What a receiver has to show for what happened to it
// ---------------------------------------------------------------------------------------------
/// One delivered element: its bytes, how long it was on its way, and how long it took to write.
pub struct Delivery {
    pub bytes: u64,
    pub delivery_ms: Real,
    pub materialize_ms: Real,
}

/// The elements that were delivered, in order.
pub open spec fn deliveries(events: Seq<ReceiverEvent>) -> Seq<Delivery>
    decreases events.len(),
{
    if events.len() == 0 {
        Seq::empty()
    } else {
        let so_far = deliveries(events.drop_last());
        match events.last() {
            ReceiverEvent::Materialized(
                ReceiverMaterializeTaskResult::Delivered { bytes, delivery_ms, materialize_ms },
            ) => so_far.push(Delivery { bytes, delivery_ms, materialize_ms }),
            _ => so_far,
        }
    }
}

/// The bytes of several deliveries together.
pub open spec fn bytes_together(s: Seq<Delivery>) -> nat
    decreases s.len(),
{
    if s.len() == 0 {
        0
    } else {
        bytes_together(s.drop_last()) + s.last().bytes as nat
    }
}

/// Why materializations failed, in order.
pub open spec fn failed_materializations(events: Seq<ReceiverEvent>) -> Seq<Seq<char>>
    decreases events.len(),
{
    if events.len() == 0 {
        Seq::empty()
    } else {
        let so_far = failed_materializations(events.drop_last());
        match events.last() {
            ReceiverEvent::Materialized(ReceiverMaterializeTaskResult::Failure(m)) => so_far.push(m@),
            _ => so_far,
        }
    }
}

/// The elements that polls found, in order.
pub open spec fn popped(events: Seq<ReceiverEvent>) -> Seq<(i64, u64)>
    decreases events.len(),
{
    if events.len() == 0 {
        Seq::empty()
    } else {
        let so_far = popped(events.drop_last());
        match events.last() {
            ReceiverEvent::Polled(ReceiverPopTaskResult::Elem { seq, element }) => so_far.push(
                (seq, element),
            ),
            _ => so_far,
        }
    }
}

/// The ends of the channel that polls reported, in order.
pub open spec fn reported_ends(events: Seq<ReceiverEvent>) -> Seq<(i64, Real)>
    decreases events.len(),
{
    if events.len() == 0 {
        Seq::empty()
    } else {
        let so_far = reported_ends(events.drop_last());
        match events.last() {
            ReceiverEvent::Polled(ReceiverPopTaskResult::Eof { seq, elapsed_ms }) => so_far.push(
                (seq, elapsed_ms),
            ),
            _ => so_far,
        }
    }
}

/// How many events are of a kind.
pub open spec fn count_events(
    events: Seq<ReceiverEvent>,
    kind: spec_fn(ReceiverEvent) -> bool,
) -> nat
    decreases events.len(),
{
    if events.len() == 0 {
        0
    } else {
        count_events(events.drop_last(), kind) + if kind(events.last()) {
            1nat
        } else {
            0nat
        }
    }
}

pub open spec fn found_nothing() -> spec_fn(ReceiverEvent) -> bool {
    |e: ReceiverEvent| e matches ReceiverEvent::Polled(r) && r is Empty
}

pub open spec fn failed_for_now() -> spec_fn(ReceiverEvent) -> bool {
    |e: ReceiverEvent| e matches ReceiverEvent::Polled(r) && r is TransientError
}

pub open spec fn started_materializing() -> spec_fn(ReceiverEvent) -> bool {
    |e: ReceiverEvent| e is StartedMaterializing
}

pub open spec fn ended_materializing() -> spec_fn(ReceiverEvent) -> bool {
    |e: ReceiverEvent| e is Materialized
}

/// How many failures a receiver has met: those of its materializations, and its own end where it was
/// cancelled or ran out of time.
pub open spec fn failures_met(events: Seq<ReceiverEvent>, m: ReceiverModel) -> nat {
    failed_materializations(events).len() + (if m.timed_out {
        1nat
    } else {
        0nat
    }) + (if m.cancelled {
        1nat
    } else {
        0nat
    })
}

/// What the state of a receiver says of the events that led to it.
pub open spec fn tells_of(m: ReceiverModel, events: Seq<ReceiverEvent>) -> bool {
    let d = deliveries(events);
    &&& m.delivered_bytes == (if bytes_together(d) <= u64::MAX {
        bytes_together(d) as int
    } else {
        u64::MAX as int
    })
    &&& m.delivery_samples.len() == d.len()
    &&& m.materialize_samples.len() == d.len()
    &&& forall|i: int| 0 <= i < d.len() ==> #[trigger] m.delivery_samples[i] == d[i].delivery_ms
    &&& forall|i: int|
        0 <= i < d.len() ==> #[trigger] m.materialize_samples[i] == d[i].materialize_ms
    &&& m.empty_polls == count_events(events, found_nothing())
    &&& m.transient_poll_errors == count_events(events, failed_for_now())
    &&& m.eof == (if reported_ends(events).len() > 0 {
        Some(reported_ends(events)[0])
    } else {
        None
    })
    &&& count_events(events, started_materializing()) <= popped(events).len()
    &&& m.pending == popped(events).skip(count_events(events, started_materializing()) as int)
    &&& m.materializing == count_events(events, started_materializing()) - count_events(
        events,
        ended_materializing(),
    )
    &&& m.failures.len() == (if failures_met(events, m) <= MAX_RETAINED_FAILURES {
        failures_met(events, m) as int
    } else {
        MAX_RETAINED_FAILURES as int
    })
    &&& failures_met(events, m) <= MAX_RETAINED_FAILURES ==> {
        &&& forall|i: int|
            0 <= i < failed_materializations(events).len() ==> m.failures.contains(
                #[trigger] failed_materializations(events)[i],
            )
        &&& m.cancelled ==> m.failures.contains("receiver cancelled before EOF"@)
        &&& m.timed_out ==> m.failures.contains("receiver timed out before EOF"@)
    }
}

proof fn lemma_failures_grow(before: ReceiverModel, message: Seq<char>)
    ensures
        forall|x: Seq<char>| #[trigger]
            before.failures.contains(x) ==> before.failing(message).failures.contains(x),
        before.failures.len() < MAX_RETAINED_FAILURES ==> before.failing(
            message,
        ).failures.contains(message),
{
    let after = before.failing(message).failures;
    if before.failures.len() < MAX_RETAINED_FAILURES {
        assert(after[before.failures.len() as int] == message);
        assert forall|x: Seq<char>| #[trigger] before.failures.contains(x) implies after.contains(
            x,
        ) by {
            let i = choose|i: int| 0 <= i < before.failures.len() && before.failures[i] == x;
            assert(after[i] == x);
        }
    }
}

proof fn lemma_counts_are_bounded(
    events: Seq<ReceiverEvent>,
    kind: spec_fn(ReceiverEvent) -> bool,
)
    ensures
        count_events(events, kind) <= events.len(),
    decreases events.len(),
{
    if events.len() > 0 {
        lemma_counts_are_bounded(events.drop_last(), kind);
    }
}

proof fn lemma_decision_tells(p: ReceiverProgress, events: Seq<ReceiverEvent>)
    requires
        events.len() > 0,
        events.last() is Decided,
        p.accounted(),
        p.can(events.last()),
        tells_of(p.model, events.drop_last()),
    ensures
        tells_of(p.after(events.last()).model, events),
{
    let before = events.drop_last();
    let signals = events.last()->Decided_0;
    let after = p.model.next(signals).0;
    assert(deliveries(events) == deliveries(before));
    assert(failed_materializations(events) == failed_materializations(before));
    assert(popped(events) == popped(before));
    assert(reported_ends(events) == reported_ends(before));
    assert(count_events(events, found_nothing()) == count_events(before, found_nothing()));
    assert(count_events(events, failed_for_now()) == count_events(before, failed_for_now()));
    assert(count_events(events, started_materializing()) == count_events(
        before,
        started_materializing(),
    ));
    assert(count_events(events, ended_materializing()) == count_events(
        before,
        ended_materializing(),
    ));
    let stopped = ReceiverModel { cancelled: true, ..p.model };
    let late = ReceiverModel { timed_out: true, ..p.model };
    lemma_failures_grow(stopped, "receiver cancelled before EOF"@);
    lemma_failures_grow(late, "receiver timed out before EOF"@);
}

proof fn lemma_materialized_tells(p: ReceiverProgress, events: Seq<ReceiverEvent>)
    requires
        events.len() > 0,
        events.last() is Materialized,
        p.accounted(),
        p.can(events.last()),
        tells_of(p.model, events.drop_last()),
    ensures
        tells_of(p.after(events.last()).model, events),
{
    let before = events.drop_last();
    let result = events.last()->Materialized_0;
    let after = p.model.materialized(result);
    assert(popped(events) == popped(before));
    assert(reported_ends(events) == reported_ends(before));
    assert(count_events(events, found_nothing()) == count_events(before, found_nothing()));
    assert(count_events(events, failed_for_now()) == count_events(before, failed_for_now()));
    assert(count_events(events, started_materializing()) == count_events(
        before,
        started_materializing(),
    ));
    assert(count_events(events, ended_materializing()) == count_events(
        before,
        ended_materializing(),
    ) + 1);
    match result {
        ReceiverMaterializeTaskResult::Delivered { bytes, delivery_ms, materialize_ms } => {
            assert(failed_materializations(events) == failed_materializations(before));
            let d = deliveries(events);
            assert(d.drop_last() =~= deliveries(before));
            assert(bytes_together(d) == bytes_together(deliveries(before)) + bytes);
        },
        ReceiverMaterializeTaskResult::Failure(message) => {
            assert(deliveries(events) == deliveries(before));
            let s = ReceiverModel {
                materializing: (p.model.materializing - 1) as usize,
                ..p.model
            };
            lemma_failures_grow(s, message@);
            let all = failed_materializations(events);
            assert(all == failed_materializations(before).push(message@));
            if failures_met(events, after) <= MAX_RETAINED_FAILURES {
                assert forall|i: int| 0 <= i < all.len() implies after.failures.contains(
                    #[trigger] all[i],
                ) by {
                    if i < all.len() - 1 {
                        assert(all[i] == failed_materializations(before)[i]);
                        assert(s.failures.contains(all[i]));
                    }
                }
            }
        },
    }
}

proof fn lemma_polled_tells(p: ReceiverProgress, events: Seq<ReceiverEvent>)
    requires
        0 < events.len() <= u64::MAX,
        events.last() is Polled,
        p.accounted(),
        p.can(events.last()),
        tells_of(p.model, events.drop_last()),
    ensures
        tells_of(p.after(events.last()).model, events),
{
    let before = events.drop_last();
    let result = events.last()->Polled_0;
    let after = p.model.polled(result);
    lemma_counts_are_bounded(before, found_nothing());
    lemma_counts_are_bounded(before, failed_for_now());
    assert(deliveries(events) == deliveries(before));
    assert(failed_materializations(events) == failed_materializations(before));
    assert(count_events(events, started_materializing()) == count_events(
        before,
        started_materializing(),
    ));
    assert(count_events(events, ended_materializing()) == count_events(
        before,
        ended_materializing(),
    ));
    let n = count_events(before, started_materializing()) as int;
    if result is Elem {
        assert(after.pending =~= popped(events).skip(n));
    }
}

proof fn lemma_start_tells(p: ReceiverProgress, events: Seq<ReceiverEvent>)
    requires
        events.len() > 0,
        events.last() is StartedMaterializing || events.last() is MetEnd,
        p.accounted(),
        p.can(events.last()),
        tells_of(p.model, events.drop_last()),
    ensures
        tells_of(p.after(events.last()).model, events),
{
    let before = events.drop_last();
    assert(deliveries(events) == deliveries(before));
    assert(failed_materializations(events) == failed_materializations(before));
    assert(popped(events) == popped(before));
    assert(reported_ends(events) == reported_ends(before));
    let n = count_events(before, started_materializing()) as int;
    if events.last() is StartedMaterializing {
        assert(popped(events).skip(n).skip(1) =~= popped(events).skip(n + 1));
    }
}

proof fn lemma_reached_tells(start: ReceiverProgress, events: Seq<ReceiverEvent>)
    requires
        start.accounted(),
        tells_of(start.model, Seq::empty()),
        events.len() <= u64::MAX,
        start.reach(events) is Some,
    ensures
        tells_of(start.reach(events)->0.model, events),
    decreases events.len(),
{
    if events.len() == 0 {
        assert(events =~= Seq::<ReceiverEvent>::empty());
    } else {
        let before = events.drop_last();
        lemma_reached_tells(start, before);
        lemma_reached_is_accounted(start, before);
        let p = start.reach(before)->0;
        match events.last() {
            ReceiverEvent::Decided(_) => lemma_decision_tells(p, events),
            ReceiverEvent::Polled(_) => lemma_polled_tells(p, events),
            ReceiverEvent::Materialized(_) => lemma_materialized_tells(p, events),
            _ => lemma_start_tells(p, events),
        }
    }
}

/// Whatever happens to a receiver, its figures account for it. The bytes are those of all elements
/// delivered, and each delivery has its two times, in order. Empty and failed polls are counted, the
/// first end of the channel is kept, and what is pending are the elements found and not yet started,
/// in the order in which they were found. Every failure is kept while there is room.
pub proof fn lemma_receiver_accounts_for_everything(
    poll_concurrency: usize,
    materialize_concurrency: usize,
    events: Seq<ReceiverEvent>,
)
    requires
        events.len() <= u64::MAX,
        ReceiverProgress::start(poll_concurrency, materialize_concurrency).reach(events) is Some,
    ensures
        tells_of(
            ReceiverProgress::start(poll_concurrency, materialize_concurrency).reach(
                events,
            )->0.model,
            events,
        ),
{
    let start = ReceiverProgress::start(poll_concurrency, materialize_concurrency);
    assert(popped(Seq::empty()).skip(0) =~= start.model.pending);
    lemma_reached_tells(start, events);
}

/// What a receiver decides. It starts a poll exactly where it has rested and neither the end nor a
/// cancellation has come, and then one more poll is under way. It is cancelled where it is told so
/// between its polls, and out of time where the deadline has passed and it was not told so. Nothing
/// else that it decides changes how much is under way.
pub proof fn lemma_receiver_decisions(s: ReceiverModel, signals: ReceiverSignals)
    requires
        s.wf(),
        !s.cancelled,
        !s.timed_out,
    ensures
        ({
            let (t, action) = s.next(signals);
            &&& action == ReceiverAction::StartPoll <==> s.stage == ReceiverStage::Rested
                && !signals.cancelled && !signals.eof
            &&& t.polling == s.polling + (if action == ReceiverAction::StartPoll {
                1int
            } else {
                0int
            })
            &&& t.polling <= s.poll_concurrency
            &&& t.pending == s.pending
            &&& t.materializing == s.materializing
            &&& t.cancelled <==> signals.cancelled && (s.stage == ReceiverStage::Drained || s.stage
                == ReceiverStage::Rested)
            &&& t.timed_out <==> s.stage == ReceiverStage::Drained && signals.past_deadline
                && !signals.cancelled
            &&& action == ReceiverAction::JoinPollAndRefill ==> s.polling == s.poll_concurrency
            &&& action == ReceiverAction::JoinPoll ==> s.polling > 0
            &&& action == ReceiverAction::JoinMaterialization ==> s.polling == 0 && s.materializing
                > 0
            &&& action == ReceiverAction::Close <==> t.stage == ReceiverStage::Closed
            &&& t.stage == ReceiverStage::Closed && s.stage != ReceiverStage::Closed ==> t.idle()
            &&& s.stage == ReceiverStage::Head && signals.eof ==> t.stage
                == ReceiverStage::TailDrained || t.stage == ReceiverStage::Closed
        }),
{
}

// ---------------------------------------------------------------------------------------------
// What is sent, and what is refused
// ---------------------------------------------------------------------------------------------
/// The layout of a header, byte by byte: the four letters, the sequence number, the time of sending,
/// the size, and the marker of the run.
pub proof fn lemma_header_layout(
    seq: i64,
    send_unix_ns: u64,
    object_size_bytes: u64,
    run_hash: u32,
)
    ensures
        ({
            let h = header_spec(seq, send_unix_ns, object_size_bytes, run_hash);
            &&& h.len() == 32
            &&& h[0] == 0x4c && h[1] == 0x43 && h[2] == 0x43 && h[3] == 0x48
            &&& spec_u64_from_le_bytes(h.subrange(4, 12)) == seq as u64
            &&& spec_u64_from_le_bytes(h.subrange(12, 20)) == send_unix_ns
            &&& spec_u64_from_le_bytes(h.subrange(20, 28)) == object_size_bytes
            &&& spec_u32_from_le_bytes(h.subrange(28, 32)) == 0xC0DECAFEu32 ^ run_hash
        }),
{
    lemma_auto_spec_u64_to_from_le_bytes();
    lemma_auto_spec_u32_to_from_le_bytes();
    let h = header_spec(seq, send_unix_ns, object_size_bytes, run_hash);
    assert(h.subrange(4, 12) =~= spec_u64_to_le_bytes(seq as u64));
    assert(h.subrange(12, 20) =~= spec_u64_to_le_bytes(send_unix_ns));
    assert(h.subrange(20, 28) =~= spec_u64_to_le_bytes(object_size_bytes));
    assert(h.subrange(28, 32) =~= spec_u32_to_le_bytes(HEADER_MARKER ^ run_hash));
}

/// A payload is refused exactly where it does not start with the four letters.
pub proof fn lemma_other_payloads_are_refused(bytes: Seq<u8>)
    requires
        bytes.len() == 32,
    ensures
        decode_spec(bytes) is None <==> !(bytes[0] == 0x4c && bytes[1] == 0x43 && bytes[2] == 0x43
            && bytes[3] == 0x48),
{
    let head = bytes.take(4);
    assert(head[0] == bytes[0] && head[1] == bytes[1] && head[2] == bytes[2] && head[3]
        == bytes[3]);
    if bytes[0] == 0x4c && bytes[1] == 0x43 && bytes[2] == 0x43 && bytes[3] == 0x48 {
        assert(head =~= magic());
    } else if head == magic() {
        assert(magic()[0] == 0x4c && magic()[1] == 0x43 && magic()[2] == 0x43 && magic()[3]
            == 0x48);
    }
}

/// What completed without failing was sent.
pub proof fn lemma_sent_and_failed_are_all(paced: PacedTaskRunReport)
    ensures
        paced.failed_tasks <= paced.completed_tasks ==> sent_count_spec(paced)
            + paced.failed_tasks == paced.completed_tasks,
        paced.failed_tasks >= paced.completed_tasks ==> sent_count_spec(paced) == 0,
{
}

/// A send tells of its first 64 failures in order, and of a failed closing where a line is left for
/// it.
pub proof fn lemma_send_failures_are_told(
    failures: Seq<PacedTaskFailure>,
    close_error: Option<Seq<char>>,
)
    ensures
        ({
            let lines = send_failures_spec(failures, close_error);
            &&& lines.len() <= 64
            &&& forall|i: int|
                0 <= i < failures.len() && i < 64 ==> #[trigger] lines[i] == "index="@ + text::dec(
                    failures[i].index as nat,
                ) + ": "@ + failures[i].message@
            &&& failures.len() >= 64 ==> lines.len() == 64
            &&& failures.len() < 64 && close_error is None ==> lines.len() == failures.len()
            &&& failures.len() < 64 && close_error is Some ==> lines.len() == failures.len() + 1
                && lines.last() == "close failed: "@ + close_error->0
        }),
{
}

/// A send is taken exactly where there is something to send, room for the header in it, a rate and
/// a place.
pub proof fn lemma_sends_that_are_taken(r: StartPacedChannelSendRequest)
    ensures
        send_problem(r) is None <==> r.count > 0 && r.object_size_bytes >= 32
            && r.target_ops_per_s.is_positive_spec() && r.max_in_flight > 0,
{
}

/// A receiver is taken exactly where it has a rate and may do both of its works.
pub proof fn lemma_receivers_that_are_taken(r: StartChannelReceiverRequest)
    ensures
        receive_problem(r) is None <==> r.poll_target_ops_per_s.is_positive_spec()
            && r.materialize_concurrency > 0 && r.poll_concurrency > 0,
{
}

/// In an error with its causes no text stands twice in a row, the first is kept, and every text of
/// the chain is there.
pub proof fn lemma_deduped(parts: Seq<Seq<char>>)
    ensures
        deduped(parts).len() <= parts.len(),
        parts.len() > 0 ==> deduped(parts).len() > 0 && deduped(parts)[0] == parts[0] && deduped(
            parts,
        ).last() == parts.last(),
        forall|i: int, j: int|
            0 <= i && j == i + 1 && j < deduped(parts).len() ==> #[trigger] deduped(parts)[i]
                != #[trigger] deduped(parts)[j],
        forall|i: int| 0 <= i < parts.len() ==> deduped(parts).contains(#[trigger] parts[i]),
        forall|i: int| 0 <= i < deduped(parts).len() ==> parts.contains(#[trigger] deduped(parts)[i]),
    decreases parts.len(),
{
    if parts.len() > 0 {
        let init = parts.drop_last();
        let short = deduped(init);
        let out = deduped(parts);
        lemma_deduped(init);
        if init.len() > 0 {
            assert(init.last() == parts[parts.len() - 2]);
            assert(init[0] == parts[0]);
        }
        assert forall|i: int| 0 <= i < parts.len() implies out.contains(#[trigger] parts[i]) by {
            if i < init.len() {
                assert(short.contains(init[i]));
                let k = choose|k: int| 0 <= k < short.len() && short[k] == init[i];
                assert(out[k] == parts[i]);
            } else {
                assert(out[out.len() - 1] == parts[i]);
            }
        }
        assert forall|i: int| 0 <= i < out.len() implies parts.contains(#[trigger] out[i]) by {
            if i < short.len() {
                assert(init.contains(short[i]));
                let k = choose|k: int| 0 <= k < init.len() && init[k] == short[i];
                assert(parts[k] == out[i]);
            } else {
                assert(parts[parts.len() - 1] == out[i]);
            }
        }
        assert forall|i: int, j: int|
            0 <= i && j == i + 1 && j < out.len() implies #[trigger] out[i] != #[trigger] out[j] by {
            if j < short.len() {
                assert(short[i] != short[j]);
            } else if i < short.len() {
                assert(short[i] == short.last());
            }
        }
    }
}

/// Whether a failed poll is worth another does not hang on letter case, nor on what stands around
/// the word that tells it.
pub proof fn lemma_transient_polls(message: Seq<char>, word: Seq<char>)
    requires
        text::contains_spec(text::lower_spec(message), word),
        word == "throttling"@ || word == "throughput"@ || word == "requestlimit"@ || word
            == "request limit"@ || word == "timeout"@ || word == "temporar"@ || word
            == "failed to list elements"@ || word == "failed to mark element consumed"@,
    ensures
        is_transient_spec(message),
{
}

/// An element's file name is in the range of what a file may be called.
pub proof fn lemma_receiver_part(input: Seq<char>)
    ensures
        receiver_part_spec(input).len() > 0,
        forall|i: int|
            0 <= i < receiver_part_spec(input).len() ==> text::is_alnum_spec(
                #[trigger] receiver_part_spec(input)[i],
            ) || receiver_part_spec(input)[i] == '-' || receiver_part_spec(input)[i] == '_',
        input.len() > 0 ==> receiver_part_spec(input).len() == input.len(),
        forall|i: int|
            0 <= i < input.len() && (text::is_alnum_spec(#[trigger] input[i]) || input[i] == '-'
                || input[i] == '_') ==> receiver_part_spec(input)[i] == input[i],
{
    reveal_strlit("receiver");
}

/// Where just one thing is wrong with a send, it is told.
pub proof fn lemma_send_problems(r: StartPacedChannelSendRequest)
    ensures
        ({
            let a = r.count == 0;
            let b = r.object_size_bytes < 32;
            let c = !r.target_ops_per_s.is_positive_spec();
            let d = r.max_in_flight == 0;
            &&& a && !b && !c && !d ==> send_problem(r) == Some("channel send count must be greater than zero"@)
            &&& b && !a && !c && !d ==> send_problem(r) == Some("channel payload object_size_bytes must be at least 32"@)
            &&& c && !a && !b && !d ==> send_problem(r) == Some("target_ops_per_s must be a finite positive number"@)
            &&& d && !a && !b && !c ==> send_problem(r) == Some("max_in_flight must be greater than zero"@)
        }),
{
}

/// Where just one thing is wrong with a receiver, it is told.
pub proof fn lemma_receive_problems(r: StartChannelReceiverRequest)
    ensures
        ({
            let a = !r.poll_target_ops_per_s.is_positive_spec();
            let b = r.materialize_concurrency == 0;
            let c = r.poll_concurrency == 0;
            &&& a && !b && !c ==> receive_problem(r) == Some("poll_target_ops_per_s must be a finite positive number"@)
            &&& b && !a && !c ==> receive_problem(r) == Some("materialize_concurrency must be greater than zero"@)
            &&& c && !a && !b ==> receive_problem(r) == Some("poll_concurrency must be greater than zero"@)
        }),
{
}

/// A receiver that is cancelled, or that runs out of time, says so among its failures while there is
/// room for one more of them, and 64 are kept.
pub proof fn lemma_ends_before_the_end_are_told(s: ReceiverModel, message: Seq<char>)
    ensures
        s.cancel().cancelled && s.cancel().timed_out == s.timed_out,
        s.time_out().timed_out && s.time_out().cancelled == s.cancelled,
        s.failures.len() < 64 ==> {
            &&& s.cancel().failures == s.failures.push("receiver cancelled before EOF"@)
            &&& s.time_out().failures == s.failures.push("receiver timed out before EOF"@)
            &&& s.failing(message) == (ReceiverModel { failures: s.failures.push(message), ..s })
        },
        s.failures.len() >= 64 ==> {
            &&& s.cancel().failures == s.failures
            &&& s.time_out().failures == s.failures
            &&& s.failing(message) == s
        },
        s.cancel() == (ReceiverModel { cancelled: true, failures: s.cancel().failures, ..s }),
        s.time_out() == (ReceiverModel { timed_out: true, failures: s.time_out().failures, ..s }),
{
}

/// A poll that fails is told with its message, and as one that may pass by just where its message says
/// so.
pub proof fn lemma_failed_polls_are_told(message: Seq<char>)
    ensures
        poll_failure_spec(message).0 <==> is_transient_spec(message),
        is_transient_spec(message) ==> poll_failure_spec(message).1
            == "transient receiver try_pop failed: "@ + message,
        !is_transient_spec(message) ==> poll_failure_spec(message).1 == "receiver try_pop failed: "@
            + message,
{
}

/// A poll that ends gives its place back. What it found is kept: an element behind those that wait, the
/// first end that is seen, and a count of the rest.
pub proof fn lemma_polls_are_taken_in(s: ReceiverModel, result: ReceiverPopTaskResult)
    requires
        s.polling > 0,
        s.empty_polls < u64::MAX,
        s.transient_poll_errors < u64::MAX,
    ensures
        ({
            let t = s.polled(result);
            &&& t.polling == s.polling - 1
            &&& t.materializing == s.materializing && t.failures == s.failures
            &&& t.delivered_bytes == s.delivered_bytes
            &&& t.delivery_samples == s.delivery_samples
            &&& t.empty_polls == s.empty_polls + (if result is Empty {
                1int
            } else {
                0int
            })
            &&& t.transient_poll_errors == s.transient_poll_errors + (if result is TransientError {
                1int
            } else {
                0int
            })
            &&& result is Eof && s.eof is None ==> t.eof == Some(
                (result->Eof_seq, result->elapsed_ms),
            )
            &&& !(result is Eof) || s.eof is Some ==> t.eof == s.eof
            &&& result is Elem ==> t.pending == s.pending.push((result->Elem_seq, result->element))
            &&& !(result is Elem) ==> t.pending == s.pending
        }),
        s.can_materialize() <==> s.materializing < s.materialize_concurrency && s.pending.len() > 0,
        s.materializing < usize::MAX ==> s.materializing_next() == (ReceiverModel {
            pending: s.pending.skip(1),
            materializing: (s.materializing + 1) as usize,
            ..s
        }),
{
}

/// What `ReceiverRun::into_result` returns of a receiver, over all that happened to it from its start:
/// the bytes of all deliveries together, up to what 64 bits hold, as many deliveries as there were with
/// their latencies, and the polls that found nothing or failed for a while.
pub proof fn lemma_into_result_returns(
    run: ReceiverRun,
    request: &StartChannelReceiverRequest,
    times: ReceiverTimes,
    r: ChannelReceiverResult,
    poll_concurrency: usize,
    materialize_concurrency: usize,
    events: Seq<ReceiverEvent>,
)
    requires
        call_ensures(ReceiverRun::into_result, (run, request, times), r),
        events.len() <= u64::MAX,
        ReceiverProgress::start(poll_concurrency, materialize_concurrency).reach(events) is Some,
        ReceiverProgress::start(poll_concurrency, materialize_concurrency).reach(events)->0.model
            == run.model(),
    ensures
        bytes_together(deliveries(events)) <= u64::MAX ==> r.delivered_bytes == bytes_together(
            deliveries(events),
        ),
        bytes_together(deliveries(events)) > u64::MAX ==> r.delivered_bytes == u64::MAX,
        r.delivered_count == deliveries(events).len(),
        forall|i: int|
            0 <= i < deliveries(events).len() ==> #[trigger] r.delivery_latency_samples_ms@[i]
                == deliveries(events)[i].delivery_ms,
        forall|i: int|
            0 <= i < deliveries(events).len() ==> #[trigger] r.materialize_latency_samples_ms@[i]
                == deliveries(events)[i].materialize_ms,
        r.empty_polls == count_events(events, found_nothing()),
        r.transient_poll_errors == count_events(events, failed_for_now()),
        r.timed_out == run.timed_out && r.cancelled == run.cancelled,
        reported_ends(events).len() > 0 ==> r.eof_seq == Some(reported_ends(events)[0].0)
            && r.eof_elapsed_ms == Some(reported_ends(events)[0].1),
        reported_ends(events).len() == 0 ==> r.eof_seq is None && r.eof_elapsed_ms is None,
{
    lemma_receiver_accounts_for_everything(poll_concurrency, materialize_concurrency, events);
    assert(run.model().delivery_samples == run.delivery_samples@);
    assert(run.model().materialize_samples == run.materialize_samples@);
}

/// The header of a payload is 32 bytes long and begins with a mark; a receiver polls at least every
/// half second and keeps 64 failures.
pub proof fn lemma_figures_of_channels()
    ensures
        HEADER_LEN == 32,
        HEADER_MARKER == 0xC0DE_CAFE,
        MAX_POLL_PERIOD_MS == 500,
        MAX_RETAINED_FAILURES == 64,
{
}

} // verus!
