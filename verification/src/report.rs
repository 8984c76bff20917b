//! The stand-alone workloads and their report.
use crate::binary64::Real;
use crate::cli::{BenchCommand, BenchConfig};
use crate::text;
use vstd::prelude::*;
use vstd::string::*;

verus! {

/// A workload of the blob group, with the experiment that runs it.
#[derive(Clone, Debug)]
pub struct BlobScenario {
    pub name: &'static str,
    pub config_path: &'static str,
    pub purpose: &'static str,
}

/// What a stand-alone workload did.
#[derive(Clone, Debug)]
pub struct WorkloadRun {
    pub command: &'static str,
    pub status: &'static str,
    pub note: String,
    pub lambda_channel_utc_now: String,
}

pub open spec fn scenario_line(s: (Seq<char>, Seq<char>, Seq<char>)) -> Seq<char> {
    s.0 + " ["@ + s.1 + "]: "@ + s.2
}

/// The scenarios of the blob group: name, experiment and purpose.
pub open spec fn scenario_table() -> Seq<(Seq<char>, Seq<char>, Seq<char>)> {
    seq![
        ("blob.put.local_file"@, "config/experiments/blob/put.toml"@, "Measure local-file blob-store put throughput and latency."@),
        ("blob.put.s3"@, "config/experiments/blob/put-s3.toml"@, "Measure S3 blob-store put throughput and latency."@),
        ("blob.put.p2p"@, "config/experiments/blob/put-p2p.toml"@, "Measure P2P blob-store put throughput and latency."@),
        ("blob.get_materialize"@, "config/experiments/blob/get-materialize.toml"@, "Measure materialization from existing blob refs."@),
        ("blob.p2p_local_hit"@, "config/experiments/blob/p2p-local-hit.toml"@, "Measure P2P materialization when chunks are already local."@),
        ("blob.p2p_peer_fetch"@, "config/experiments/blob/p2p-peer-fetch.toml"@, "Measure receiver fetch from a remote P2P holder."@),
        ("blob.persist_upload"@, "config/experiments/blob/persist-upload.toml"@, "Measure durable persist upload from local chunks."@),
        ("blob.fallback_fetch"@, "config/experiments/blob/fallback-fetch.toml"@, "Measure fetch from persist store when peer holders are absent."@),
    ]
}

fn scenario(name: &'static str, config_path: &'static str, purpose: &'static str) -> (r:
    BlobScenario)
    ensures
        (r.name@, r.config_path@, r.purpose@) == (name@, config_path@, purpose@),
{
    BlobScenario { name, config_path, purpose }
}

pub open spec fn scenario_views(s: Seq<BlobScenario>) -> Seq<(Seq<char>, Seq<char>, Seq<char>)> {
    s.map_values(|x: BlobScenario| (x.name@, x.config_path@, x.purpose@))
}

pub fn scenarios() -> (r: Vec<BlobScenario>)
    ensures
        scenario_views(r@) == scenario_table(),
{
    let mut out: Vec<BlobScenario> = Vec::new();
    out.push(
        scenario(
            "blob.put.local_file",
            "config/experiments/blob/put.toml",
            "Measure local-file blob-store put throughput and latency.",
        ),
    );
    out.push(
        scenario(
            "blob.put.s3",
            "config/experiments/blob/put-s3.toml",
            "Measure S3 blob-store put throughput and latency.",
        ),
    );
    out.push(
        scenario(
            "blob.put.p2p",
            "config/experiments/blob/put-p2p.toml",
            "Measure P2P blob-store put throughput and latency.",
        ),
    );
    out.push(
        scenario(
            "blob.get_materialize",
            "config/experiments/blob/get-materialize.toml",
            "Measure materialization from existing blob refs.",
        ),
    );
    out.push(
        scenario(
            "blob.p2p_local_hit",
            "config/experiments/blob/p2p-local-hit.toml",
            "Measure P2P materialization when chunks are already local.",
        ),
    );
    out.push(
        scenario(
            "blob.p2p_peer_fetch",
            "config/experiments/blob/p2p-peer-fetch.toml",
            "Measure receiver fetch from a remote P2P holder.",
        ),
    );
    out.push(
        scenario(
            "blob.persist_upload",
            "config/experiments/blob/persist-upload.toml",
            "Measure durable persist upload from local chunks.",
        ),
    );
    out.push(
        scenario(
            "blob.fallback_fetch",
            "config/experiments/blob/fallback-fetch.toml",
            "Measure fetch from persist store when peer holders are absent.",
        ),
    );
    assert(scenario_views(out@) =~= scenario_table());
    out
}

fn stub_run(command: &'static str, note: String, utc_now: String) -> (r: WorkloadRun)
    ensures
        r.command@ == command@,
        r.status@ == "stub"@,
        r.note == note,
        r.lambda_channel_utc_now == utc_now,
{
    WorkloadRun { command, status: "stub", note, lambda_channel_utc_now: utc_now }
}

pub open spec fn command_name(command: BenchCommand) -> Seq<char> {
    match command {
        BenchCommand::Metadata => "metadata"@,
        BenchCommand::Blob => "blob"@,
        BenchCommand::Sender => "sender"@,
        BenchCommand::Receiver => "receiver"@,
    }
}

/// What is noted of a workload.
pub open spec fn note_of(command: BenchCommand) -> Seq<char> {
    match command {
        BenchCommand::Blob => "blob workload group is registered; scenarios: "@ + text::join_spec(
            scenario_table().map_values(|s: (Seq<char>, Seq<char>, Seq<char>)| scenario_line(s)),
            "; "@,
        ),
        _ => command_name(command)
            + " microbenchmark harness is initialized; workload implementation is next"@,
    }
}

fn blob_note() -> (r: String)
    ensures
        r@ == note_of(BenchCommand::Blob),
{
    let all = scenarios();
    let mut lines: Vec<String> = Vec::new();
    let ghost table = scenario_table();
    let mut i: usize = 0;
    while i < all.len()
        invariant
            i <= all@.len(),
            table == scenario_table(),
            scenario_views(all@) == table,
            lines@.len() == i,
            forall|j: int| 0 <= j < i ==> (#[trigger] lines@[j])@ == scenario_line(table[j]),
        decreases all.len() - i,
    {
        assert(scenario_views(all@)[i as int] == table[i as int]);
        let line = text::cat5(all[i].name, " [", all[i].config_path, "]: ", all[i].purpose);
        lines.push(line);
        i = i + 1;
    }
    assert(text::views(lines@) =~= table.map_values(
        |s: (Seq<char>, Seq<char>, Seq<char>)| scenario_line(s),
    ));
    text::cat2(
        "blob workload group is registered; scenarios: ",
        text::join(&lines, "; ").as_str(),
    )
}

/// Runs a stand-alone workload at the moment `utc_now`.
pub fn run(command: BenchCommand, _config: &BenchConfig, utc_now: String) -> (r: WorkloadRun)
    ensures
        r.command@ == command_name(command),
        r.status@ == "stub"@,
        r.note@ == note_of(command),
        r.lambda_channel_utc_now == utc_now,
{
    let tail = " microbenchmark harness is initialized; workload implementation is next";
    match command {
        BenchCommand::Metadata => stub_run("metadata", text::cat2("metadata", tail), utc_now),
        BenchCommand::Blob => stub_run("blob", blob_note(), utc_now),
        BenchCommand::Sender => stub_run("sender", text::cat2("sender", tail), utc_now),
        BenchCommand::Receiver => stub_run("receiver", text::cat2("receiver", tail), utc_now),
    }
}

// ---------------------------------------------------------------------------------------------
// The report
// ---------------------------------------------------------------------------------------------
/// The letters that stand for a character inside a JSON string.
pub open spec fn escape_char(c: char) -> Seq<char> {
    if c == '"' {
        seq!['\\', '"']
    } else if c == '\\' {
        seq!['\\', '\\']
    } else if c == '\n' {
        seq!['\\', 'n']
    } else if c == '\r' {
        seq!['\\', 'r']
    } else if c == '\t' {
        seq!['\\', 't']
    } else if text::is_control_spec(c) {
        seq!['\\', 'u'] + text::zeros(4 - text::hex(c as nat).len()) + text::hex(c as nat)
    } else {
        seq![c]
    }
}

pub open spec fn json_escape_spec(s: Seq<char>) -> Seq<char>
    decreases s.len(),
{
    if s.len() == 0 {
        s
    } else {
        json_escape_spec(s.drop_last()) + escape_char(s.last())
    }
}

fn push_escaped(out: &mut String, c: char)
    ensures
        final(out)@ == old(out)@ + escape_char(c),
{
    if c == '"' {
        out.push('\\');
        out.push('"');
    } else if c == '\\' {
        out.push('\\');
        out.push('\\');
    } else if c == '\n' {
        out.push('\\');
        out.push('n');
    } else if c == '\r' {
        out.push('\\');
        out.push('r');
    } else if c == '\t' {
        out.push('\\');
        out.push('t');
    } else if text::is_control(c) {
        let digits = text::hexadecimal(c as u128);
        let mut n: usize = text::chars_of(digits.as_str()).len();
        out.push('\\');
        out.push('u');
        let ghost start = out@;
        let ghost len = n as int;
        assert(out@ =~= start + text::zeros(0));
        while n < 4
            invariant
                len <= n,
                n <= 4 || n == len,
                out@ == start + text::zeros(n - len),
            decreases 4 - n,
        {
            out.push('0');
            assert(text::zeros(n + 1 - len) =~= text::zeros(n - len).push('0'));
            assert(out@ =~= start + text::zeros(n + 1 - len));
            n = n + 1;
        }
        assert(text::zeros(n - len) =~= text::zeros(4 - len));
        out.append(digits.as_str());
    } else {
        out.push(c);
    }
    assert(out@ =~= old(out)@ + escape_char(c));
}

/// A text as it stands inside a JSON string.
pub fn json_escape(input: &str) -> (r: String)
    ensures
        r@ == json_escape_spec(input@),
{
    let chars = text::chars_of(input);
    let mut out = String::new();
    let mut i: usize = 0;
    assert(chars@.take(0) =~= Seq::<char>::empty());
    assert(out@ =~= Seq::<char>::empty());
    while i < chars.len()
        invariant
            i <= chars@.len(),
            out@ == json_escape_spec(chars@.take(i as int)),
        decreases chars.len() - i,
    {
        assert(chars@.take(i + 1).drop_last() =~= chars@.take(i as int));
        push_escaped(&mut out, chars[i]);
        i = i + 1;
    }
    assert(chars@.take(i as int) =~= chars@);
    out
}

/// The report of a stand-alone workload.
pub struct BenchmarkReport {
    pub run: WorkloadRun,
    pub backend: String,
    pub operations: u64,
    pub concurrency: usize,
    pub object_size_bytes: u64,
    pub warmup_operations: u64,
    pub offered_rate_per_s: Option<Real>,
    pub seed: u64,
}


impl BenchmarkReport {
    pub fn from_run(run: WorkloadRun, config: &BenchConfig) -> (r: BenchmarkReport)
        ensures
            r == (BenchmarkReport {
                run,
                backend: config.backend,
                operations: config.operations,
                concurrency: config.concurrency,
                object_size_bytes: config.object_size_bytes,
                warmup_operations: config.warmup_operations,
                offered_rate_per_s: config.offered_rate_per_s,
                seed: config.seed,
            }),
    {
        BenchmarkReport {
            run,
            backend: config.backend.clone(),
            operations: config.operations,
            concurrency: config.concurrency,
            object_size_bytes: config.object_size_bytes,
            warmup_operations: config.warmup_operations,
            offered_rate_per_s: config.offered_rate_per_s,
            seed: config.seed,
        }
    }

    /// The rate of the report: as it is shown, or `null`.
    pub open spec fn rate_text(self, shown_rate: Seq<char>) -> Seq<char> {
        if self.offered_rate_per_s is Some {
            shown_rate
        } else {
            "null"@
        }
    }

    /// The report as a JSON object.
    pub open spec fn json_spec(self, shown_rate: Seq<char>) -> Seq<char> {
        "{\n  \"schema\": \"lambda-channel-benchmark/v0\",\n  \"command\": \""@ + json_escape_spec(
            self.run.command@,
        ) + "\",\n  \"backend\": \""@ + json_escape_spec(self.backend@)
            + "\",\n  \"status\": \""@ + json_escape_spec(self.run.status@)
            + "\",\n  \"note\": \""@ + json_escape_spec(self.run.note@)
            + "\",\n  \"config\": {\n    \"operations\": "@ + text::dec(self.operations as nat)
            + ",\n    \"concurrency\": "@ + text::dec(self.concurrency as nat)
            + ",\n    \"object_size_bytes\": "@ + text::dec(self.object_size_bytes as nat)
            + ",\n    \"warmup_operations\": "@ + text::dec(self.warmup_operations as nat)
            + ",\n    \"offered_rate_per_s\": "@ + self.rate_text(shown_rate)
            + ",\n    \"seed\": "@ + text::dec(self.seed as nat)
            + "\n  },\n  \"lambda_channel_utc_now\": \""@ + json_escape_spec(
            self.run.lambda_channel_utc_now@,
        ) + "\"\n}"@
    }

    /// Writes the report, with its rate as it is shown.
    pub fn to_json_pretty(&self, shown_rate: &str) -> (r: String)
        ensures
            r@ == self.json_spec(shown_rate@),
    {
        let rate = match self.offered_rate_per_s {
            Some(_) => shown_rate.to_owned(),
            None => "null".to_owned(),
        };
        let texts = text::cat7(
            "{\n  \"schema\": \"lambda-channel-benchmark/v0\",\n  \"command\": \"",
            json_escape(self.run.command).as_str(),
            "\",\n  \"backend\": \"",
            json_escape(self.backend.as_str()).as_str(),
            "\",\n  \"status\": \"",
            json_escape(self.run.status).as_str(),
            "\",\n  \"note\": \"",
        );
        let numbers = text::cat7(
            texts.as_str(),
            json_escape(self.run.note.as_str()).as_str(),
            "\",\n  \"config\": {\n    \"operations\": ",
            text::decimal(self.operations).as_str(),
            ",\n    \"concurrency\": ",
            text::decimal(self.concurrency as u64).as_str(),
            ",\n    \"object_size_bytes\": ",
        );
        let more = text::cat7(
            numbers.as_str(),
            text::decimal(self.object_size_bytes).as_str(),
            ",\n    \"warmup_operations\": ",
            text::decimal(self.warmup_operations).as_str(),
            ",\n    \"offered_rate_per_s\": ",
            rate.as_str(),
            ",\n    \"seed\": ",
        );
        text::cat5(
            more.as_str(),
            text::decimal(self.seed).as_str(),
            "\n  },\n  \"lambda_channel_utc_now\": \"",
            json_escape(self.run.lambda_channel_utc_now.as_str()).as_str(),
            "\"\n}",
        )
    }
}

// ---------------------------------------------------------------------------------------------
// What escaping keeps out
// ---------------------------------------------------------------------------------------------
proof fn lemma_hex_digits(n: nat)
    ensures
        text::hex(n).len() > 0,
        forall|i: int|
            0 <= i < text::hex(n).len() ==> {
                let c = #[trigger] text::hex(n)[i];
                ('0' <= c <= '9') || ('a' <= c <= 'f')
            },
    decreases n,
{
    if n >= 16 {
        lemma_hex_digits(n / 16);
    }
}

/// An escaped text holds no control character, whatever the text.
pub proof fn lemma_escaped_is_clean(s: Seq<char>)
    ensures
        forall|i: int|
            0 <= i < json_escape_spec(s).len() ==> !text::is_control_spec(
                #[trigger] json_escape_spec(s)[i],
            ),
    decreases s.len(),
{
    if s.len() > 0 {
        lemma_escaped_is_clean(s.drop_last());
        let c = s.last();
        let e = escape_char(c);
        lemma_hex_digits(c as nat);
        assert forall|i: int| 0 <= i < e.len() implies !text::is_control_spec(#[trigger] e[i]) by {
            let z = text::zeros(4 - text::hex(c as nat).len());
            if text::is_control_spec(c) && c != '\n' && c != '\r' && c != '\t' {
                if i >= 2 && i < 2 + z.len() {
                    assert(e[i] == z[i - 2]);
                } else if i >= 2 + z.len() {
                    assert(e[i] == text::hex(c as nat)[i - 2 - z.len()]);
                }
            }
        }
        let t = json_escape_spec(s);
        let init = json_escape_spec(s.drop_last());
        assert forall|i: int| 0 <= i < t.len() implies !text::is_control_spec(#[trigger] t[i]) by {
            if i < init.len() {
                assert(t[i] == init[i]);
            } else {
                assert(t[i] == e[i - init.len()]);
            }
        }
    }
}

// ---------------------------------------------------------------------------------------------
// Reading a JSON string back
// ---------------------------------------------------------------------------------------------
/// The value of a hexadecimal digit.
pub open spec fn hex_value(c: char) -> Option<nat> {
    if '0' <= c <= '9' {
        Some((c as u32 - 0x30) as nat)
    } else if 'a' <= c <= 'f' {
        Some((c as u32 - 0x57) as nat)
    } else if 'A' <= c <= 'F' {
        Some((c as u32 - 0x37) as nat)
    } else {
        None
    }
}

/// The character that `s`, which starts with a backslash, has there, and how many letters it takes.
/// The two halves of a surrogate pair stand for no character by themselves and are not read.
pub open spec fn escaped_at_start(s: Seq<char>) -> Option<(char, int)> {
    if s.len() < 2 {
        None
    } else if s[1] == '"' || s[1] == '\\' || s[1] == '/' {
        Some((s[1], 2))
    } else if s[1] == 'b' {
        Some(('\u{8}', 2))
    } else if s[1] == 'f' {
        Some(('\u{c}', 2))
    } else if s[1] == 'n' {
        Some(('\n', 2))
    } else if s[1] == 'r' {
        Some(('\r', 2))
    } else if s[1] == 't' {
        Some(('\t', 2))
    } else if s[1] == 'u' && s.len() >= 6 {
        match (hex_value(s[2]), hex_value(s[3]), hex_value(s[4]), hex_value(s[5])) {
            (Some(a), Some(b), Some(c), Some(d)) => {
                let n = 4096 * a + 256 * b + 16 * c + d;
                if 0xd800 <= n <= 0xdfff {
                    None
                } else {
                    Some((n as char, 6))
                }
            },
            _ => None,
        }
    } else {
        None
    }
}

/// The text that the inside of a JSON string stands for. `None` where it cannot stand between the
/// quotes: it holds a bare quote, a bare control character below the space, or an escape that is
/// not one.
pub open spec fn json_inside(s: Seq<char>) -> Option<Seq<char>>
    decreases s.len(),
{
    if s.len() == 0 {
        Some(Seq::empty())
    } else if s[0] == '"' || (s[0] as u32) < 0x20 {
        None
    } else if s[0] == '\\' {
        match escaped_at_start(s) {
            Some((c, n)) => if 0 < n <= s.len() {
                match json_inside(s.skip(n)) {
                    Some(rest) => Some(seq![c] + rest),
                    None => None,
                }
            } else {
                None
            },
            None => None,
        }
    } else {
        match json_inside(s.skip(1)) {
            Some(rest) => Some(seq![s[0]] + rest),
            None => None,
        }
    }
}

/// The text that a JSON string, quotes and all, stands for.
pub open spec fn json_string_value(s: Seq<char>) -> Option<Seq<char>> {
    if s.len() >= 2 && s[0] == '"' && s.last() == '"' {
        json_inside(s.subrange(1, s.len() - 1))
    } else {
        None
    }
}

proof fn lemma_hex_digit_value(n: nat)
    requires
        n < 16,
    ensures
        hex_value(text::hex_digit_spec(n)) == Some(n),
{
}

proof fn lemma_escape_control(c: char)
    requires
        text::is_control_spec(c),
        c != '\n',
        c != '\r',
        c != '\t',
    ensures
        escape_char(c) == seq![
            '\\',
            'u',
            '0',
            '0',
            text::hex_digit_spec(c as nat / 16),
            text::hex_digit_spec(c as nat % 16),
        ],
{
    reveal_with_fuel(text::hex, 3);
    let n = c as nat;
    if n < 16 {
        assert(text::hex(n) =~= seq![text::hex_digit_spec(n)]);
        assert(text::hex_digit_spec(0) == '0');
        assert(text::zeros(3) =~= seq!['0', '0', '0']);
    } else {
        assert(n / 16 < 16);
        assert(text::hex(n) =~= seq![text::hex_digit_spec(n / 16), text::hex_digit_spec(n % 16)]);
        assert(text::zeros(2) =~= seq!['0', '0']);
    }
}

proof fn lemma_read_escaped_char(c: char, rest: Seq<char>)
    requires
        json_inside(rest) is Some,
    ensures
        json_inside(escape_char(c) + rest) == Some(seq![c] + json_inside(rest)->0),
{
    let e = escape_char(c);
    let s = e + rest;
    assert(s.skip(e.len() as int) =~= rest);
    if text::is_control_spec(c) && c != '\n' && c != '\r' && c != '\t' {
        lemma_escape_control(c);
        let n = c as nat;
        assert(n / 16 < 16);
        lemma_hex_digit_value(n / 16);
        lemma_hex_digit_value(n % 16);
        lemma_hex_digit_value(0);
        assert(16 * (n / 16) + n % 16 == n);
        assert(s[2] == '0' && s[3] == '0');
        assert(s[4] == text::hex_digit_spec(n / 16));
        assert(s[5] == text::hex_digit_spec(n % 16));
        assert(escaped_at_start(s) == Some((c, 6int)));
    }
}

proof fn lemma_escape_from_front(s: Seq<char>)
    requires
        s.len() > 0,
    ensures
        json_escape_spec(s) == escape_char(s[0]) + json_escape_spec(s.skip(1)),
    decreases s.len(),
{
    if s.len() == 1 {
        assert(s.drop_last() =~= Seq::<char>::empty());
        assert(s.skip(1) =~= Seq::<char>::empty());
        assert(json_escape_spec(s) =~= escape_char(s[0]) + json_escape_spec(s.skip(1)));
    } else {
        lemma_escape_from_front(s.drop_last());
        assert(s.drop_last().skip(1) =~= s.skip(1).drop_last());
        assert(json_escape_spec(s) =~= escape_char(s[0]) + json_escape_spec(s.skip(1)));
    }
}

proof fn lemma_inside_reads_back(s: Seq<char>)
    ensures
        json_inside(json_escape_spec(s)) == Some(s),
    decreases s.len(),
{
    if s.len() == 0 {
        assert(s =~= Seq::<char>::empty());
    } else {
        lemma_escape_from_front(s);
        lemma_inside_reads_back(s.skip(1));
        lemma_read_escaped_char(s[0], json_escape_spec(s.skip(1)));
        assert(seq![s[0]] + s.skip(1) =~= s);
    }
}

/// An escaped text between quotes is a JSON string, and it stands for the text. So the escaped text
/// holds no bare quote.
pub proof fn lemma_escaped_reads_back(s: Seq<char>)
    ensures
        json_string_value(seq!['"'] + json_escape_spec(s) + seq!['"']) == Some(s),
{
    let t = seq!['"'] + json_escape_spec(s) + seq!['"'];
    lemma_inside_reads_back(s);
    assert(t.subrange(1, t.len() - 1) =~= json_escape_spec(s));
}

/// Different texts are escaped differently.
pub proof fn lemma_escape_injective(s: Seq<char>, t: Seq<char>)
    requires
        json_escape_spec(s) == json_escape_spec(t),
    ensures
        s == t,
{
    lemma_inside_reads_back(s);
    lemma_inside_reads_back(t);
}

/// A text without quotes, backslashes and control characters stays as it is.
pub proof fn lemma_escape_keeps_plain(s: Seq<char>)
    requires
        forall|i: int|
            0 <= i < s.len() ==> #[trigger] s[i] != '"' && s[i] != '\\' && !text::is_control_spec(
                s[i],
            ),
    ensures
        json_escape_spec(s) == s,
    decreases s.len(),
{
    if s.len() > 0 {
        let init = s.drop_last();
        assert forall|i: int| 0 <= i < init.len() implies #[trigger] init[i] != '"' && init[i]
            != '\\' && !text::is_control_spec(init[i]) by {
            assert(init[i] == s[i]);
        }
        lemma_escape_keeps_plain(init);
        let c = s[s.len() - 1];
        assert(escape_char(c) =~= seq![c]);
        assert(json_escape_spec(s) =~= s);
    }
}

// ---------------------------------------------------------------------------------------------
// What a report says
// ---------------------------------------------------------------------------------------------
proof fn lemma_constant_line(l: Seq<Seq<char>>, cur: Seq<char>, stop: Seq<char>, line: Seq<char>)
    requires
        l.len() > 0,
        text::join_spec(l, "\n"@) == cur + stop,
    ensures
        text::join_spec(l.push(line), "\n"@) == cur + (stop + "\n"@ + line),
        l.push(line).len() > 0,
{
    assert(l.push(line).drop_last() =~= l);
    assert(cur + stop + "\n"@ + line =~= cur + (stop + "\n"@ + line));
}

proof fn lemma_line_with_value(
    l: Seq<Seq<char>>,
    cur: Seq<char>,
    stop: Seq<char>,
    head: Seq<char>,
    value: Seq<char>,
    next_stop: Seq<char>,
)
    requires
        l.len() > 0,
        text::join_spec(l, "\n"@) == cur + stop,
    ensures
        text::join_spec(l.push(head + value + next_stop), "\n"@) == (cur + (stop + "\n"@ + head)
            + value) + next_stop,
        l.push(head + value + next_stop).len() > 0,
{
    let line = head + value + next_stop;
    assert(l.push(line).drop_last() =~= l);
    assert(cur + stop + "\n"@ + line =~= (cur + (stop + "\n"@ + head) + value) + next_stop);
}

impl BenchmarkReport {
    /// The lines of a report: each figure under its own name, and every text escaped.
    pub open spec fn report_lines(self, shown_rate: Seq<char>) -> Seq<Seq<char>> {
        seq![
            "{"@,
            "  \"schema\": \"lambda-channel-benchmark/v0\","@,
            "  \"command\": \""@ + json_escape_spec(self.run.command@) + "\","@,
            "  \"backend\": \""@ + json_escape_spec(self.backend@) + "\","@,
            "  \"status\": \""@ + json_escape_spec(self.run.status@) + "\","@,
            "  \"note\": \""@ + json_escape_spec(self.run.note@) + "\","@,
            "  \"config\": {"@,
            "    \"operations\": "@ + text::dec(self.operations as nat) + ","@,
            "    \"concurrency\": "@ + text::dec(self.concurrency as nat) + ","@,
            "    \"object_size_bytes\": "@ + text::dec(self.object_size_bytes as nat) + ","@,
            "    \"warmup_operations\": "@ + text::dec(self.warmup_operations as nat) + ","@,
            "    \"offered_rate_per_s\": "@ + (if self.offered_rate_per_s is Some { shown_rate } else { "null"@ }) + ","@,
            "    \"seed\": "@ + text::dec(self.seed as nat),
            "  },"@,
            "  \"lambda_channel_utc_now\": \""@ + json_escape_spec(self.run.lambda_channel_utc_now@) + "\""@,
            "}"@,
        ]
    }

    /// A report is written line by line.
    #[verifier::spinoff_prover]
    #[verifier::rlimit(80)]
    pub proof fn lemma_report_is_written_by_lines(self, shown_rate: Seq<char>)
        ensures
            self.json_spec(shown_rate) == text::join_spec(self.report_lines(shown_rate), "\n"@),
    {
        let l0 = seq!["{"@];
        let cur0 = Seq::<char>::empty();
        let stop0 = "{"@;
        assert(text::join_spec(l0, "\n"@) =~= cur0 + stop0);
        lemma_constant_line(l0, cur0, stop0, "  \"schema\": \"lambda-channel-benchmark/v0\","@);
        let l1 = l0.push("  \"schema\": \"lambda-channel-benchmark/v0\","@);
        let cur1 = cur0;
        let stop1 = stop0 + "\n"@ + "  \"schema\": \"lambda-channel-benchmark/v0\","@;
        let p2 = stop1 + "\n"@ + "  \"command\": \""@;
        lemma_line_with_value(l1, cur1, stop1, "  \"command\": \""@, json_escape_spec(self.run.command@), "\","@);
        let l2 = l1.push("  \"command\": \""@ + json_escape_spec(self.run.command@) + "\","@);
        let cur2 = cur1 + p2 + json_escape_spec(self.run.command@);
        let stop2 = "\","@;
        let p3 = stop2 + "\n"@ + "  \"backend\": \""@;
        lemma_line_with_value(l2, cur2, stop2, "  \"backend\": \""@, json_escape_spec(self.backend@), "\","@);
        let l3 = l2.push("  \"backend\": \""@ + json_escape_spec(self.backend@) + "\","@);
        let cur3 = cur2 + p3 + json_escape_spec(self.backend@);
        let stop3 = "\","@;
        let p4 = stop3 + "\n"@ + "  \"status\": \""@;
        lemma_line_with_value(l3, cur3, stop3, "  \"status\": \""@, json_escape_spec(self.run.status@), "\","@);
        let l4 = l3.push("  \"status\": \""@ + json_escape_spec(self.run.status@) + "\","@);
        let cur4 = cur3 + p4 + json_escape_spec(self.run.status@);
        let stop4 = "\","@;
        let p5 = stop4 + "\n"@ + "  \"note\": \""@;
        lemma_line_with_value(l4, cur4, stop4, "  \"note\": \""@, json_escape_spec(self.run.note@), "\","@);
        let l5 = l4.push("  \"note\": \""@ + json_escape_spec(self.run.note@) + "\","@);
        let cur5 = cur4 + p5 + json_escape_spec(self.run.note@);
        let stop5 = "\","@;
        lemma_constant_line(l5, cur5, stop5, "  \"config\": {"@);
        let l6 = l5.push("  \"config\": {"@);
        let cur6 = cur5;
        let stop6 = stop5 + "\n"@ + "  \"config\": {"@;
        let p7 = stop6 + "\n"@ + "    \"operations\": "@;
        lemma_line_with_value(l6, cur6, stop6, "    \"operations\": "@, text::dec(self.operations as nat), ","@);
        let l7 = l6.push("    \"operations\": "@ + text::dec(self.operations as nat) + ","@);
        let cur7 = cur6 + p7 + text::dec(self.operations as nat);
        let stop7 = ","@;
        let p8 = stop7 + "\n"@ + "    \"concurrency\": "@;
        lemma_line_with_value(l7, cur7, stop7, "    \"concurrency\": "@, text::dec(self.concurrency as nat), ","@);
        let l8 = l7.push("    \"concurrency\": "@ + text::dec(self.concurrency as nat) + ","@);
        let cur8 = cur7 + p8 + text::dec(self.concurrency as nat);
        let stop8 = ","@;
        let p9 = stop8 + "\n"@ + "    \"object_size_bytes\": "@;
        lemma_line_with_value(l8, cur8, stop8, "    \"object_size_bytes\": "@, text::dec(self.object_size_bytes as nat), ","@);
        let l9 = l8.push("    \"object_size_bytes\": "@ + text::dec(self.object_size_bytes as nat) + ","@);
        let cur9 = cur8 + p9 + text::dec(self.object_size_bytes as nat);
        let stop9 = ","@;
        let p10 = stop9 + "\n"@ + "    \"warmup_operations\": "@;
        lemma_line_with_value(l9, cur9, stop9, "    \"warmup_operations\": "@, text::dec(self.warmup_operations as nat), ","@);
        let l10 = l9.push("    \"warmup_operations\": "@ + text::dec(self.warmup_operations as nat) + ","@);
        let cur10 = cur9 + p10 + text::dec(self.warmup_operations as nat);
        let stop10 = ","@;
        let p11 = stop10 + "\n"@ + "    \"offered_rate_per_s\": "@;
        lemma_line_with_value(l10, cur10, stop10, "    \"offered_rate_per_s\": "@, (if self.offered_rate_per_s is Some { shown_rate } else { "null"@ }), ","@);
        let l11 = l10.push("    \"offered_rate_per_s\": "@ + (if self.offered_rate_per_s is Some { shown_rate } else { "null"@ }) + ","@);
        let cur11 = cur10 + p11 + (if self.offered_rate_per_s is Some { shown_rate } else { "null"@ });
        let stop11 = ","@;
        let p12 = stop11 + "\n"@ + "    \"seed\": "@;
        lemma_line_with_value(l11, cur11, stop11, "    \"seed\": "@, text::dec(self.seed as nat), ""@);
        let l12 = l11.push("    \"seed\": "@ + text::dec(self.seed as nat) + ""@);
        let cur12 = cur11 + p12 + text::dec(self.seed as nat);
        let stop12 = ""@;
        lemma_constant_line(l12, cur12, stop12, "  },"@);
        let l13 = l12.push("  },"@);
        let cur13 = cur12;
        let stop13 = stop12 + "\n"@ + "  },"@;
        let p14 = stop13 + "\n"@ + "  \"lambda_channel_utc_now\": \""@;
        lemma_line_with_value(l13, cur13, stop13, "  \"lambda_channel_utc_now\": \""@, json_escape_spec(self.run.lambda_channel_utc_now@), "\""@);
        let l14 = l13.push("  \"lambda_channel_utc_now\": \""@ + json_escape_spec(self.run.lambda_channel_utc_now@) + "\""@);
        let cur14 = cur13 + p14 + json_escape_spec(self.run.lambda_channel_utc_now@);
        let stop14 = "\""@;
        lemma_constant_line(l14, cur14, stop14, "}"@);
        let l15 = l14.push("}"@);
        let cur15 = cur14;
        let stop15 = stop14 + "\n"@ + "}"@;
        assert(p2 =~= "{\n  \"schema\": \"lambda-channel-benchmark/v0\",\n  \"command\": \""@) by {
            reveal_strlit("{\n  \"schema\": \"lambda-channel-benchmark/v0\",\n  \"command\": \"");
            reveal_strlit("{");
            reveal_strlit("  \"schema\": \"lambda-channel-benchmark/v0\",");
            reveal_strlit("  \"command\": \"");
            reveal_strlit("\n");
        }
        assert(p3 =~= "\",\n  \"backend\": \""@) by {
            reveal_strlit("\",\n  \"backend\": \"");
            reveal_strlit("\",");
            reveal_strlit("  \"backend\": \"");
            reveal_strlit("\n");
        }
        assert(p4 =~= "\",\n  \"status\": \""@) by {
            reveal_strlit("\",\n  \"status\": \"");
            reveal_strlit("\",");
            reveal_strlit("  \"status\": \"");
            reveal_strlit("\n");
        }
        assert(p5 =~= "\",\n  \"note\": \""@) by {
            reveal_strlit("\",\n  \"note\": \"");
            reveal_strlit("\",");
            reveal_strlit("  \"note\": \"");
            reveal_strlit("\n");
        }
        assert(p7 =~= "\",\n  \"config\": {\n    \"operations\": "@) by {
            reveal_strlit("\",\n  \"config\": {\n    \"operations\": ");
            reveal_strlit("\",");
            reveal_strlit("  \"config\": {");
            reveal_strlit("    \"operations\": ");
            reveal_strlit("\n");
        }
        assert(p8 =~= ",\n    \"concurrency\": "@) by {
            reveal_strlit(",\n    \"concurrency\": ");
            reveal_strlit(",");
            reveal_strlit("    \"concurrency\": ");
            reveal_strlit("\n");
        }
        assert(p9 =~= ",\n    \"object_size_bytes\": "@) by {
            reveal_strlit(",\n    \"object_size_bytes\": ");
            reveal_strlit(",");
            reveal_strlit("    \"object_size_bytes\": ");
            reveal_strlit("\n");
        }
        assert(p10 =~= ",\n    \"warmup_operations\": "@) by {
            reveal_strlit(",\n    \"warmup_operations\": ");
            reveal_strlit(",");
            reveal_strlit("    \"warmup_operations\": ");
            reveal_strlit("\n");
        }
        assert(p11 =~= ",\n    \"offered_rate_per_s\": "@) by {
            reveal_strlit(",\n    \"offered_rate_per_s\": ");
            reveal_strlit(",");
            reveal_strlit("    \"offered_rate_per_s\": ");
            reveal_strlit("\n");
        }
        assert(p12 =~= ",\n    \"seed\": "@) by {
            reveal_strlit(",\n    \"seed\": ");
            reveal_strlit(",");
            reveal_strlit("    \"seed\": ");
            reveal_strlit("\n");
        }
        assert(p14 =~= "\n  },\n  \"lambda_channel_utc_now\": \""@) by {
            reveal_strlit("\n  },\n  \"lambda_channel_utc_now\": \"");
            reveal_strlit("");
            reveal_strlit("  },");
            reveal_strlit("  \"lambda_channel_utc_now\": \"");
            reveal_strlit("\n");
        }
        assert(stop15 =~= "\"\n}"@) by {
            reveal_strlit("\"\n}");
            reveal_strlit("\"");
            reveal_strlit("\n");
            reveal_strlit("}");
        }
        reveal_strlit("");
        assert("    \"seed\": "@ + text::dec(self.seed as nat) + ""@ =~= "    \"seed\": "@ + text::dec(self.seed as nat));
        assert(self.report_lines(shown_rate) =~= l15);
    }
}

/// The scenarios of blobs, by name and by the file that configures each.
pub proof fn lemma_scenarios_by_name()
    ensures
        scenario_table().len() == 8,
        scenario_table()[0].0 == "blob.put.local_file"@ && scenario_table()[0].1
            == "config/experiments/blob/put.toml"@,
        scenario_table()[1].0 == "blob.put.s3"@ && scenario_table()[1].1
            == "config/experiments/blob/put-s3.toml"@,
        scenario_table()[2].0 == "blob.put.p2p"@ && scenario_table()[2].1
            == "config/experiments/blob/put-p2p.toml"@,
        scenario_table()[3].0 == "blob.get_materialize"@ && scenario_table()[3].1
            == "config/experiments/blob/get-materialize.toml"@,
        scenario_table()[4].0 == "blob.p2p_local_hit"@ && scenario_table()[4].1
            == "config/experiments/blob/p2p-local-hit.toml"@,
        scenario_table()[5].0 == "blob.p2p_peer_fetch"@ && scenario_table()[5].1
            == "config/experiments/blob/p2p-peer-fetch.toml"@,
        scenario_table()[6].0 == "blob.persist_upload"@ && scenario_table()[6].1
            == "config/experiments/blob/persist-upload.toml"@,
        scenario_table()[7].0 == "blob.fallback_fetch"@ && scenario_table()[7].1
            == "config/experiments/blob/fallback-fetch.toml"@,
        forall|i: int|
            0 <= i < 8 ==> scenario_line(#[trigger] scenario_table()[i]) == scenario_table()[i].0
                + " ["@ + scenario_table()[i].1 + "]: "@ + scenario_table()[i].2,
{
}

/// A workload goes by its own name, and the note on it names it.
pub proof fn lemma_notes_on_workloads(command: BenchCommand)
    ensures
        command is Metadata ==> command_name(command) == "metadata"@,
        command is Blob ==> command_name(command) == "blob"@,
        command is Sender ==> command_name(command) == "sender"@,
        command is Receiver ==> command_name(command) == "receiver"@,
        !(command is Blob) ==> note_of(command) == command_name(command)
            + " microbenchmark harness is initialized; workload implementation is next"@,
        command is Blob ==> text::starts_with_spec(
            note_of(command),
            "blob workload group is registered; scenarios: "@,
        ),
{
    let start = "blob workload group is registered; scenarios: "@;
    if command is Blob {
        assert(note_of(command).subrange(0, start.len() as int) =~= start);
    }
}

/// Escaping goes character by character.
pub proof fn lemma_escaping_goes_by_character(a: Seq<char>, b: Seq<char>, c: char)
    ensures
        json_escape_spec(a + b) == json_escape_spec(a) + json_escape_spec(b),
        json_escape_spec(seq![c]) == escape_char(c),
    decreases b.len(),
{
    let none = Seq::<char>::empty();
    assert(seq![c].drop_last() =~= none);
    assert(json_escape_spec(none) =~= none);
    assert(json_escape_spec(seq![c]) =~= escape_char(c));
    if b.len() == 0 {
        assert(a + b =~= a);
        assert(json_escape_spec(a) + json_escape_spec(b) =~= json_escape_spec(a));
    } else {
        lemma_escaping_goes_by_character(a, b.drop_last(), c);
        assert((a + b).drop_last() =~= a + b.drop_last());
        assert(json_escape_spec(a + b) =~= json_escape_spec(a) + json_escape_spec(b));
    }
}

} // verus!
