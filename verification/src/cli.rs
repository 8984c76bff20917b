//! The command line.
use crate::binary64::Real;
use crate::config::ConfigPaths;
use crate::text;
use vstd::prelude::*;
use vstd::string::*;

verus! {

#[derive(Clone, Copy, Debug, PartialEq, Eq, Structural)]
pub enum BenchCommand {
    Metadata,
    Blob,
    Sender,
    Receiver,
}

#[derive(Clone, Debug)]
pub struct NodeOptions {
    pub instance_id: Option<String>,
}

#[derive(Clone, Debug)]
pub struct TriggerOptions {
    pub coordinator_id: Option<String>,
}

#[derive(Clone, Debug)]
pub struct ProxyOptions {
    pub rpc_addr: String,
    pub csv_output: Option<String>,
}

#[derive(Clone, Debug)]
pub struct HealthOptions {
    pub rpc_addr: String,
}

#[derive(Clone, Debug)]
pub struct BlobGetOptions {
    pub coordinator_id: Option<String>,
    pub peer_instance_id: String,
    pub run_id: String,
    pub count: usize,
    pub object_size_bytes: u64,
    pub blob_store_backend: String,
    pub cleanup: bool,
}

#[derive(Clone, Debug)]
pub enum InvocationCommand {
    Workload(BenchCommand),
    Node(NodeOptions),
    Trigger(TriggerOptions),
    Proxy(ProxyOptions),
    Health(HealthOptions),
    BlobGet(BlobGetOptions),
    Help,
}

#[derive(Clone, Debug)]
pub struct BenchConfig {
    pub backend: String,
    pub operations: u64,
    pub concurrency: usize,
    pub object_size_bytes: u64,
    pub warmup_operations: u64,
    pub offered_rate_per_s: Option<Real>,
    pub output: Option<String>,
    pub seed: u64,
}

#[derive(Clone, Debug)]
pub struct Invocation {
    pub command: InvocationCommand,
    pub bench_config: BenchConfig,
    pub config_paths: ConfigPaths,
}

/// One word of the command line, with the number that it reads as.
#[derive(Clone, Debug)]
pub struct Arg {
    pub text: String,
    pub number: Option<Real>,
}

// ---------------------------------------------------------------------------------------------
// What an invocation says
// ---------------------------------------------------------------------------------------------
#[verifier::ext_equal]
pub struct BenchModel {
    pub backend: Seq<char>,
    pub operations: u64,
    pub concurrency: usize,
    pub object_size_bytes: u64,
    pub warmup_operations: u64,
    pub offered_rate_per_s: Option<Real>,
    pub output: Option<Seq<char>>,
    pub seed: u64,
}

#[verifier::ext_equal]
pub struct BlobGetModel {
    pub coordinator_id: Option<Seq<char>>,
    pub peer_instance_id: Seq<char>,
    pub run_id: Seq<char>,
    pub count: usize,
    pub object_size_bytes: u64,
    pub blob_store_backend: Seq<char>,
    pub cleanup: bool,
}

#[verifier::ext_equal]
pub enum CommandModel {
    Workload(BenchCommand),
    Node { instance_id: Option<Seq<char>> },
    Trigger { coordinator_id: Option<Seq<char>> },
    Proxy { rpc_addr: Seq<char>, csv_output: Option<Seq<char>> },
    Health { rpc_addr: Seq<char> },
    BlobGet(BlobGetModel),
    Help,
}

/// A command, the benchmark settings and the paths of the two configuration files.
#[verifier::ext_equal]
pub struct InvocationModel {
    pub command: CommandModel,
    pub bench: BenchModel,
    pub experiment: Seq<char>,
    pub instances: Seq<char>,
}

impl BenchConfig {
    pub open spec fn model(self) -> BenchModel {
        BenchModel {
            backend: self.backend@,
            operations: self.operations,
            concurrency: self.concurrency,
            object_size_bytes: self.object_size_bytes,
            warmup_operations: self.warmup_operations,
            offered_rate_per_s: self.offered_rate_per_s,
            output: text::option_view(self.output),
            seed: self.seed,
        }
    }

    pub open spec fn defaults() -> BenchModel {
        BenchModel {
            backend: "inmemory"@,
            operations: 10_000,
            concurrency: 1,
            object_size_bytes: 1_048_576,
            warmup_operations: 1_000,
            offered_rate_per_s: None,
            output: None,
            seed: 0,
        }
    }
}

impl Default for BenchConfig {
    fn default() -> (r: BenchConfig)
        ensures
            r.model() == BenchConfig::defaults(),
    {
        BenchConfig {
            backend: "inmemory".to_owned(),
            operations: 10_000,
            concurrency: 1,
            object_size_bytes: 1_048_576,
            warmup_operations: 1_000,
            offered_rate_per_s: None,
            output: None,
            seed: 0,
        }
    }
}

impl InvocationCommand {
    pub open spec fn model(self) -> CommandModel {
        match self {
            InvocationCommand::Workload(c) => CommandModel::Workload(c),
            InvocationCommand::Node(o) => CommandModel::Node {
                instance_id: text::option_view(o.instance_id),
            },
            InvocationCommand::Trigger(o) => CommandModel::Trigger {
                coordinator_id: text::option_view(o.coordinator_id),
            },
            InvocationCommand::Proxy(o) => CommandModel::Proxy {
                rpc_addr: o.rpc_addr@,
                csv_output: text::option_view(o.csv_output),
            },
            InvocationCommand::Health(o) => CommandModel::Health { rpc_addr: o.rpc_addr@ },
            InvocationCommand::BlobGet(o) => CommandModel::BlobGet(
                BlobGetModel {
                    coordinator_id: text::option_view(o.coordinator_id),
                    peer_instance_id: o.peer_instance_id@,
                    run_id: o.run_id@,
                    count: o.count,
                    object_size_bytes: o.object_size_bytes,
                    blob_store_backend: o.blob_store_backend@,
                    cleanup: o.cleanup,
                },
            ),
            InvocationCommand::Help => CommandModel::Help,
        }
    }
}

impl Invocation {
    pub open spec fn model(self) -> InvocationModel {
        InvocationModel {
            command: self.command.model(),
            bench: self.bench_config.model(),
            experiment: self.config_paths.experiment@,
            instances: self.config_paths.instances@,
        }
    }

    pub open spec fn outcome(r: Result<Invocation, String>) -> Result<InvocationModel, Seq<char>> {
        match r {
            Ok(i) => Ok(i.model()),
            Err(m) => Err(m@),
        }
    }
}

// ---------------------------------------------------------------------------------------------
// Numbers and sizes
// ---------------------------------------------------------------------------------------------
pub open spec fn unsigned_spec(value: Seq<char>, flag: Seq<char>, max: nat) -> Result<
    nat,
    Seq<char>,
> {
    match text::number_spec(value, max) {
        Ok(n) => Ok(n),
        Err(_) => Err(flag + " must be an unsigned integer, got "@ + value),
    }
}

pub fn parse_u64(value: &str, flag: &str) -> (r: Result<u64, String>)
    ensures
        match r {
            Ok(n) => unsigned_spec(value@, flag@, u64::MAX as nat) == Ok::<nat, Seq<char>>(
                n as nat,
            ),
            Err(m) => unsigned_spec(value@, flag@, u64::MAX as nat) == Err::<nat, Seq<char>>(m@),
        },
{
    match text::number(value, u64::MAX) {
        Ok(n) => Ok(n),
        Err(_) => Err(text::cat3(flag, " must be an unsigned integer, got ", value)),
    }
}

pub fn parse_usize(value: &str, flag: &str) -> (r: Result<usize, String>)
    ensures
        match r {
            Ok(n) => unsigned_spec(value@, flag@, usize::MAX as nat) == Ok::<nat, Seq<char>>(
                n as nat,
            ),
            Err(m) => unsigned_spec(value@, flag@, usize::MAX as nat) == Err::<nat, Seq<char>>(m@),
        },
{
    match text::number(value, usize::MAX as u64) {
        Ok(n) => Ok(n as usize),
        Err(_) => Err(text::cat3(flag, " must be an unsigned integer, got ", value)),
    }
}

/// The units of a size: powers of two and of ten.
pub open spec fn unit_spec(s: Seq<char>) -> (Seq<char>, nat) {
    if text::ends_with_spec(s, "kib"@) {
        (text::strip_suffix_spec(s, "kib"@)->0, 1024)
    } else if text::ends_with_spec(s, "mib"@) {
        (text::strip_suffix_spec(s, "mib"@)->0, 1_048_576)
    } else if text::ends_with_spec(s, "gib"@) {
        (text::strip_suffix_spec(s, "gib"@)->0, 1_073_741_824)
    } else if text::ends_with_spec(s, "kb"@) {
        (text::strip_suffix_spec(s, "kb"@)->0, 1_000)
    } else if text::ends_with_spec(s, "mb"@) {
        (text::strip_suffix_spec(s, "mb"@)->0, 1_000_000)
    } else if text::ends_with_spec(s, "gb"@) {
        (text::strip_suffix_spec(s, "gb"@)->0, 1_000_000_000)
    } else {
        (s, 1)
    }
}

fn unit(s: String) -> (r: (String, u64))
    ensures
        (r.0@, r.1 as nat) == unit_spec(s@),
        r.1 > 0,
{
    if let Some(digits) = text::strip_suffix(s.as_str(), "kib") {
        (digits, 1024)
    } else if let Some(digits) = text::strip_suffix(s.as_str(), "mib") {
        (digits, 1_048_576)
    } else if let Some(digits) = text::strip_suffix(s.as_str(), "gib") {
        (digits, 1_073_741_824)
    } else if let Some(digits) = text::strip_suffix(s.as_str(), "kb") {
        (digits, 1_000)
    } else if let Some(digits) = text::strip_suffix(s.as_str(), "mb") {
        (digits, 1_000_000)
    } else if let Some(digits) = text::strip_suffix(s.as_str(), "gb") {
        (digits, 1_000_000_000)
    } else {
        (s, 1)
    }
}

/// A byte count, with an optional unit.
pub open spec fn size_spec(value: Seq<char>, flag: Seq<char>) -> Result<nat, Seq<char>> {
    let (digits, multiplier) = unit_spec(text::normal_spec(value));
    match text::number_spec(text::trim_spec(digits), u64::MAX as nat) {
        Err(_) => Err(flag + " must be a byte count or size like 64MiB, got "@ + value),
        Ok(n) => if n * multiplier > u64::MAX {
            Err(flag + " is too large: "@ + value)
        } else {
            Ok(n * multiplier)
        },
    }
}

pub fn parse_size(value: &str, flag: &str) -> (r: Result<u64, String>)
    ensures
        match r {
            Ok(n) => size_spec(value@, flag@) == Ok::<nat, Seq<char>>(n as nat),
            Err(m) => size_spec(value@, flag@) == Err::<nat, Seq<char>>(m@),
        },
{
    let (digits, multiplier) = unit(text::normal(value));
    let digits = text::trim(digits.as_str());
    match text::number(digits.as_str(), u64::MAX) {
        Err(_) => Err(
            text::cat3(flag, " must be a byte count or size like 64MiB, got ", value),
        ),
        Ok(base) => match base.checked_mul(multiplier) {
            Some(n) => Ok(n),
            None => Err(text::cat3(flag, " is too large: ", value)),
        },
    }
}

// ---------------------------------------------------------------------------------------------
// Commands and their options
// ---------------------------------------------------------------------------------------------
/// What the first word selects.
#[derive(Clone, Copy, Debug, PartialEq, Eq, Structural)]
pub enum Group {
    Node,
    Trigger,
    Proxy,
    Health,
    BlobGet,
    Workload(BenchCommand),
}

#[derive(Clone, Copy, Debug, PartialEq, Eq, Structural)]
pub enum Flag {
    InstanceId,
    Coordinator,
    Experiment,
    Instances,
    Url,
    Csv,
    Peer,
    RunId,
    Count,
    ObjectSize,
    Backend,
    NoCleanup,
    Operations,
    Concurrency,
    Warmup,
    Rate,
    Output,
    Seed,
    Help,
    /// An option of another command.
    Refused,
    Unknown,
}

pub open spec fn node_flag_spec(word: Seq<char>) -> Flag {
    if word == "--instance-id"@ {
        Flag::InstanceId
    } else if word == "--experiment"@ {
        Flag::Refused
    } else if word == "--instances"@ {
        Flag::Instances
    } else if word == "-h"@ || word == "--help"@ {
        Flag::Help
    } else {
        Flag::Unknown
    }
}

fn node_flag(word: &str) -> (r: Flag)
    ensures
        r == node_flag_spec(word@),
{
    if text::same(word, "--instance-id") {
        Flag::InstanceId
    } else if text::same(word, "--experiment") {
        Flag::Refused
    } else if text::same(word, "--instances") {
        Flag::Instances
    } else if text::same(word, "-h") || text::same(word, "--help") {
        Flag::Help
    } else {
        Flag::Unknown
    }
}

pub open spec fn trigger_flag_spec(word: Seq<char>) -> Flag {
    if word == "--coordinator"@ || word == "--coordinator-id"@ {
        Flag::Coordinator
    } else if word == "--experiment"@ {
        Flag::Experiment
    } else if word == "--instances"@ {
        Flag::Instances
    } else if word == "-h"@ || word == "--help"@ {
        Flag::Help
    } else {
        Flag::Unknown
    }
}

fn trigger_flag(word: &str) -> (r: Flag)
    ensures
        r == trigger_flag_spec(word@),
{
    if text::same(word, "--coordinator") || text::same(word, "--coordinator-id") {
        Flag::Coordinator
    } else if text::same(word, "--experiment") {
        Flag::Experiment
    } else if text::same(word, "--instances") {
        Flag::Instances
    } else if text::same(word, "-h") || text::same(word, "--help") {
        Flag::Help
    } else {
        Flag::Unknown
    }
}

pub open spec fn proxy_flag_spec(word: Seq<char>) -> Flag {
    if word == "--url"@ || word == "--rpc-addr"@ {
        Flag::Url
    } else if word == "--experiment"@ {
        Flag::Experiment
    } else if word == "--instances"@ {
        Flag::Refused
    } else if word == "--csv"@ || word == "--csv-output"@ {
        Flag::Csv
    } else if word == "-h"@ || word == "--help"@ {
        Flag::Help
    } else {
        Flag::Unknown
    }
}

fn proxy_flag(word: &str) -> (r: Flag)
    ensures
        r == proxy_flag_spec(word@),
{
    if text::same(word, "--url") || text::same(word, "--rpc-addr") {
        Flag::Url
    } else if text::same(word, "--experiment") {
        Flag::Experiment
    } else if text::same(word, "--instances") {
        Flag::Refused
    } else if text::same(word, "--csv") || text::same(word, "--csv-output") {
        Flag::Csv
    } else if text::same(word, "-h") || text::same(word, "--help") {
        Flag::Help
    } else {
        Flag::Unknown
    }
}

pub open spec fn health_flag_spec(word: Seq<char>) -> Flag {
    if word == "--url"@ || word == "--rpc-addr"@ {
        Flag::Url
    } else if word == "-h"@ || word == "--help"@ {
        Flag::Help
    } else {
        Flag::Unknown
    }
}

fn health_flag(word: &str) -> (r: Flag)
    ensures
        r == health_flag_spec(word@),
{
    if text::same(word, "--url") || text::same(word, "--rpc-addr") {
        Flag::Url
    } else if text::same(word, "-h") || text::same(word, "--help") {
        Flag::Help
    } else {
        Flag::Unknown
    }
}

pub open spec fn blob_get_flag_spec(word: Seq<char>) -> Flag {
    if word == "--coordinator"@ || word == "--coordinator-id"@ {
        Flag::Coordinator
    } else if word == "--peer"@ || word == "--peer-instance-id"@ {
        Flag::Peer
    } else if word == "--run-id"@ {
        Flag::RunId
    } else if word == "--count"@ {
        Flag::Count
    } else if word == "--object-size"@ {
        Flag::ObjectSize
    } else if word == "--backend"@ {
        Flag::Backend
    } else if word == "--no-cleanup"@ {
        Flag::NoCleanup
    } else if word == "--experiment"@ {
        Flag::Refused
    } else if word == "--instances"@ {
        Flag::Instances
    } else if word == "-h"@ || word == "--help"@ {
        Flag::Help
    } else {
        Flag::Unknown
    }
}

fn blob_get_flag(word: &str) -> (r: Flag)
    ensures
        r == blob_get_flag_spec(word@),
{
    if text::same(word, "--coordinator") || text::same(word, "--coordinator-id") {
        Flag::Coordinator
    } else if text::same(word, "--peer") || text::same(word, "--peer-instance-id") {
        Flag::Peer
    } else if text::same(word, "--run-id") {
        Flag::RunId
    } else if text::same(word, "--count") {
        Flag::Count
    } else if text::same(word, "--object-size") {
        Flag::ObjectSize
    } else if text::same(word, "--backend") {
        Flag::Backend
    } else if text::same(word, "--no-cleanup") {
        Flag::NoCleanup
    } else if text::same(word, "--experiment") {
        Flag::Refused
    } else if text::same(word, "--instances") {
        Flag::Instances
    } else if text::same(word, "-h") || text::same(word, "--help") {
        Flag::Help
    } else {
        Flag::Unknown
    }
}

pub open spec fn workload_flag_spec(word: Seq<char>) -> Flag {
    if word == "--backend"@ {
        Flag::Backend
    } else if word == "--operations"@ {
        Flag::Operations
    } else if word == "--concurrency"@ {
        Flag::Concurrency
    } else if word == "--object-size"@ {
        Flag::ObjectSize
    } else if word == "--warmup"@ {
        Flag::Warmup
    } else if word == "--rate"@ {
        Flag::Rate
    } else if word == "--output"@ {
        Flag::Output
    } else if word == "--seed"@ {
        Flag::Seed
    } else if word == "-h"@ || word == "--help"@ {
        Flag::Help
    } else {
        Flag::Unknown
    }
}

fn workload_flag(word: &str) -> (r: Flag)
    ensures
        r == workload_flag_spec(word@),
{
    if text::same(word, "--backend") {
        Flag::Backend
    } else if text::same(word, "--operations") {
        Flag::Operations
    } else if text::same(word, "--concurrency") {
        Flag::Concurrency
    } else if text::same(word, "--object-size") {
        Flag::ObjectSize
    } else if text::same(word, "--warmup") {
        Flag::Warmup
    } else if text::same(word, "--rate") {
        Flag::Rate
    } else if text::same(word, "--output") {
        Flag::Output
    } else if text::same(word, "--seed") {
        Flag::Seed
    } else if text::same(word, "-h") || text::same(word, "--help") {
        Flag::Help
    } else {
        Flag::Unknown
    }
}

/// The option that a word names in a group.
pub open spec fn flag_spec(group: Group, word: Seq<char>) -> Flag {
    match group {
        Group::Node => node_flag_spec(word),
        Group::Trigger => trigger_flag_spec(word),
        Group::Proxy => proxy_flag_spec(word),
        Group::Health => health_flag_spec(word),
        Group::BlobGet => blob_get_flag_spec(word),
        Group::Workload(_) => workload_flag_spec(word),
    }
}

fn flag_of(group: Group, word: &str) -> (r: Flag)
    ensures
        r == flag_spec(group, word@),
{
    match group {
        Group::Node => node_flag(word),
        Group::Trigger => trigger_flag(word),
        Group::Proxy => proxy_flag(word),
        Group::Health => health_flag(word),
        Group::BlobGet => blob_get_flag(word),
        Group::Workload(_) => workload_flag(word),
    }
}

/// What is said of an option that a group does not have.
pub open spec fn unknown_prefix_spec(group: Group) -> Seq<char> {
    match group {
        Group::Node => "unknown node option: "@,
        Group::Trigger => "unknown trigger option: "@,
        Group::Proxy => "unknown proxy option: "@,
        Group::Health => "unknown health option: "@,
        Group::BlobGet => "unknown blob-get option: "@,
        Group::Workload(_) => "unknown option: "@,
    }
}

fn unknown_prefix(group: Group) -> (r: String)
    ensures
        r@ == unknown_prefix_spec(group),
{
    match group {
        Group::Node => "unknown node option: ".to_owned(),
        Group::Trigger => "unknown trigger option: ".to_owned(),
        Group::Proxy => "unknown proxy option: ".to_owned(),
        Group::Health => "unknown health option: ".to_owned(),
        Group::BlobGet => "unknown blob-get option: ".to_owned(),
        Group::Workload(_) => "unknown option: ".to_owned(),
    }
}

/// What is said of an option that belongs to another command.
pub open spec fn refusal_spec(group: Group) -> Seq<char> {
    match group {
        Group::Node => "node does not read --experiment; submit experiments through proxy or trigger"@,
        Group::Proxy => "proxy does not read --instances; the target node uses its startup instance list"@,
        Group::BlobGet => "blob-get does not read --experiment; use --run-id/--count/--backend directly"@,
        _ => "option does not belong to this command"@,
    }
}

fn refusal(group: Group) -> (r: String)
    ensures
        r@ == refusal_spec(group),
{
    match group {
        Group::Node => "node does not read --experiment; submit experiments through proxy or trigger".to_owned(),
        Group::Proxy => "proxy does not read --instances; the target node uses its startup instance list".to_owned(),
        Group::BlobGet => "blob-get does not read --experiment; use --run-id/--count/--backend directly".to_owned(),
        _ => "option does not belong to this command".to_owned(),
    }
}

/// The name that messages give an option.
pub open spec fn flag_name_spec(flag: Flag) -> Seq<char> {
    match flag {
        Flag::InstanceId => "--instance-id"@,
        Flag::Coordinator => "--coordinator"@,
        Flag::Experiment => "--experiment"@,
        Flag::Instances => "--instances"@,
        Flag::Url => "--url"@,
        Flag::Csv => "--csv"@,
        Flag::Peer => "--peer"@,
        Flag::RunId => "--run-id"@,
        Flag::Count => "--count"@,
        Flag::ObjectSize => "--object-size"@,
        Flag::Backend => "--backend"@,
        Flag::NoCleanup => "--no-cleanup"@,
        Flag::Operations => "--operations"@,
        Flag::Concurrency => "--concurrency"@,
        Flag::Warmup => "--warmup"@,
        Flag::Rate => "--rate"@,
        Flag::Output => "--output"@,
        Flag::Seed => "--seed"@,
        _ => "--help"@,
    }
}

fn flag_name(flag: Flag) -> (r: String)
    ensures
        r@ == flag_name_spec(flag),
{
    match flag {
        Flag::InstanceId => "--instance-id".to_owned(),
        Flag::Coordinator => "--coordinator".to_owned(),
        Flag::Experiment => "--experiment".to_owned(),
        Flag::Instances => "--instances".to_owned(),
        Flag::Url => "--url".to_owned(),
        Flag::Csv => "--csv".to_owned(),
        Flag::Peer => "--peer".to_owned(),
        Flag::RunId => "--run-id".to_owned(),
        Flag::Count => "--count".to_owned(),
        Flag::ObjectSize => "--object-size".to_owned(),
        Flag::Backend => "--backend".to_owned(),
        Flag::NoCleanup => "--no-cleanup".to_owned(),
        Flag::Operations => "--operations".to_owned(),
        Flag::Concurrency => "--concurrency".to_owned(),
        Flag::Warmup => "--warmup".to_owned(),
        Flag::Rate => "--rate".to_owned(),
        Flag::Output => "--output".to_owned(),
        Flag::Seed => "--seed".to_owned(),
        _ => "--help".to_owned(),
    }
}

/// The options read so far.
#[verifier::ext_equal]
pub struct SettingsModel {
    pub instance_id: Option<Seq<char>>,
    pub coordinator_id: Option<Seq<char>>,
    pub experiment: Option<Seq<char>>,
    pub instances: Option<Seq<char>>,
    pub rpc_addr: Option<Seq<char>>,
    pub csv_output: Option<Seq<char>>,
    pub peer_instance_id: Option<Seq<char>>,
    pub run_id: Option<Seq<char>>,
    pub count: Option<usize>,
    pub object_size_bytes: Option<u64>,
    pub backend: Option<Seq<char>>,
    pub cleanup: bool,
    pub operations: Option<u64>,
    pub concurrency: Option<usize>,
    pub warmup_operations: Option<u64>,
    pub rate: Option<Real>,
    pub output: Option<Seq<char>>,
    pub seed: Option<u64>,
}

impl SettingsModel {
    pub open spec fn none() -> SettingsModel {
        SettingsModel {
            instance_id: None,
            coordinator_id: None,
            experiment: None,
            instances: None,
            rpc_addr: None,
            csv_output: None,
            peer_instance_id: None,
            run_id: None,
            count: None,
            object_size_bytes: None,
            backend: None,
            cleanup: true,
            operations: None,
            concurrency: None,
            warmup_operations: None,
            rate: None,
            output: None,
            seed: None,
        }
    }
}

struct Settings {
    instance_id: Option<String>,
    coordinator_id: Option<String>,
    experiment: Option<String>,
    instances: Option<String>,
    rpc_addr: Option<String>,
    csv_output: Option<String>,
    peer_instance_id: Option<String>,
    run_id: Option<String>,
    count: Option<usize>,
    object_size_bytes: Option<u64>,
    backend: Option<String>,
    cleanup: bool,
    operations: Option<u64>,
    concurrency: Option<usize>,
    warmup_operations: Option<u64>,
    rate: Option<Real>,
    output: Option<String>,
    seed: Option<u64>,
}

impl Settings {
    spec fn model(self) -> SettingsModel {
        SettingsModel {
            instance_id: text::option_view(self.instance_id),
            coordinator_id: text::option_view(self.coordinator_id),
            experiment: text::option_view(self.experiment),
            instances: text::option_view(self.instances),
            rpc_addr: text::option_view(self.rpc_addr),
            csv_output: text::option_view(self.csv_output),
            peer_instance_id: text::option_view(self.peer_instance_id),
            run_id: text::option_view(self.run_id),
            count: self.count,
            object_size_bytes: self.object_size_bytes,
            backend: text::option_view(self.backend),
            cleanup: self.cleanup,
            operations: self.operations,
            concurrency: self.concurrency,
            warmup_operations: self.warmup_operations,
            rate: self.rate,
            output: text::option_view(self.output),
            seed: self.seed,
        }
    }

    fn new() -> (r: Settings)
        ensures
            r.model() == SettingsModel::none(),
    {
        Settings {
            instance_id: None,
            coordinator_id: None,
            experiment: None,
            instances: None,
            rpc_addr: None,
            csv_output: None,
            peer_instance_id: None,
            run_id: None,
            count: None,
            object_size_bytes: None,
            backend: None,
            cleanup: true,
            operations: None,
            concurrency: None,
            warmup_operations: None,
            rate: None,
            output: None,
            seed: None,
        }
    }
}

/// The settings after an option with its value.
pub open spec fn applied_spec(
    s: SettingsModel,
    flag: Flag,
    value: Seq<char>,
    number: Option<Real>,
) -> Result<SettingsModel, Seq<char>> {
    match flag {
        Flag::InstanceId => Ok(SettingsModel { instance_id: Some(value), ..s }),
        Flag::Coordinator => Ok(SettingsModel { coordinator_id: Some(value), ..s }),
        Flag::Experiment => Ok(SettingsModel { experiment: Some(value), ..s }),
        Flag::Instances => Ok(SettingsModel { instances: Some(value), ..s }),
        Flag::Url => Ok(SettingsModel { rpc_addr: Some(value), ..s }),
        Flag::Csv => Ok(SettingsModel { csv_output: Some(value), ..s }),
        Flag::Peer => Ok(SettingsModel { peer_instance_id: Some(value), ..s }),
        Flag::RunId => Ok(SettingsModel { run_id: Some(value), ..s }),
        Flag::Backend => Ok(SettingsModel { backend: Some(value), ..s }),
        Flag::Output => Ok(SettingsModel { output: Some(value), ..s }),
        Flag::Count => match unsigned_spec(value, flag_name_spec(flag), usize::MAX as nat) {
            Ok(n) => Ok(SettingsModel { count: Some(n as usize), ..s }),
            Err(m) => Err(m),
        },
        Flag::Operations => match unsigned_spec(value, flag_name_spec(flag), u64::MAX as nat) {
            Ok(n) => Ok(SettingsModel { operations: Some(n as u64), ..s }),
            Err(m) => Err(m),
        },
        Flag::Concurrency => match unsigned_spec(value, flag_name_spec(flag), usize::MAX as nat) {
            Ok(n) => Ok(SettingsModel { concurrency: Some(n as usize), ..s }),
            Err(m) => Err(m),
        },
        Flag::Warmup => match unsigned_spec(value, flag_name_spec(flag), u64::MAX as nat) {
            Ok(n) => Ok(SettingsModel { warmup_operations: Some(n as u64), ..s }),
            Err(m) => Err(m),
        },
        Flag::Seed => match unsigned_spec(value, flag_name_spec(flag), u64::MAX as nat) {
            Ok(n) => Ok(SettingsModel { seed: Some(n as u64), ..s }),
            Err(m) => Err(m),
        },
        Flag::ObjectSize => match size_spec(value, flag_name_spec(flag)) {
            Ok(n) => Ok(SettingsModel { object_size_bytes: Some(n as u64), ..s }),
            Err(m) => Err(m),
        },
        Flag::Rate => match number {
            Some(rate) => Ok(SettingsModel { rate: Some(rate), ..s }),
            None => Err("--rate must be a positive number, got "@ + value),
        },
        _ => Ok(s),
    }
}

impl Settings {
    fn apply(&mut self, flag: Flag, value: &str, number: Option<Real>) -> (r: Result<(), String>)
        ensures
            match r {
                Ok(_) => applied_spec(old(self).model(), flag, value@, number) == Ok::<
                    SettingsModel,
                    Seq<char>,
                >(final(self).model()),
                Err(m) => applied_spec(old(self).model(), flag, value@, number) == Err::<
                    SettingsModel,
                    Seq<char>,
                >(m@),
            },
    {
        match flag {
            Flag::InstanceId => {
                self.instance_id = Some(value.to_owned());
            },
            Flag::Coordinator => {
                self.coordinator_id = Some(value.to_owned());
            },
            Flag::Experiment => {
                self.experiment = Some(value.to_owned());
            },
            Flag::Instances => {
                self.instances = Some(value.to_owned());
            },
            Flag::Url => {
                self.rpc_addr = Some(value.to_owned());
            },
            Flag::Csv => {
                self.csv_output = Some(value.to_owned());
            },
            Flag::Peer => {
                self.peer_instance_id = Some(value.to_owned());
            },
            Flag::RunId => {
                self.run_id = Some(value.to_owned());
            },
            Flag::Backend => {
                self.backend = Some(value.to_owned());
            },
            Flag::Output => {
                self.output = Some(value.to_owned());
            },
            Flag::Count => match parse_usize(value, flag_name(flag).as_str()) {
                Ok(n) => {
                    self.count = Some(n);
                },
                Err(m) => {
                    return Err(m);
                },
            },
            Flag::Operations => match parse_u64(value, flag_name(flag).as_str()) {
                Ok(n) => {
                    self.operations = Some(n);
                },
                Err(m) => {
                    return Err(m);
                },
            },
            Flag::Concurrency => match parse_usize(value, flag_name(flag).as_str()) {
                Ok(n) => {
                    self.concurrency = Some(n);
                },
                Err(m) => {
                    return Err(m);
                },
            },
            Flag::Warmup => match parse_u64(value, flag_name(flag).as_str()) {
                Ok(n) => {
                    self.warmup_operations = Some(n);
                },
                Err(m) => {
                    return Err(m);
                },
            },
            Flag::Seed => match parse_u64(value, flag_name(flag).as_str()) {
                Ok(n) => {
                    self.seed = Some(n);
                },
                Err(m) => {
                    return Err(m);
                },
            },
            Flag::ObjectSize => match parse_size(value, flag_name(flag).as_str()) {
                Ok(n) => {
                    self.object_size_bytes = Some(n);
                },
                Err(m) => {
                    return Err(m);
                },
            },
            Flag::Rate => match number {
                Some(rate) => {
                    self.rate = Some(rate);
                },
                None => {
                    return Err(text::cat2("--rate must be a positive number, got ", value));
                },
            },
            _ => {},
        }
        Ok(())
    }
}

// ---------------------------------------------------------------------------------------------
// From options to an invocation
// ---------------------------------------------------------------------------------------------
pub open spec fn or_text(value: Option<Seq<char>>, fallback: Seq<char>) -> Seq<char> {
    match value {
        Some(v) => v,
        None => fallback,
    }
}

fn text_or(value: &Option<String>, fallback: &str) -> (r: String)
    ensures
        r@ == or_text(text::option_view(*value), fallback@),
{
    match value {
        Some(v) => v.clone(),
        None => fallback.to_owned(),
    }
}

pub open spec fn or_number(value: Option<u64>, fallback: u64) -> u64 {
    match value {
        Some(v) => v,
        None => fallback,
    }
}

fn number_or(value: Option<u64>, fallback: u64) -> (r: u64)
    ensures
        r == or_number(value, fallback),
{
    match value {
        Some(v) => v,
        None => fallback,
    }
}

pub open spec fn or_count(value: Option<usize>, fallback: usize) -> usize {
    match value {
        Some(v) => v,
        None => fallback,
    }
}

fn count_or(value: Option<usize>, fallback: usize) -> (r: usize)
    ensures
        r == or_count(value, fallback),
{
    match value {
        Some(v) => v,
        None => fallback,
    }
}

/// The benchmark settings: those of a workload as given, the defaults elsewhere.
pub open spec fn bench_of(group: Group, s: SettingsModel) -> BenchModel {
    let d = BenchConfig::defaults();
    if group is Workload {
        BenchModel {
            backend: or_text(s.backend, d.backend),
            operations: or_number(s.operations, d.operations),
            concurrency: or_count(s.concurrency, d.concurrency),
            object_size_bytes: or_number(s.object_size_bytes, d.object_size_bytes),
            warmup_operations: or_number(s.warmup_operations, d.warmup_operations),
            offered_rate_per_s: s.rate,
            output: s.output,
            seed: or_number(s.seed, d.seed),
        }
    } else {
        d
    }
}

/// An invocation of `command` with the settings.
pub open spec fn invoked(group: Group, s: SettingsModel, command: CommandModel) -> InvocationModel {
    InvocationModel {
        command,
        bench: bench_of(group, s),
        experiment: or_text(s.experiment, "config/local-experiment.toml"@),
        instances: or_text(s.instances, "config/instances/local-two.toml"@),
    }
}

/// The invocation once every option is read, or what is missing or out of range.
pub open spec fn finished(group: Group, s: SettingsModel) -> Result<InvocationModel, Seq<char>> {
    match group {
        Group::Node => Ok(
            invoked(group, s, CommandModel::Node { instance_id: s.instance_id }),
        ),
        Group::Trigger => Ok(
            invoked(group, s, CommandModel::Trigger { coordinator_id: s.coordinator_id }),
        ),
        Group::Proxy => match s.rpc_addr {
            Some(rpc_addr) => Ok(
                invoked(group, s, CommandModel::Proxy { rpc_addr, csv_output: s.csv_output }),
            ),
            None => Err("proxy requires --url <rpc-addr>"@),
        },
        Group::Health => match s.rpc_addr {
            Some(rpc_addr) => Ok(invoked(group, s, CommandModel::Health { rpc_addr })),
            None => Err("health requires --url <rpc-addr>"@),
        },
        Group::BlobGet => {
            let count = or_count(s.count, 10);
            let size = or_number(s.object_size_bytes, 65_536);
            match s.peer_instance_id {
                None => Err("blob-get requires --peer <id>"@),
                Some(peer_instance_id) => if count == 0 {
                    Err("--count must be greater than zero"@)
                } else if size == 0 {
                    Err("--object-size must be greater than zero"@)
                } else {
                    Ok(
                        invoked(
                            group,
                            s,
                            CommandModel::BlobGet(
                                BlobGetModel {
                                    coordinator_id: s.coordinator_id,
                                    peer_instance_id,
                                    run_id: or_text(s.run_id, "blob-get-direct"@),
                                    count,
                                    object_size_bytes: size,
                                    blob_store_backend: or_text(s.backend, "local-file"@),
                                    cleanup: s.cleanup,
                                },
                            ),
                        ),
                    )
                },
            }
        },
        Group::Workload(command) => {
            let bench = bench_of(group, s);
            if bench.concurrency == 0 {
                Err("--concurrency must be greater than zero"@)
            } else if bench.operations == 0 {
                Err("--operations must be greater than zero"@)
            } else if bench.offered_rate_per_s matches Some(rate) && rate.le_spec(
                Real::zero_spec(),
            ) {
                Err("--rate must be greater than zero"@)
            } else {
                Ok(invoked(group, s, CommandModel::Workload(command)))
            }
        },
    }
}

impl Settings {
    fn bench(&self, group: Group) -> (r: BenchConfig)
        ensures
            r.model() == bench_of(group, self.model()),
    {
        match group {
            Group::Workload(_) => BenchConfig {
                backend: text_or(&self.backend, "inmemory"),
                operations: number_or(self.operations, 10_000),
                concurrency: count_or(self.concurrency, 1),
                object_size_bytes: number_or(self.object_size_bytes, 1_048_576),
                warmup_operations: number_or(self.warmup_operations, 1_000),
                offered_rate_per_s: self.rate,
                output: text::clone_option(&self.output),
                seed: number_or(self.seed, 0),
            },
            _ => BenchConfig::default(),
        }
    }

    fn invoke(&self, group: Group, command: InvocationCommand) -> (r: Invocation)
        ensures
            r.model() == invoked(group, self.model(), command.model()),
    {
        Invocation {
            command,
            bench_config: self.bench(group),
            config_paths: ConfigPaths {
                experiment: text_or(&self.experiment, "config/local-experiment.toml"),
                instances: text_or(&self.instances, "config/instances/local-two.toml"),
            },
        }
    }

    fn finish(&self, group: Group) -> (r: Result<Invocation, String>)
        ensures
            Invocation::outcome(r) == finished(group, self.model()),
    {
        match group {
            Group::Node => {
                let options = NodeOptions { instance_id: text::clone_option(&self.instance_id) };
                Ok(self.invoke(group, InvocationCommand::Node(options)))
            },
            Group::Trigger => {
                let options = TriggerOptions {
                    coordinator_id: text::clone_option(&self.coordinator_id),
                };
                Ok(self.invoke(group, InvocationCommand::Trigger(options)))
            },
            Group::Proxy => match &self.rpc_addr {
                Some(rpc_addr) => {
                    let options = ProxyOptions {
                        rpc_addr: rpc_addr.clone(),
                        csv_output: text::clone_option(&self.csv_output),
                    };
                    Ok(self.invoke(group, InvocationCommand::Proxy(options)))
                },
                None => Err("proxy requires --url <rpc-addr>".to_owned()),
            },
            Group::Health => match &self.rpc_addr {
                Some(rpc_addr) => {
                    let options = HealthOptions { rpc_addr: rpc_addr.clone() };
                    Ok(self.invoke(group, InvocationCommand::Health(options)))
                },
                None => Err("health requires --url <rpc-addr>".to_owned()),
            },
            Group::BlobGet => {
                let count: usize = count_or(self.count, 10);
                let object_size_bytes: u64 = number_or(self.object_size_bytes, 65_536);
                match &self.peer_instance_id {
                    None => Err("blob-get requires --peer <id>".to_owned()),
                    Some(peer) => {
                        if count == 0 {
                            return Err("--count must be greater than zero".to_owned());
                        }
                        if object_size_bytes == 0 {
                            return Err("--object-size must be greater than zero".to_owned());
                        }
                        let options = BlobGetOptions {
                            coordinator_id: text::clone_option(&self.coordinator_id),
                            peer_instance_id: peer.clone(),
                            run_id: text_or(&self.run_id, "blob-get-direct"),
                            count,
                            object_size_bytes,
                            blob_store_backend: text_or(&self.backend, "local-file"),
                            cleanup: self.cleanup,
                        };
                        Ok(self.invoke(group, InvocationCommand::BlobGet(options)))
                    },
                }
            },
            Group::Workload(command) => {
                let bench = self.bench(group);
                if bench.concurrency == 0 {
                    return Err("--concurrency must be greater than zero".to_owned());
                }
                if bench.operations == 0 {
                    return Err("--operations must be greater than zero".to_owned());
                }
                if let Some(rate) = bench.offered_rate_per_s {
                    if rate.le(Real::zero()) {
                        return Err("--rate must be greater than zero".to_owned());
                    }
                }
                Ok(self.invoke(group, InvocationCommand::Workload(command)))
            },
        }
    }
}

// ---------------------------------------------------------------------------------------------
// Reading the command line
// ---------------------------------------------------------------------------------------------
/// What reading the options from word `i` on comes to.
pub open spec fn options_spec(group: Group, args: Seq<Arg>, i: int, s: SettingsModel) -> Result<
    InvocationModel,
    Seq<char>,
>
    decreases args.len() - i,
{
    if i < 0 || i >= args.len() {
        finished(group, s)
    } else {
        let flag = flag_spec(group, args[i].text@);
        match flag {
            Flag::Help => Ok(invoked(group, s, CommandModel::Help)),
            Flag::Refused => Err(refusal_spec(group)),
            Flag::Unknown => Err(unknown_prefix_spec(group) + args[i].text@),
            Flag::NoCleanup => options_spec(
                group,
                args,
                i + 1,
                SettingsModel { cleanup: false, ..s },
            ),
            _ => if i + 1 >= args.len() {
                Err("expected value after "@ + flag_name_spec(flag))
            } else {
                match applied_spec(s, flag, args[i + 1].text@, args[i + 1].number) {
                    Err(m) => Err(m),
                    Ok(t) => options_spec(group, args, i + 2, t),
                }
            },
        }
    }
}

/// The group that the first word names.
pub open spec fn group_spec(word: Seq<char>) -> Option<Group> {
    if word == "node"@ || word == "agent"@ {
        Some(Group::Node)
    } else if word == "trigger"@ || word == "client"@ {
        Some(Group::Trigger)
    } else if word == "proxy"@ {
        Some(Group::Proxy)
    } else if word == "health"@ {
        Some(Group::Health)
    } else if word == "blob-get"@ {
        Some(Group::BlobGet)
    } else if word == "metadata"@ {
        Some(Group::Workload(BenchCommand::Metadata))
    } else if word == "blob"@ {
        Some(Group::Workload(BenchCommand::Blob))
    } else if word == "sender"@ {
        Some(Group::Workload(BenchCommand::Sender))
    } else if word == "receiver"@ {
        Some(Group::Workload(BenchCommand::Receiver))
    } else {
        None
    }
}

fn group_of(word: &str) -> (r: Option<Group>)
    ensures
        r == group_spec(word@),
{
    if text::same(word, "node") || text::same(word, "agent") {
        Some(Group::Node)
    } else if text::same(word, "trigger") || text::same(word, "client") {
        Some(Group::Trigger)
    } else if text::same(word, "proxy") {
        Some(Group::Proxy)
    } else if text::same(word, "health") {
        Some(Group::Health)
    } else if text::same(word, "blob-get") {
        Some(Group::BlobGet)
    } else if text::same(word, "metadata") {
        Some(Group::Workload(BenchCommand::Metadata))
    } else if text::same(word, "blob") {
        Some(Group::Workload(BenchCommand::Blob))
    } else if text::same(word, "sender") {
        Some(Group::Workload(BenchCommand::Sender))
    } else if text::same(word, "receiver") {
        Some(Group::Workload(BenchCommand::Receiver))
    } else {
        None
    }
}

/// What a command line asks for.
pub open spec fn parse_spec(args: Seq<Arg>) -> Result<InvocationModel, Seq<char>> {
    let help = Ok(
        InvocationModel {
            command: CommandModel::Help,
            bench: BenchConfig::defaults(),
            experiment: "config/local-experiment.toml"@,
            instances: "config/instances/local-two.toml"@,
        },
    );
    if args.len() == 0 {
        help
    } else {
        let word = args[0].text@;
        if word == "-h"@ || word == "--help"@ || word == "help"@ {
            help
        } else {
            match group_spec(word) {
                Some(group) => options_spec(group, args, 1, SettingsModel::none()),
                None => Err("unknown benchmark command: "@ + word),
            }
        }
    }
}

impl Invocation {
    pub fn parse(args: &Vec<Arg>) -> (r: Result<Invocation, String>)
        ensures
            Invocation::outcome(r) == parse_spec(args@),
    {
        if args.len() == 0 {
            return Ok(
                Invocation {
                    command: InvocationCommand::Help,
                    bench_config: BenchConfig::default(),
                    config_paths: ConfigPaths::default(),
                },
            );
        }
        let word = args[0].text.as_str();
        if text::same(word, "-h") || text::same(word, "--help") || text::same(word, "help") {
            return Ok(
                Invocation {
                    command: InvocationCommand::Help,
                    bench_config: BenchConfig::default(),
                    config_paths: ConfigPaths::default(),
                },
            );
        }
        match group_of(word) {
            Some(group) => Invocation::parse_options(group, args),
            None => Err(text::cat2("unknown benchmark command: ", word)),
        }
    }

    fn parse_options(group: Group, args: &Vec<Arg>) -> (r: Result<Invocation, String>)
        requires
            args@.len() > 0,
        ensures
            Invocation::outcome(r) == options_spec(group, args@, 1, SettingsModel::none()),
    {
        let mut settings = Settings::new();
        let mut i: usize = 1;
        while i < args.len()
            invariant
                1 <= i <= args@.len(),
                options_spec(group, args@, 1, SettingsModel::none()) == options_spec(
                    group,
                    args@,
                    i as int,
                    settings.model(),
                ),
            decreases args.len() - i,
        {
            let flag = flag_of(group, args[i].text.as_str());
            match flag {
                Flag::Help => {
                    return Ok(settings.invoke(group, InvocationCommand::Help));
                },
                Flag::Refused => {
                    return Err(refusal(group));
                },
                Flag::Unknown => {
                    return Err(
                        text::cat2(unknown_prefix(group).as_str(), args[i].text.as_str()),
                    );
                },
                Flag::NoCleanup => {
                    settings.cleanup = false;
                    i = i + 1;
                },
                _ => {
                    if i + 1 >= args.len() {
                        return Err(
                            text::cat2("expected value after ", flag_name(flag).as_str()),
                        );
                    }
                    if let Err(m) = settings.apply(
                        flag,
                        args[i + 1].text.as_str(),
                        args[i + 1].number,
                    ) {
                        return Err(m);
                    }
                    i = i + 2;
                },
            }
        }
        settings.finish(group)
    }
}

/// A size with a unit reads as its number times the unit, in any letter case.
pub proof fn lemma_unit_is_case_blind(value: Seq<char>, other: Seq<char>, flag: Seq<char>)
    requires
        text::normal_spec(value) == text::normal_spec(other),
        size_spec(value, flag) is Ok,
    ensures
        size_spec(other, flag) == size_spec(value, flag),
{
}

/// The manual of the program.
pub const USAGE: &'static str = "Usage:
  lc-bench <metadata|blob|sender|receiver> [options]
  lc-bench node [--instance-id <id>] [--instances <path>]
  lc-bench trigger [--coordinator <id>] [--experiment <path>] [--instances <path>]
  lc-bench proxy --url <rpc-addr> [--experiment <path>] [--csv <path>]
  lc-bench health --url <rpc-addr>
  lc-bench blob-get --coordinator <id> --peer <id> [--backend <name>] [--count <n>] [--object-size <size>]

Options:
  --backend <name>        Backend under test, default: inmemory
  --operations <n>        Measured operation count, default: 10000
  --concurrency <n>       Concurrent workers or in-flight operations, default: 1
  --object-size <size>    Payload size for blob/channel workloads, default: 1MiB
  --warmup <n>            Warmup operation count, default: 1000
  --rate <ops/s>          Optional offered-load target
  --output <path>         Write JSON report to a file instead of stdout
  --csv <path>            Append proxy experiment datapoints to a CSV file
  --seed <n>              Deterministic seed for generated workloads
  -h, --help              Show this help

Coordination config defaults:
  --experiment config/local-experiment.toml  (proxy/trigger)
  --instances   config/instances/local-two.toml  (node/trigger/blob-get)

Coordination runtime:
  node starts the symmetric tarpc control-plane daemon and reads only the instance list.
  trigger is the legacy id-based submitter for one experiment.
  proxy connects directly to one node URL and asks it to orchestrate one experiment.
  node infers its instance id from hostname when --instance-id is omitted.
  --instance-id and LC_BENCH_INSTANCE_ID are explicit node identity overrides.
  trigger may read LC_BENCH_COORDINATOR_ID when --coordinator is omitted.
  proxy reads only the experiment config; peer inventory comes from the target node.
  blob-get asks the selected node to initialize expr state on itself and
  its peer, make the peer put blobs, then materialize returned refs locally.

Examples:
  cargo run -- metadata --backend inmemory --operations 100000 --concurrency 8
  cargo run -- blob --backend local-file --object-size 64MiB --operations 1000
  cargo run -- node
  LC_BENCH_INSTANCE_ID=local-a cargo run -- node
  cargo run -- proxy --url 127.0.0.1:19000 --experiment config/experiments/blob/get-materialize.toml
  cargo run -- trigger --coordinator local-a
  cargo run -- blob-get --coordinator local-a --peer local-b --backend local-file --count 1000 --object-size 64KiB
";

pub fn usage() -> (r: &'static str)
    ensures
        r@ == USAGE@,
{
    USAGE
}

/// The command that names a workload and nothing else runs it with the defaults.
pub proof fn lemma_bare_workload_has_defaults(args: Seq<Arg>, command: BenchCommand)
    requires
        args.len() == 1,
        group_spec(args[0].text@) == Some(Group::Workload(command)),
    ensures
        parse_spec(args) == Ok::<InvocationModel, Seq<char>>(bare_workload(command)),
{
    lemma_commands_differ();
}

/// A workload with the defaults.
pub open spec fn bare_workload(command: BenchCommand) -> InvocationModel {
    InvocationModel {
        command: CommandModel::Workload(command),
        bench: BenchConfig::defaults(),
        experiment: "config/local-experiment.toml"@,
        instances: "config/instances/local-two.toml"@,
    }
}

proof fn lemma_commands_differ()
    ensures
        group_spec("node"@) == Some(Group::Node),
        group_spec("trigger"@) == Some(Group::Trigger),
        group_spec("proxy"@) == Some(Group::Proxy),
        group_spec("health"@) == Some(Group::Health),
        group_spec("blob-get"@) == Some(Group::BlobGet),
        group_spec("metadata"@) == Some(Group::Workload(BenchCommand::Metadata)),
        group_spec("blob"@) == Some(Group::Workload(BenchCommand::Blob)),
        group_spec("sender"@) == Some(Group::Workload(BenchCommand::Sender)),
        group_spec("receiver"@) == Some(Group::Workload(BenchCommand::Receiver)),
        group_spec("-h"@) is None,
        group_spec("--help"@) is None,
        group_spec("help"@) is None,
{
    reveal_strlit("node");
    reveal_strlit("agent");
    reveal_strlit("trigger");
    reveal_strlit("client");
    reveal_strlit("proxy");
    reveal_strlit("health");
    reveal_strlit("blob-get");
    reveal_strlit("metadata");
    reveal_strlit("blob");
    reveal_strlit("sender");
    reveal_strlit("receiver");
    reveal_strlit("-h");
    reveal_strlit("--help");
    reveal_strlit("help");
    assert("node"@[0] == 'n');
    assert("agent"@[0] == 'a');
    assert("trigger"@[0] == 't');
    assert("client"@[0] == 'c');
    assert("proxy"@[0] == 'p');
    assert("health"@[0] == 'h');
    assert("blob-get"@[0] == 'b');
    assert("metadata"@[0] == 'm');
    assert("blob"@[0] == 'b');
    assert("sender"@[0] == 's');
    assert("receiver"@[0] == 'r');
    assert("-h"@[0] == '-');
    assert("--help"@[0] == '-');
    assert("help"@[0] == 'h');
    assert("blob"@.len() == 4 && "blob-get"@.len() == 8);
    assert("help"@.len() == 4 && "health"@.len() == 6);
}

proof fn lemma_one_mebibyte()
    ensures
        size_spec("1MiB"@, "--object-size"@) == Ok::<nat, Seq<char>>(1_048_576),
{
    reveal_strlit("1MiB");
    reveal_strlit("kib");
    reveal_strlit("mib");
    let v = "1MiB"@;
    let s = text::normal_spec(v);
    assert(text::trim_spec(v) == v);
    assert(s =~= seq!['1', 'm', 'i', 'b']);
    assert(s.subrange(1, 4) =~= "mib"@);
    assert(s.subrange(1, 4)[0] != "kib"@[0]);
    let digits = text::strip_suffix_spec(s, "mib"@)->0;
    assert(digits =~= seq!['1']);
    assert(text::trim_spec(digits) == digits);
    assert(unit_spec(s) == (digits, 1_048_576nat));
    reveal_with_fuel(text::read_digits, 2);
    assert(text::number_spec(digits, u64::MAX as nat) == Ok::<nat, text::NumberError>(1));
    assert(1nat * 1_048_576nat == 1_048_576nat);
    assert(1_048_576nat <= u64::MAX);
}

/// The manual agrees with the parser. Each default stands behind its option, as the bare command of
/// a workload has it, so do the two files, and every command of the synopsis is one. The manual is
/// written out once more because the characters of a literal are known only where it is revealed.
pub proof fn lemma_usage_agrees_with_the_parser(command: BenchCommand)
    ensures
        ({
            let bare = bare_workload(command);
            let d = bare.bench;
            &&& text::contains_spec(
                USAGE@,
                "  --backend <name>        Backend under test, default: "@ + d.backend + "\n"@,
            )
            &&& text::contains_spec(
                USAGE@,
                "  --operations <n>        Measured operation count, default: "@
                    + text::dec(d.operations as nat) + "\n"@,
            )
            &&& text::contains_spec(
                USAGE@,
                "  --concurrency <n>       Concurrent workers or in-flight operations, default: "@
                    + text::dec(d.concurrency as nat) + "\n"@,
            )
            &&& text::contains_spec(
                USAGE@,
                "  --object-size <size>    Payload size for blob/channel workloads, default: "@
                    + "1MiB"@ + "\n"@,
            )
            &&& text::contains_spec(
                USAGE@,
                "  --warmup <n>            Warmup operation count, default: "@
                    + text::dec(d.warmup_operations as nat) + "\n"@,
            )
            &&& text::contains_spec(USAGE@, "\n  --experiment "@ + bare.experiment + " "@)
            &&& text::contains_spec(USAGE@, "\n  --instances   "@ + bare.instances + " "@)
            &&& size_spec("1MiB"@, "--object-size"@) == Ok::<nat, Seq<char>>(
                d.object_size_bytes as nat,
            )
            &&& text::contains_spec(USAGE@, "\n  lc-bench "@ + "node"@ + " "@)
            &&& group_spec("node"@) == Some(Group::Node)
            &&& text::contains_spec(USAGE@, "\n  lc-bench "@ + "trigger"@ + " "@)
            &&& group_spec("trigger"@) == Some(Group::Trigger)
            &&& text::contains_spec(USAGE@, "\n  lc-bench "@ + "proxy"@ + " "@)
            &&& group_spec("proxy"@) == Some(Group::Proxy)
            &&& text::contains_spec(USAGE@, "\n  lc-bench "@ + "health"@ + " "@)
            &&& group_spec("health"@) == Some(Group::Health)
            &&& text::contains_spec(USAGE@, "\n  lc-bench "@ + "blob-get"@ + " "@)
            &&& group_spec("blob-get"@) == Some(Group::BlobGet)
            &&& text::contains_spec(
                USAGE@,
                "\n  lc-bench <"@ + "metadata"@ + "|"@ + "blob"@ + "|"@ + "sender"@ + "|"@
                    + "receiver"@ + "> [options]\n"@,
            )
            &&& group_spec("metadata"@) == Some(Group::Workload(BenchCommand::Metadata))
            &&& group_spec("blob"@) == Some(Group::Workload(BenchCommand::Blob))
            &&& group_spec("sender"@) == Some(Group::Workload(BenchCommand::Sender))
            &&& group_spec("receiver"@) == Some(Group::Workload(BenchCommand::Receiver))
        }),
{
    reveal_strlit("Usage:
  lc-bench <metadata|blob|sender|receiver> [options]
  lc-bench node [--instance-id <id>] [--instances <path>]
  lc-bench trigger [--coordinator <id>] [--experiment <path>] [--instances <path>]
  lc-bench proxy --url <rpc-addr> [--experiment <path>] [--csv <path>]
  lc-bench health --url <rpc-addr>
  lc-bench blob-get --coordinator <id> --peer <id> [--backend <name>] [--count <n>] [--object-size <size>]

Options:
  --backend <name>        Backend under test, default: inmemory
  --operations <n>        Measured operation count, default: 10000
  --concurrency <n>       Concurrent workers or in-flight operations, default: 1
  --object-size <size>    Payload size for blob/channel workloads, default: 1MiB
  --warmup <n>            Warmup operation count, default: 1000
  --rate <ops/s>          Optional offered-load target
  --output <path>         Write JSON report to a file instead of stdout
  --csv <path>            Append proxy experiment datapoints to a CSV file
  --seed <n>              Deterministic seed for generated workloads
  -h, --help              Show this help

Coordination config defaults:
  --experiment config/local-experiment.toml  (proxy/trigger)
  --instances   config/instances/local-two.toml  (node/trigger/blob-get)

Coordination runtime:
  node starts the symmetric tarpc control-plane daemon and reads only the instance list.
  trigger is the legacy id-based submitter for one experiment.
  proxy connects directly to one node URL and asks it to orchestrate one experiment.
  node infers its instance id from hostname when --instance-id is omitted.
  --instance-id and LC_BENCH_INSTANCE_ID are explicit node identity overrides.
  trigger may read LC_BENCH_COORDINATOR_ID when --coordinator is omitted.
  proxy reads only the experiment config; peer inventory comes from the target node.
  blob-get asks the selected node to initialize expr state on itself and
  its peer, make the peer put blobs, then materialize returned refs locally.

Examples:
  cargo run -- metadata --backend inmemory --operations 100000 --concurrency 8
  cargo run -- blob --backend local-file --object-size 64MiB --operations 1000
  cargo run -- node
  LC_BENCH_INSTANCE_ID=local-a cargo run -- node
  cargo run -- proxy --url 127.0.0.1:19000 --experiment config/experiments/blob/get-materialize.toml
  cargo run -- trigger --coordinator local-a
  cargo run -- blob-get --coordinator local-a --peer local-b --backend local-file --count 1000 --object-size 64KiB
");
    reveal_strlit("\n");
    reveal_with_fuel(text::dec, 6);
    let bare = bare_workload(command);
    let d = bare.bench;
    lemma_commands_differ();
    lemma_one_mebibyte();
    assert(text::occurs_at(
        USAGE@,
        "  --backend <name>        Backend under test, default: "@ + d.backend + "\n"@,
        424,
    )) by {
        reveal_strlit("  --backend <name>        Backend under test, default: ");
        reveal_strlit("inmemory");
        assert(USAGE@.subrange(424, 488)
            =~= "  --backend <name>        Backend under test, default: "@ + d.backend + "\n"@);
    }
    assert(text::occurs_at(
        USAGE@,
        "  --operations <n>        Measured operation count, default: "@
            + text::dec(d.operations as nat) + "\n"@,
        488,
    )) by {
        reveal_strlit("  --operations <n>        Measured operation count, default: ");
        assert(USAGE@.subrange(488, 555)
            =~= "  --operations <n>        Measured operation count, default: "@
                + text::dec(d.operations as nat) + "\n"@);
    }
    assert(text::occurs_at(
        USAGE@,
        "  --concurrency <n>       Concurrent workers or in-flight operations, default: "@
            + text::dec(d.concurrency as nat) + "\n"@,
        555,
    )) by {
        reveal_strlit("  --concurrency <n>       Concurrent workers or in-flight operations, default: ");
        assert(USAGE@.subrange(555, 636)
            =~= "  --concurrency <n>       Concurrent workers or in-flight operations, default: "@
                + text::dec(d.concurrency as nat) + "\n"@);
    }
    assert(text::occurs_at(
        USAGE@,
        "  --object-size <size>    Payload size for blob/channel workloads, default: "@ + "1MiB"@
            + "\n"@,
        636,
    )) by {
        reveal_strlit("  --object-size <size>    Payload size for blob/channel workloads, default: ");
        reveal_strlit("1MiB");
        assert(USAGE@.subrange(636, 717)
            =~= "  --object-size <size>    Payload size for blob/channel workloads, default: "@
                + "1MiB"@ + "\n"@);
    }
    assert(text::occurs_at(
        USAGE@,
        "  --warmup <n>            Warmup operation count, default: "@
            + text::dec(d.warmup_operations as nat) + "\n"@,
        717,
    )) by {
        reveal_strlit("  --warmup <n>            Warmup operation count, default: ");
        assert(USAGE@.subrange(717, 781)
            =~= "  --warmup <n>            Warmup operation count, default: "@
                + text::dec(d.warmup_operations as nat) + "\n"@);
    }
    assert(text::occurs_at(USAGE@, "\n  --experiment "@ + bare.experiment + " "@, 1123)) by {
        reveal_strlit("\n  --experiment ");
        reveal_strlit("config/local-experiment.toml");
        reveal_strlit(" ");
        assert(USAGE@.subrange(1123, 1168) =~= "\n  --experiment "@ + bare.experiment + " "@);
    }
    assert(text::occurs_at(USAGE@, "\n  --instances   "@ + bare.instances + " "@, 1184)) by {
        reveal_strlit("\n  --instances   ");
        reveal_strlit("config/instances/local-two.toml");
        reveal_strlit(" ");
        assert(USAGE@.subrange(1184, 1233) =~= "\n  --instances   "@ + bare.instances + " "@);
    }
    assert(text::occurs_at(USAGE@, "\n  lc-bench "@ + "node"@ + " "@, 59)) by {
        reveal_strlit("\n  lc-bench ");
        reveal_strlit("node");
        reveal_strlit(" ");
        assert(USAGE@.subrange(59, 76) =~= "\n  lc-bench "@ + "node"@ + " "@);
    }
    assert(text::occurs_at(USAGE@, "\n  lc-bench "@ + "trigger"@ + " "@, 117)) by {
        reveal_strlit("\n  lc-bench ");
        reveal_strlit("trigger");
        reveal_strlit(" ");
        assert(USAGE@.subrange(117, 137) =~= "\n  lc-bench "@ + "trigger"@ + " "@);
    }
    assert(text::occurs_at(USAGE@, "\n  lc-bench "@ + "proxy"@ + " "@, 200)) by {
        reveal_strlit("\n  lc-bench ");
        reveal_strlit("proxy");
        reveal_strlit(" ");
        assert(USAGE@.subrange(200, 218) =~= "\n  lc-bench "@ + "proxy"@ + " "@);
    }
    assert(text::occurs_at(USAGE@, "\n  lc-bench "@ + "health"@ + " "@, 271)) by {
        reveal_strlit("\n  lc-bench ");
        reveal_strlit("health");
        reveal_strlit(" ");
        assert(USAGE@.subrange(271, 290) =~= "\n  lc-bench "@ + "health"@ + " "@);
    }
    assert(text::occurs_at(USAGE@, "\n  lc-bench "@ + "blob-get"@ + " "@, 306)) by {
        reveal_strlit("\n  lc-bench ");
        reveal_strlit("blob-get");
        reveal_strlit(" ");
        assert(USAGE@.subrange(306, 327) =~= "\n  lc-bench "@ + "blob-get"@ + " "@);
    }
    assert(text::occurs_at(
        USAGE@,
        "\n  lc-bench <"@ + "metadata"@ + "|"@ + "blob"@ + "|"@ + "sender"@ + "|"@ + "receiver"@
            + "> [options]\n"@,
        6,
    )) by {
        reveal_strlit("\n  lc-bench <");
        reveal_strlit("|");
        reveal_strlit("metadata");
        reveal_strlit("blob");
        reveal_strlit("sender");
        reveal_strlit("receiver");
        reveal_strlit("> [options]\n");
        assert(USAGE@.subrange(6, 60)
            =~= "\n  lc-bench <"@ + "metadata"@ + "|"@ + "blob"@ + "|"@ + "sender"@ + "|"@ + "receiver"@
                + "> [options]\n"@);
    }
}

// ---------------------------------------------------------------------------------------------
// What a command line gives
// ---------------------------------------------------------------------------------------------
/// The last value that a command line gives to an option with two spellings, from word `i` on.
pub open spec fn given(args: Seq<Arg>, i: int, name: Seq<char>, other: Seq<char>) -> Option<
    Seq<char>,
>
    decreases args.len() - i,
{
    if i < 0 || i >= args.len() {
        None
    } else if args[i].text@ == "--no-cleanup"@ {
        given(args, i + 1, name, other)
    } else if i + 1 >= args.len() {
        None
    } else {
        match given(args, i + 2, name, other) {
            Some(later) => Some(later),
            None => if args[i].text@ == name || args[i].text@ == other {
                Some(args[i + 1].text@)
            } else {
                None
            },
        }
    }
}

/// The last number that a command line gives to `--rate`, from word `i` on.
pub open spec fn rate_given(args: Seq<Arg>, i: int) -> Option<Real>
    decreases args.len() - i,
{
    if i < 0 || i >= args.len() {
        None
    } else if args[i].text@ == "--no-cleanup"@ {
        rate_given(args, i + 1)
    } else if i + 1 >= args.len() {
        None
    } else {
        match rate_given(args, i + 2) {
            Some(later) => Some(later),
            None => if args[i].text@ == "--rate"@ {
                args[i + 1].number
            } else {
                None
            },
        }
    }
}

/// Whether a command line holds the option `--no-cleanup`, from word `i` on.
pub open spec fn keeps_blobs(args: Seq<Arg>, i: int) -> bool
    decreases args.len() - i,
{
    if i < 0 || i >= args.len() {
        false
    } else {
        args[i].text@ == "--no-cleanup"@ || (i + 1 < args.len() && keeps_blobs(args, i + 2))
    }
}

/// Whether a command line asks for the manual, from word `i` on.
pub open spec fn asks_for_help(args: Seq<Arg>, i: int) -> bool
    decreases args.len() - i,
{
    if i < 0 || i >= args.len() {
        false
    } else if args[i].text@ == "--no-cleanup"@ {
        asks_for_help(args, i + 1)
    } else {
        args[i].text@ == "-h"@ || args[i].text@ == "--help"@ || (i + 1 < args.len()
            && asks_for_help(args, i + 2))
    }
}

/// A value that is given, or the one that stands for it.
pub open spec fn or_else<T>(value: Option<T>, fallback: T) -> T {
    if value is Some {
        value->0
    } else {
        fallback
    }
}

/// The number of a text that is one.
pub open spec fn as_number(value: Option<Seq<char>>) -> Option<nat> {
    match value {
        Some(v) => Some(text::number_spec(v, u64::MAX as nat)->Ok_0),
        None => None,
    }
}

/// The number of bytes of a text that is a size.
pub open spec fn as_size(value: Option<Seq<char>>) -> Option<nat> {
    match value {
        Some(v) => Some(size_spec(v, "--object-size"@)->Ok_0),
        None => None,
    }
}

/// Whether a command has an option whose value is any text.
pub open spec fn takes_text(command: Seq<char>, word: Seq<char>) -> bool {
    ||| (command == "node"@ || command == "agent"@) && (word == "--instance-id"@ || word
        == "--instances"@)
    ||| (command == "trigger"@ || command == "client"@) && (word == "--coordinator"@ || word
        == "--coordinator-id"@ || word == "--experiment"@ || word == "--instances"@)
    ||| command == "proxy"@ && (word == "--url"@ || word == "--rpc-addr"@ || word == "--experiment"@
        || word == "--csv"@ || word == "--csv-output"@)
    ||| command == "health"@ && (word == "--url"@ || word == "--rpc-addr"@)
    ||| command == "blob-get"@ && (word == "--coordinator"@ || word == "--coordinator-id"@ || word
        == "--peer"@ || word == "--peer-instance-id"@ || word == "--run-id"@ || word == "--backend"@
        || word == "--instances"@)
    ||| is_workload(command) && (word == "--backend"@ || word == "--output"@)
}

/// Whether a command runs one workload on this machine.
pub open spec fn is_workload(command: Seq<char>) -> bool {
    command == "metadata"@ || command == "blob"@ || command == "sender"@ || command == "receiver"@
}

/// Whether each word of a command line, from word `i` on, is an option of the command or the value of
/// one. Nothing is asked of what follows a call for the manual.
pub open spec fn well_given(args: Seq<Arg>, i: int) -> bool
    decreases args.len() - i,
{
    if i < 0 || i >= args.len() {
        true
    } else {
        let command = args[0].text@;
        let word = args[i].text@;
        if word == "-h"@ || word == "--help"@ {
            true
        } else if word == "--no-cleanup"@ {
            command == "blob-get"@ && well_given(args, i + 1)
        } else {
            let value = args[i + 1];
            &&& i + 1 < args.len()
            &&& {
                ||| takes_text(command, word)
                ||| word == "--count"@ && command == "blob-get"@ && text::number_spec(
                    value.text@,
                    usize::MAX as nat,
                ) is Ok
                ||| word == "--concurrency"@ && is_workload(command) && text::number_spec(
                    value.text@,
                    usize::MAX as nat,
                ) is Ok
                ||| (word == "--operations"@ || word == "--warmup"@ || word == "--seed"@)
                    && is_workload(command) && text::number_spec(value.text@, u64::MAX as nat) is Ok
                ||| word == "--object-size"@ && (command == "blob-get"@ || is_workload(command))
                    && size_spec(value.text@, "--object-size"@) is Ok
                ||| word == "--rate"@ && is_workload(command) && value.number is Some
            }
            &&& well_given(args, i + 2)
        }
    }
}

/// What tells the words of the options apart: how long each is and two of its characters.
spec fn mark(word: Seq<char>) -> (nat, char, char) {
    (word.len(), word[2], word[4])
}

proof fn lemma_options_differ()
    ensures
        mark("--instance-id"@) == (13nat, 'i', 's'),
        mark("--instances"@) == (11nat, 'i', 's'),
        mark("--experiment"@) == (12nat, 'e', 'p'),
        mark("--coordinator"@) == (13nat, 'c', 'o'),
        mark("--coordinator-id"@) == (16nat, 'c', 'o'),
        mark("--url"@) == (5nat, 'u', 'l'),
        mark("--rpc-addr"@) == (10nat, 'r', 'c'),
        mark("--csv"@) == (5nat, 'c', 'v'),
        mark("--csv-output"@) == (12nat, 'c', 'v'),
        mark("--peer"@) == (6nat, 'p', 'e'),
        mark("--peer-instance-id"@) == (18nat, 'p', 'e'),
        mark("--run-id"@) == (8nat, 'r', 'n'),
        mark("--count"@) == (7nat, 'c', 'u'),
        mark("--object-size"@) == (13nat, 'o', 'j'),
        mark("--backend"@) == (9nat, 'b', 'c'),
        mark("--no-cleanup"@) == (12nat, 'n', '-'),
        mark("--operations"@) == (12nat, 'o', 'e'),
        mark("--concurrency"@) == (13nat, 'c', 'n'),
        mark("--warmup"@) == (8nat, 'w', 'r'),
        mark("--rate"@) == (6nat, 'r', 't'),
        mark("--output"@) == (8nat, 'o', 't'),
        mark("--seed"@) == (6nat, 's', 'e'),
        mark("--help"@) == (6nat, 'h', 'l'),
        "-h"@.len() == 2,
{
    reveal_strlit("--instance-id");
    reveal_strlit("--instances");
    reveal_strlit("--experiment");
    reveal_strlit("--coordinator");
    reveal_strlit("--coordinator-id");
    reveal_strlit("--url");
    reveal_strlit("--rpc-addr");
    reveal_strlit("--csv");
    reveal_strlit("--csv-output");
    reveal_strlit("--peer");
    reveal_strlit("--peer-instance-id");
    reveal_strlit("--run-id");
    reveal_strlit("--count");
    reveal_strlit("--object-size");
    reveal_strlit("--backend");
    reveal_strlit("--no-cleanup");
    reveal_strlit("--operations");
    reveal_strlit("--concurrency");
    reveal_strlit("--warmup");
    reveal_strlit("--rate");
    reveal_strlit("--output");
    reveal_strlit("--seed");
    reveal_strlit("--help");
    reveal_strlit("-h");
}

proof fn lemma_command_words()
    ensures
        "node"@.len() == 4 && "node"@[0] == 'n',
        "agent"@.len() == 5 && "agent"@[0] == 'a',
        "trigger"@.len() == 7 && "trigger"@[0] == 't',
        "client"@.len() == 6 && "client"@[0] == 'c',
        "proxy"@.len() == 5 && "proxy"@[0] == 'p',
        "health"@.len() == 6 && "health"@[0] == 'h',
        "blob-get"@.len() == 8 && "blob-get"@[0] == 'b',
        "metadata"@.len() == 8 && "metadata"@[0] == 'm',
        "blob"@.len() == 4 && "blob"@[0] == 'b',
        "sender"@.len() == 6 && "sender"@[0] == 's',
        "receiver"@.len() == 8 && "receiver"@[0] == 'r',
{
    reveal_strlit("node");
    reveal_strlit("agent");
    reveal_strlit("trigger");
    reveal_strlit("client");
    reveal_strlit("proxy");
    reveal_strlit("health");
    reveal_strlit("blob-get");
    reveal_strlit("metadata");
    reveal_strlit("blob");
    reveal_strlit("sender");
    reveal_strlit("receiver");
}

/// The settings that the options from word `i` on lead to.
#[verifier::rlimit(60)]
#[verifier::spinoff_prover]
proof fn lemma_options_read(group: Group, args: Seq<Arg>, i: int, s: SettingsModel) -> (t:
    SettingsModel)
    requires
        1 <= i,
        args.len() > 0,
        group_spec(args[0].text@) == Some(group),
    ensures
        !well_given(args, i) ==> options_spec(group, args, i, s) is Err,
        well_given(args, i) && asks_for_help(args, i) ==> options_spec(group, args, i, s) is Ok
            && options_spec(group, args, i, s)->Ok_0.command is Help,
        well_given(args, i) && !asks_for_help(args, i) ==> {
            &&& options_spec(group, args, i, s) == finished(group, t)
            &&& t.instance_id == (if given(args, i, "--instance-id"@, "--instance-id"@) is Some {
                given(args, i, "--instance-id"@, "--instance-id"@)
            } else {
                s.instance_id
            })
            &&& t.coordinator_id == (if given(args, i, "--coordinator"@, "--coordinator-id"@) is Some {
                given(args, i, "--coordinator"@, "--coordinator-id"@)
            } else {
                s.coordinator_id
            })
            &&& t.experiment == (if given(args, i, "--experiment"@, "--experiment"@) is Some {
                given(args, i, "--experiment"@, "--experiment"@)
            } else {
                s.experiment
            })
            &&& t.instances == (if given(args, i, "--instances"@, "--instances"@) is Some {
                given(args, i, "--instances"@, "--instances"@)
            } else {
                s.instances
            })
            &&& t.rpc_addr == (if given(args, i, "--url"@, "--rpc-addr"@) is Some {
                given(args, i, "--url"@, "--rpc-addr"@)
            } else {
                s.rpc_addr
            })
            &&& t.csv_output == (if given(args, i, "--csv"@, "--csv-output"@) is Some {
                given(args, i, "--csv"@, "--csv-output"@)
            } else {
                s.csv_output
            })
            &&& t.peer_instance_id == (if given(args, i, "--peer"@, "--peer-instance-id"@) is Some {
                given(args, i, "--peer"@, "--peer-instance-id"@)
            } else {
                s.peer_instance_id
            })
            &&& t.run_id == (if given(args, i, "--run-id"@, "--run-id"@) is Some {
                given(args, i, "--run-id"@, "--run-id"@)
            } else {
                s.run_id
            })
            &&& t.backend == (if given(args, i, "--backend"@, "--backend"@) is Some {
                given(args, i, "--backend"@, "--backend"@)
            } else {
                s.backend
            })
            &&& t.output == (if given(args, i, "--output"@, "--output"@) is Some {
                given(args, i, "--output"@, "--output"@)
            } else {
                s.output
            })
            &&& t.count == (if given(args, i, "--count"@, "--count"@) is Some {
                Some(as_number(given(args, i, "--count"@, "--count"@))->0 as usize)
            } else {
                s.count
            })
            &&& t.operations == (if given(args, i, "--operations"@, "--operations"@) is Some {
                Some(as_number(given(args, i, "--operations"@, "--operations"@))->0 as u64)
            } else {
                s.operations
            })
            &&& t.concurrency == (if given(args, i, "--concurrency"@, "--concurrency"@) is Some {
                Some(as_number(given(args, i, "--concurrency"@, "--concurrency"@))->0 as usize)
            } else {
                s.concurrency
            })
            &&& t.warmup_operations == (if given(args, i, "--warmup"@, "--warmup"@) is Some {
                Some(as_number(given(args, i, "--warmup"@, "--warmup"@))->0 as u64)
            } else {
                s.warmup_operations
            })
            &&& t.seed == (if given(args, i, "--seed"@, "--seed"@) is Some {
                Some(as_number(given(args, i, "--seed"@, "--seed"@))->0 as u64)
            } else {
                s.seed
            })
            &&& t.object_size_bytes == (if given(args, i, "--object-size"@, "--object-size"@) is Some {
                Some(as_size(given(args, i, "--object-size"@, "--object-size"@))->0 as u64)
            } else {
                s.object_size_bytes
            })
            &&& t.rate == (if rate_given(args, i) is Some {
                rate_given(args, i)
            } else {
                s.rate
            })
            &&& t.cleanup == (s.cleanup && !keeps_blobs(args, i))
        },
    decreases args.len() - i,
{
    lemma_options_differ();
    lemma_command_words();
    if i >= args.len() {
        s
    } else {
        let flag = flag_spec(group, args[i].text@);
        match flag {
            Flag::Help | Flag::Refused | Flag::Unknown => s,
            Flag::NoCleanup => lemma_options_read(
                group,
                args,
                i + 1,
                SettingsModel { cleanup: false, ..s },
            ),
            _ => if i + 1 >= args.len() {
                s
            } else {
                match applied_spec(s, flag, args[i + 1].text@, args[i + 1].number) {
                    Err(_) => s,
                    Ok(u) => {
                        let value = args[i + 1].text@;
                        text::lemma_number_in_range(value, usize::MAX as nat);
                        text::lemma_number_in_range(value, u64::MAX as nat);
                        text::lemma_number_in_any_range(value, usize::MAX as nat, u64::MAX as nat);
                        lemma_options_read(group, args, i + 2, u)
                    },
                }
            },
        }
    }
}

/// Whether a command line gives its command all that it needs: the address of a node to `proxy` and
/// `health`, the peer to `blob-get`, and no zero where something is to be done.
pub open spec fn gives_enough(args: Seq<Arg>) -> bool {
    let command = args[0].text@;
    &&& (command == "proxy"@ || command == "health"@) ==> given(
        args,
        1,
        "--url"@,
        "--rpc-addr"@,
    ) is Some
    &&& command == "blob-get"@ ==> {
        &&& given(args, 1, "--peer"@, "--peer-instance-id"@) is Some
        &&& as_number(given(args, 1, "--count"@, "--count"@)) != Some(0nat)
        &&& as_size(given(args, 1, "--object-size"@, "--object-size"@)) != Some(0nat)
    }
    &&& is_workload(command) ==> {
        &&& as_number(given(args, 1, "--concurrency"@, "--concurrency"@)) != Some(0nat)
        &&& as_number(given(args, 1, "--operations"@, "--operations"@)) != Some(0nat)
        &&& rate_given(args, 1) is Some ==> !rate_given(args, 1)->0.le_spec(Real::zero_spec())
    }
}

/// Whether a word is the name of a command.
pub open spec fn is_command(word: Seq<char>) -> bool {
    ||| word == "node"@ || word == "agent"@
    ||| word == "trigger"@ || word == "client"@
    ||| word == "proxy"@ || word == "health"@ || word == "blob-get"@
    ||| is_workload(word)
}

/// What is asked of the number that stands for the last value of an option.
proof fn lemma_last_number_is_one(args: Seq<Arg>, i: int, name: Seq<char>, max: nat)
    requires
        1 <= i,
        well_given(args, i),
        !asks_for_help(args, i),
        max <= u64::MAX,
        ({
            ||| name == "--count"@ && max == usize::MAX
            ||| name == "--concurrency"@ && max == usize::MAX
            ||| (name == "--operations"@ || name == "--warmup"@ || name == "--seed"@) && max
                == u64::MAX
        }),
    ensures
        given(args, i, name, name) is Some ==> {
            &&& text::number_spec(given(args, i, name, name)->0, max) is Ok
            &&& text::number_spec(given(args, i, name, name)->0, max)->Ok_0 <= max
            &&& as_number(given(args, i, name, name)) == Some(
                text::number_spec(given(args, i, name, name)->0, max)->Ok_0,
            )
        },
    decreases args.len() - i,
{
    lemma_options_differ();
    lemma_command_words();
    if i < args.len() {
        if args[i].text@ == "--no-cleanup"@ {
            lemma_last_number_is_one(args, i + 1, name, max);
        } else if i + 1 < args.len() {
            lemma_last_number_is_one(args, i + 2, name, max);
            text::lemma_number_in_range(args[i + 1].text@, max);
            text::lemma_number_in_any_range(args[i + 1].text@, max, u64::MAX as nat);
        }
    }
}

proof fn lemma_last_size_is_one(args: Seq<Arg>, i: int)
    requires
        1 <= i,
        well_given(args, i),
        !asks_for_help(args, i),
    ensures
        given(args, i, "--object-size"@, "--object-size"@) is Some ==> {
            let value = given(args, i, "--object-size"@, "--object-size"@)->0;
            &&& size_spec(value, "--object-size"@) is Ok
            &&& size_spec(value, "--object-size"@)->Ok_0 <= u64::MAX
        },
    decreases args.len() - i,
{
    lemma_options_differ();
    lemma_command_words();
    if i < args.len() {
        if args[i].text@ == "--no-cleanup"@ {
            lemma_last_size_is_one(args, i + 1);
        } else if i + 1 < args.len() {
            lemma_last_size_is_one(args, i + 2);
        }
    }
}

/// A command line is taken just where each word of it is an option of its command or the value of
/// one, and where it asks for the manual or gives the command all that it needs. It is answered with
/// the manual just where it asks for it.
pub proof fn lemma_command_lines_that_are_taken(args: Seq<Arg>)
    requires
        args.len() > 0,
        is_command(args[0].text@),
    ensures
        parse_spec(args) is Ok <==> well_given(args, 1) && (asks_for_help(args, 1) || gives_enough(
            args,
        )),
        parse_spec(args) is Ok ==> (parse_spec(args)->Ok_0.command is Help <==> asks_for_help(
            args,
            1,
        )),
{
    lemma_commands_differ();
    lemma_aliases();
    lemma_command_words();
    let group = group_spec(args[0].text@)->0;
    let t = lemma_options_read(group, args, 1, SettingsModel::none());
    if well_given(args, 1) && !asks_for_help(args, 1) {
        lemma_last_number_is_one(args, 1, "--count"@, usize::MAX as nat);
        lemma_last_number_is_one(args, 1, "--concurrency"@, usize::MAX as nat);
        lemma_last_number_is_one(args, 1, "--operations"@, u64::MAX as nat);
        lemma_last_size_is_one(args, 1);
    }
}

proof fn lemma_aliases()
    ensures
        group_spec("agent"@) == Some(Group::Node),
        group_spec("client"@) == Some(Group::Trigger),
        forall|word: Seq<char>| #[trigger]
            group_spec(word) is Some ==> is_command(word) && word != "-h"@ && word != "--help"@
                && word != "help"@,
{
    lemma_command_words();
    lemma_commands_differ();
}

/// A word that is no command, and no call for the manual, is refused by its name.
pub proof fn lemma_other_commands_are_refused(args: Seq<Arg>)
    requires
        args.len() > 0,
        !is_command(args[0].text@),
        args[0].text@ != "-h"@ && args[0].text@ != "--help"@ && args[0].text@ != "help"@,
    ensures
        parse_spec(args) == Err::<InvocationModel, Seq<char>>(
            "unknown benchmark command: "@ + args[0].text@,
        ),
{
    lemma_aliases();
}

/// What is taken holds what the command line gives. The two paths are the last values of
/// `--experiment` and of `--instances`, each whatever the other is, or the usual files. Each other
/// option is found, by its last value, in the one place that is named after it.
pub proof fn lemma_options_are_kept(args: Seq<Arg>, inv: InvocationModel)
    requires
        parse_spec(args) == Ok::<InvocationModel, Seq<char>>(inv),
        !(inv.command is Help),
    ensures
        inv.experiment == or_else(
            given(args, 1, "--experiment"@, "--experiment"@),
            "config/local-experiment.toml"@,
        ),
        inv.instances == or_else(
            given(args, 1, "--instances"@, "--instances"@),
            "config/instances/local-two.toml"@,
        ),
        match inv.command {
            CommandModel::Node { instance_id } => {
                &&& args[0].text@ == "node"@ || args[0].text@ == "agent"@
                &&& instance_id == given(args, 1, "--instance-id"@, "--instance-id"@)
            },
            CommandModel::Trigger { coordinator_id } => {
                &&& args[0].text@ == "trigger"@ || args[0].text@ == "client"@
                &&& coordinator_id == given(args, 1, "--coordinator"@, "--coordinator-id"@)
            },
            CommandModel::Proxy { rpc_addr, csv_output } => {
                &&& args[0].text@ == "proxy"@
                &&& Some(rpc_addr) == given(args, 1, "--url"@, "--rpc-addr"@)
                &&& csv_output == given(args, 1, "--csv"@, "--csv-output"@)
            },
            CommandModel::Health { rpc_addr } => {
                &&& args[0].text@ == "health"@
                &&& Some(rpc_addr) == given(args, 1, "--url"@, "--rpc-addr"@)
            },
            CommandModel::BlobGet(o) => {
                &&& args[0].text@ == "blob-get"@
                &&& o.coordinator_id == given(args, 1, "--coordinator"@, "--coordinator-id"@)
                &&& Some(o.peer_instance_id) == given(args, 1, "--peer"@, "--peer-instance-id"@)
                &&& o.run_id == or_else(
                    given(args, 1, "--run-id"@, "--run-id"@),
                    "blob-get-direct"@,
                )
                &&& o.count == or_else(as_number(given(args, 1, "--count"@, "--count"@)), 10nat)
                &&& o.object_size_bytes == or_else(
                    as_size(given(args, 1, "--object-size"@, "--object-size"@)),
                    65_536nat,
                )
                &&& o.blob_store_backend == or_else(
                    given(args, 1, "--backend"@, "--backend"@),
                    "local-file"@,
                )
                &&& o.cleanup == !keeps_blobs(args, 1)
            },
            CommandModel::Workload(command) => {
                &&& args[0].text@ == (match command {
                    BenchCommand::Metadata => "metadata"@,
                    BenchCommand::Blob => "blob"@,
                    BenchCommand::Sender => "sender"@,
                    BenchCommand::Receiver => "receiver"@,
                })
                &&& inv.bench.backend == or_else(
                    given(args, 1, "--backend"@, "--backend"@),
                    "inmemory"@,
                )
                &&& inv.bench.operations == or_else(
                    as_number(given(args, 1, "--operations"@, "--operations"@)),
                    10_000nat,
                )
                &&& inv.bench.concurrency == or_else(
                    as_number(given(args, 1, "--concurrency"@, "--concurrency"@)),
                    1nat,
                )
                &&& inv.bench.object_size_bytes == or_else(
                    as_size(given(args, 1, "--object-size"@, "--object-size"@)),
                    1_048_576nat,
                )
                &&& inv.bench.warmup_operations == or_else(
                    as_number(given(args, 1, "--warmup"@, "--warmup"@)),
                    1_000nat,
                )
                &&& inv.bench.offered_rate_per_s == rate_given(args, 1)
                &&& inv.bench.output == given(args, 1, "--output"@, "--output"@)
                &&& inv.bench.seed == or_else(
                    as_number(given(args, 1, "--seed"@, "--seed"@)),
                    0nat,
                )
            },
            CommandModel::Help => false,
        },
        !(inv.command is Workload) ==> {
            &&& inv.bench.backend == "inmemory"@
            &&& inv.bench.operations == 10_000
            &&& inv.bench.concurrency == 1
            &&& inv.bench.object_size_bytes == 1_048_576
            &&& inv.bench.warmup_operations == 1_000
            &&& inv.bench.offered_rate_per_s is None
            &&& inv.bench.output is None
            &&& inv.bench.seed == 0
        },
{
    lemma_commands_differ();
    lemma_aliases();
    lemma_command_words();
    let group = group_spec(args[0].text@)->0;
    let t = lemma_options_read(group, args, 1, SettingsModel::none());
    lemma_last_number_is_one(args, 1, "--count"@, usize::MAX as nat);
    lemma_last_number_is_one(args, 1, "--concurrency"@, usize::MAX as nat);
    lemma_last_number_is_one(args, 1, "--operations"@, u64::MAX as nat);
    lemma_last_number_is_one(args, 1, "--warmup"@, u64::MAX as nat);
    lemma_last_number_is_one(args, 1, "--seed"@, u64::MAX as nat);
    lemma_last_size_is_one(args, 1);
}

proof fn lemma_given_at_the_end(args: Seq<Arg>, i: int, option: Arg, value: Arg, name: Seq<char>)
    requires
        1 <= i <= args.len(),
        well_given(args, i),
        !asks_for_help(args, i),
        option.text@ == "--experiment"@,
    ensures
        name == "--experiment"@ ==> given(args + seq![option, value], i, name, name) == Some(
            value.text@,
        ),
        name == "--instances"@ ==> given(args + seq![option, value], i, name, name) == given(
            args,
            i,
            name,
            name,
        ),
    decreases args.len() - i,
{
    lemma_options_differ();
    let longer = args + seq![option, value];
    reveal_with_fuel(given, 2);
    if i < args.len() {
        assert(longer[i] == args[i]);
        if args[i].text@ == "--no-cleanup"@ {
            lemma_given_at_the_end(args, i + 1, option, value, name);
        } else if i + 1 < args.len() {
            assert(longer[i + 1] == args[i + 1]);
            lemma_given_at_the_end(args, i + 2, option, value, name);
        }
    } else {
        assert(longer[i] == option);
        assert(longer[i + 1] == value);
    }
}

/// A command line that is taken and that ends in `--experiment` and a path names that path as the
/// experiment, whatever stands before it, and the same instances as without these two words.
pub proof fn lemma_last_experiment_wins(
    args: Seq<Arg>,
    option: Arg,
    path: Arg,
    inv: InvocationModel,
)
    requires
        args.len() > 0,
        well_given(args, 1),
        !asks_for_help(args, 1),
        option.text@ == "--experiment"@,
        parse_spec(args + seq![option, path]) == Ok::<InvocationModel, Seq<char>>(inv),
        !(inv.command is Help),
    ensures
        inv.experiment == path.text@,
        inv.instances == or_else(
            given(args, 1, "--instances"@, "--instances"@),
            "config/instances/local-two.toml"@,
        ),
        parse_spec(args) is Ok ==> inv.instances == parse_spec(args)->Ok_0.instances,
{
    let longer = args + seq![option, path];
    lemma_options_are_kept(longer, inv);
    lemma_given_at_the_end(args, 1, option, path, "--experiment"@);
    lemma_given_at_the_end(args, 1, option, path, "--instances"@);
    assert(longer[0] == args[0]);
    lemma_aliases();
    if parse_spec(args) is Ok {
        lemma_command_lines_that_are_taken(args);
        lemma_options_are_kept(args, parse_spec(args)->Ok_0);
    }
}

/// A size is the number before its unit, which is a power of 1024 or of 1000, or of no unit at all.
/// What does not fit in 64 bits is no size.
pub proof fn lemma_sizes_by_unit(value: Seq<char>, flag: Seq<char>, digits: Seq<char>, n: nat)
    requires
        text::number_spec(text::trim_spec(digits), u64::MAX as nat) == Ok::<
            nat,
            text::NumberError,
        >(n),
    ensures
        text::normal_spec(value) == digits + "kib"@ ==> is_size(value, flag, n * 1024),
        text::normal_spec(value) == digits + "mib"@ ==> is_size(value, flag, n * 1024 * 1024),
        text::normal_spec(value) == digits + "gib"@ ==> is_size(value, flag, n * 1024 * 1024 * 1024),
        text::normal_spec(value) == digits + "kb"@ ==> is_size(value, flag, n * 1000),
        text::normal_spec(value) == digits + "mb"@ ==> is_size(value, flag, n * 1000 * 1000),
        text::normal_spec(value) == digits + "gb"@ ==> is_size(value, flag, n * 1000 * 1000 * 1000),
        text::normal_spec(value) == digits && (digits.len() > 0 && digits.last() != 'b') ==> is_size(
            value,
            flag,
            n,
        ),
{
    reveal_strlit("kib");
    reveal_strlit("mib");
    reveal_strlit("gib");
    reveal_strlit("kb");
    reveal_strlit("mb");
    reveal_strlit("gb");
    let s = text::normal_spec(value);
    let l = s.len() as int;
    assert(s == digits + "kib"@ ==> s[l - 3] == 'k' && s[l - 2] == 'i');
    assert(s == digits + "mib"@ ==> s[l - 3] == 'm' && s[l - 2] == 'i');
    assert(s == digits + "gib"@ ==> s[l - 3] == 'g' && s[l - 2] == 'i');
    if s == digits + "kib"@ {
        assert(s.subrange(l - 3, l) =~= "kib"@);
        assert(s.subrange(0, l - 3) =~= digits);
    } else if s == digits + "mib"@ {
        assert(s.subrange(l - 3, l) =~= "mib"@);
        assert(s.subrange(l - 3, l)[0] != "kib"@[0]);
        assert(s.subrange(0, l - 3) =~= digits);
        assert(n * 1024 * 1024 == n * 1_048_576) by (nonlinear_arith);
    } else if s == digits + "gib"@ {
        assert(s.subrange(l - 3, l) =~= "gib"@);
        assert(s.subrange(l - 3, l)[0] != "kib"@[0]);
        assert(s.subrange(l - 3, l)[0] != "mib"@[0]);
        assert(s.subrange(0, l - 3) =~= digits);
        assert(n * 1024 * 1024 * 1024 == n * 1_073_741_824) by (nonlinear_arith);
    } else if s == digits + "kb"@ || s == digits + "mb"@ || s == digits + "gb"@ {
        assert(s.subrange(l - 2, l)[0] == s[l - 2]);
        assert(s[l - 2] != 'i');
        if l >= 3 {
            assert(s.subrange(l - 3, l)[1] == s[l - 2]);
            assert("kib"@[1] == 'i' && "mib"@[1] == 'i' && "gib"@[1] == 'i');
        }
        assert(s.subrange(0, l - 2) =~= digits);
        assert("kb"@[0] == 'k' && "mb"@[0] == 'm' && "gb"@[0] == 'g');
        if s == digits + "kb"@ {
            assert(s.subrange(l - 2, l) =~= "kb"@);
        } else if s == digits + "mb"@ {
            assert(s.subrange(l - 2, l) =~= "mb"@);
            assert(n * 1000 * 1000 == n * 1_000_000) by (nonlinear_arith);
        } else {
            assert(s.subrange(l - 2, l) =~= "gb"@);
            assert(n * 1000 * 1000 * 1000 == n * 1_000_000_000) by (nonlinear_arith);
        }
    } else if s == digits && digits.len() > 0 && digits.last() != 'b' {
        if l >= 3 {
            assert(s.subrange(l - 3, l)[2] == s[l - 1]);
            assert("kib"@[2] == 'b' && "mib"@[2] == 'b' && "gib"@[2] == 'b');
        }
        if l >= 2 {
            assert(s.subrange(l - 2, l)[1] == s[l - 1]);
            assert("kb"@[1] == 'b' && "mb"@[1] == 'b' && "gb"@[1] == 'b');
        }
        assert(n * 1 == n);
    }
}

/// Whether a text is a size of `bytes` bytes, or too large where 64 bits do not hold so many.
pub open spec fn is_size(value: Seq<char>, flag: Seq<char>, bytes: nat) -> bool {
    if bytes <= 0xffff_ffff_ffff_ffff {
        size_spec(value, flag) == Ok::<nat, Seq<char>>(bytes)
    } else {
        size_spec(value, flag) == Err::<nat, Seq<char>>(flag + " is too large: "@ + value)
    }
}

/// What is no number is told with the option that it was given to, and so is what is no size.
pub proof fn lemma_values_that_are_refused(value: Seq<char>, flag: Seq<char>, max: nat)
    ensures
        unsigned_spec(value, flag, max) is Ok <==> text::number_spec(value, max) is Ok,
        unsigned_spec(value, flag, max) is Ok ==> unsigned_spec(value, flag, max)->Ok_0
            == text::number_spec(value, max)->Ok_0,
        unsigned_spec(value, flag, max) is Err ==> unsigned_spec(value, flag, max)->Err_0 == flag
            + " must be an unsigned integer, got "@ + value,
        size_spec(value, flag) is Err ==> {
            ||| size_spec(value, flag)->Err_0 == flag
                + " must be a byte count or size like 64MiB, got "@ + value
            ||| size_spec(value, flag)->Err_0 == flag + " is too large: "@ + value
        },
{
}

/// An option that no command has is told by its name, one of another command by where it belongs, and
/// one without its value by its usual name.
pub proof fn lemma_first_option_is_refused(args: Seq<Arg>)
    requires
        args.len() > 1,
        is_command(args[0].text@),
    ensures
        ({
            let command = args[0].text@;
            let word = args[1].text@;
            let r = parse_spec(args);
            &&& command == "node"@ && word == "--experiment"@ ==> r == Err::<
                InvocationModel,
                Seq<char>,
            >("node does not read --experiment; submit experiments through proxy or trigger"@)
            &&& command == "proxy"@ && word == "--instances"@ ==> r == Err::<
                InvocationModel,
                Seq<char>,
            >("proxy does not read --instances; the target node uses its startup instance list"@)
            &&& command == "blob-get"@ && word == "--experiment"@ ==> r == Err::<
                InvocationModel,
                Seq<char>,
            >("blob-get does not read --experiment; use --run-id/--count/--backend directly"@)
            &&& args.len() == 2 && command == "proxy"@ && word == "--rpc-addr"@ ==> r == Err::<
                InvocationModel,
                Seq<char>,
            >("expected value after "@ + "--url"@)
            &&& command == "node"@ && word == "--url"@ ==> r == Err::<InvocationModel, Seq<char>>(
                "unknown node option: "@ + word,
            )
            &&& command == "trigger"@ && word == "--url"@ ==> r == Err::<InvocationModel, Seq<char>>(
                "unknown trigger option: "@ + word,
            )
            &&& command == "proxy"@ && word == "--seed"@ ==> r == Err::<InvocationModel, Seq<char>>(
                "unknown proxy option: "@ + word,
            )
            &&& command == "health"@ && word == "--seed"@ ==> r == Err::<InvocationModel, Seq<char>>(
                "unknown health option: "@ + word,
            )
            &&& command == "blob-get"@ && word == "--seed"@ ==> r == Err::<
                InvocationModel,
                Seq<char>,
            >("unknown blob-get option: "@ + word)
            &&& is_workload(command) && word == "--url"@ ==> r == Err::<InvocationModel, Seq<char>>(
                "unknown option: "@ + word,
            )
        }),
{
    lemma_options_differ();
    lemma_commands_differ();
    lemma_aliases();
    lemma_command_words();
}

/// A command line that gives too little is told what is missing, or what must not be zero.
pub proof fn lemma_what_is_missing_is_told(args: Seq<Arg>)
    requires
        args.len() > 0,
        is_command(args[0].text@),
        well_given(args, 1),
        !asks_for_help(args, 1),
        parse_spec(args) is Err,
    ensures
        ({
            let command = args[0].text@;
            let said = parse_spec(args)->Err_0;
            &&& command == "proxy"@ ==> said == "proxy requires --url <rpc-addr>"@
            &&& command == "health"@ ==> said == "health requires --url <rpc-addr>"@
            &&& command == "blob-get"@ ==> {
                ||| said == "blob-get requires --peer <id>"@ && given(
                    args,
                    1,
                    "--peer"@,
                    "--peer-instance-id"@,
                ) is None
                ||| said == "--count must be greater than zero"@ && as_number(
                    given(args, 1, "--count"@, "--count"@),
                ) == Some(0nat)
                ||| said == "--object-size must be greater than zero"@ && as_size(
                    given(args, 1, "--object-size"@, "--object-size"@),
                ) == Some(0nat)
            }
            &&& is_workload(command) ==> {
                ||| said == "--concurrency must be greater than zero"@ && as_number(
                    given(args, 1, "--concurrency"@, "--concurrency"@),
                ) == Some(0nat)
                ||| said == "--operations must be greater than zero"@ && as_number(
                    given(args, 1, "--operations"@, "--operations"@),
                ) == Some(0nat)
                ||| said == "--rate must be greater than zero"@ && rate_given(args, 1) is Some
            }
            &&& command == "proxy"@ || command == "health"@ || command == "blob-get"@ || is_workload(
                command,
            )
        }),
{
    lemma_commands_differ();
    lemma_aliases();
    lemma_command_words();
    let group = group_spec(args[0].text@)->0;
    let t = lemma_options_read(group, args, 1, SettingsModel::none());
    lemma_last_number_is_one(args, 1, "--count"@, usize::MAX as nat);
    lemma_last_number_is_one(args, 1, "--concurrency"@, usize::MAX as nat);
    lemma_last_number_is_one(args, 1, "--operations"@, u64::MAX as nat);
    lemma_last_size_is_one(args, 1);
}

/// What `Invocation::parse` returns of a command line that ends in `--experiment` and a path names that
/// path as the experiment, and as the instances what the words before say or the usual file.
pub proof fn lemma_parse_returns(args: &Vec<Arg>, r: Result<Invocation, String>)
    requires
        call_ensures(Invocation::parse, (args,), r),
        r is Ok,
        !(r->Ok_0.command is Help),
    ensures
        r->Ok_0.config_paths.experiment@ == or_else(
            given(args@, 1, "--experiment"@, "--experiment"@),
            "config/local-experiment.toml"@,
        ),
        r->Ok_0.config_paths.instances@ == or_else(
            given(args@, 1, "--instances"@, "--instances"@),
            "config/instances/local-two.toml"@,
        ),
        args@.len() > 3 && args@[args@.len() - 2].text@ == "--experiment"@ && well_given(
            args@.take(args@.len() - 2),
            1,
        ) && !asks_for_help(args@.take(args@.len() - 2), 1) ==> r->Ok_0.config_paths.experiment@
            == args@[args@.len() - 1].text@,
{
    let inv = r->Ok_0.model();
    assert(parse_spec(args@) == Ok::<InvocationModel, Seq<char>>(inv));
    lemma_options_are_kept(args@, inv);
    let n = args@.len();
    if n > 3 && args@[n - 2].text@ == "--experiment"@ && well_given(args@.take(n - 2), 1)
        && !asks_for_help(args@.take(n - 2), 1) {
        let start = args@.take(n - 2);
        assert(start + seq![args@[n - 2], args@[n - 1]] =~= args@);
        lemma_last_experiment_wins(start, args@[n - 2], args@[n - 1], inv);
    }
}

} // verus!
