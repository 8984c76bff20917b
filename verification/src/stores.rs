//! Which store a configuration asks for, and everything that has to be known to open it.
use crate::binary64::Real;
use crate::config::{Entry, ExperimentSpec, InstanceConfig};
use crate::environment;
use crate::environment::{AwsClientConfig, EnvReader};
use crate::naming;
use crate::native;
use crate::native::{NativeField, NativeValue};
use crate::retry;
use crate::table;
use crate::text;
use vstd::prelude::*;
use vstd::string::*;

verus! {

/// 0.9
pub const DEFAULT_ACCEL_PROBABILITY: u64 = 0x3fec_cccc_cccc_cccd;

/// Seconds to wait for a tracker or metadata table to come up.
pub const DEFAULT_INIT_WAIT_TIMEOUT_S: u64 = 20;

// ---------------------------------------------------------------------------------------------
// Blob stores
// ---------------------------------------------------------------------------------------------
#[derive(Clone, Copy, Debug, PartialEq, Eq, Structural)]
pub enum BlobBackend {
    LocalFile,
    S3,
    P2p,
}

/// The name of a backend: trimmed, in lower case, and `localfs` under its usual name.
pub open spec fn normalize_backend_spec(value: Seq<char>) -> Seq<char> {
    if text::normal_spec(value) == "localfs"@ {
        "local-file"@
    } else {
        text::normal_spec(value)
    }
}

pub fn normalize_backend(value: &str) -> (r: String)
    ensures
        r@ == normalize_backend_spec(value@),
{
    let word = text::normal(value);
    if text::same(word.as_str(), "localfs") {
        "local-file".to_owned()
    } else {
        word
    }
}

pub open spec fn blob_backend_spec(value: Seq<char>) -> Result<BlobBackend, Seq<char>> {
    let name = normalize_backend_spec(value);
    if name == "local-file"@ {
        Ok(BlobBackend::LocalFile)
    } else if name == "s3"@ {
        Ok(BlobBackend::S3)
    } else if name == "p2p"@ {
        Ok(BlobBackend::P2p)
    } else {
        Err("unsupported blob store backend: "@ + name)
    }
}

/// The backend of that name.
pub fn blob_backend(value: &str) -> (r: Result<BlobBackend, String>)
    ensures
        environment::plain_result(r) == blob_backend_spec(value@),
{
    let name = normalize_backend(value);
    if text::same(name.as_str(), "local-file") {
        Ok(BlobBackend::LocalFile)
    } else if text::same(name.as_str(), "s3") {
        Ok(BlobBackend::S3)
    } else if text::same(name.as_str(), "p2p") {
        Ok(BlobBackend::P2p)
    } else {
        Err(text::cat2("unsupported blob store backend: ", name.as_str()))
    }
}

impl BlobBackend {
    pub open spec fn name_spec(self) -> Seq<char> {
        match self {
            BlobBackend::LocalFile => "local-file"@,
            BlobBackend::S3 => "s3"@,
            BlobBackend::P2p => "p2p"@,
        }
    }

    pub fn name(self) -> (r: String)
        ensures
            r@ == self.name_spec(),
    {
        match self {
            BlobBackend::LocalFile => "local-file".to_owned(),
            BlobBackend::S3 => "s3".to_owned(),
            BlobBackend::P2p => "p2p".to_owned(),
        }
    }
}

/// The directory of a store: the one asked for, or the usual one below the run directory.
pub open spec fn store_dir_spec(
    root_dir: Option<Seq<char>>,
    run_dir: Seq<char>,
    usual: Seq<char>,
) -> Seq<char> {
    match root_dir {
        Some(dir) => dir,
        None => naming::path_join_spec(run_dir, usual),
    }
}

fn store_dir(root_dir: &Option<String>, run_dir: &str, usual: &str) -> (r: String)
    ensures
        r@ == store_dir_spec(text::option_view(*root_dir), run_dir@, usual@),
{
    match root_dir {
        Some(dir) => dir.clone(),
        None => naming::path_join(run_dir, usual),
    }
}

/// The directory of a local-file store.
pub fn local_file_root(root_dir: &Option<String>, run_dir: &str) -> (r: String)
    ensures
        r@ == store_dir_spec(text::option_view(*root_dir), run_dir@, "blob-store"@),
{
    store_dir(root_dir, run_dir, "blob-store")
}

/// The cache directory of a peer-to-peer store.
pub fn p2p_cache_dir(root_dir: &Option<String>, run_dir: &str) -> (r: String)
    ensures
        r@ == store_dir_spec(text::option_view(*root_dir), run_dir@, "blob-store-p2p-cache"@),
{
    store_dir(root_dir, run_dir, "blob-store-p2p-cache")
}

/// Details of a store with one more among them, where it has a value, in the order of their keys.
pub open spec fn with_detail(
    so_far: Seq<(Seq<char>, Seq<char>)>,
    key: Seq<char>,
    value: Option<Seq<char>>,
) -> Seq<(Seq<char>, Seq<char>)> {
    match value {
        Some(v) => table::with_pair(so_far, key, v),
        None => so_far,
    }
}

fn add_detail(details: &mut Vec<Entry>, key: &str, value: &str)
    ensures
        environment::entry_views(final(details)@) == with_detail(
            environment::entry_views(old(details)@),
            key@,
            Some(value@),
        ),
        table::is_table(old(details)@) ==> table::is_table(final(details)@),
{
    table::put_entry(details, key, value);
}

fn add_optional_detail(details: &mut Vec<Entry>, key: &str, value: &Option<String>)
    ensures
        environment::entry_views(final(details)@) == with_detail(
            environment::entry_views(old(details)@),
            key@,
            text::option_view(*value),
        ),
        table::is_table(old(details)@) ==> table::is_table(final(details)@),
{
    if let Some(v) = value {
        table::put_entry(details, key, v.as_str());
    }
}

fn no_details() -> (r: Vec<Entry>)
    ensures
        environment::entry_views(r@) == Seq::<(Seq<char>, Seq<char>)>::empty(),
        table::is_table(r@),
{
    let out: Vec<Entry> = Vec::new();
    assert(environment::entry_views(out@) =~= Seq::<(Seq<char>, Seq<char>)>::empty());
    out
}

/// The details of a local-file store.
pub open spec fn local_file_details_spec(
    resource_dir: Option<Seq<char>>,
    root_dir: Seq<char>,
) -> Seq<(Seq<char>, Seq<char>)> {
    let s = with_detail(Seq::empty(), "resource_dir"@, resource_dir);
    with_detail(s, "root_dir"@, Some(root_dir))
}

pub fn local_file_details(resource_dir: &Option<String>, root_dir: &str) -> (r: Vec<Entry>)
    ensures
        environment::entry_views(r@) == local_file_details_spec(
            text::option_view(*resource_dir),
            root_dir@,
        ),
        table::is_table(r@),
{
    let mut details = no_details();
    add_optional_detail(&mut details, "resource_dir", resource_dir);
    add_detail(&mut details, "root_dir", root_dir);
    details
}

/// An S3 store to open.
#[derive(Debug)]
pub struct S3StorePlan {
    pub bucket: String,
    pub key_prefix: String,
    pub details: Vec<Entry>,
}

pub open spec fn bucket_prefix_keys() -> Seq<Seq<char>> {
    seq!["LC_BENCH_S3_BUCKET_PREFIX"@, "LC_BENCH_S3_BUCKET"@, "S3_BUCKET_PREFIX"@, "S3_BUCKET"@]
}

pub open spec fn key_prefix_keys() -> Seq<Seq<char>> {
    seq!["LC_BENCH_S3_KEY_PREFIX"@, "S3_KEY_PREFIX"@]
}

/// What the bucket prefix is called where it is missing.
pub open spec fn bucket_prefix_name(reader: EnvReader) -> Seq<char> {
    if reader is BlobPut {
        "S3 blob put bucket prefix"@
    } else {
        "S3 bucket prefix"@
    }
}

pub open spec fn bucket_prefix_spec(
    reader: EnvReader,
    experiment: ExperimentSpec,
    process: Seq<Entry>,
) -> Result<Seq<char>, Seq<char>> {
    environment::required_env_spec(
        reader,
        experiment.env@,
        process,
        bucket_prefix_keys(),
        bucket_prefix_name(reader),
    )
}

/// The key prefix: as configured, or the run and `owner`.
pub open spec fn key_prefix_spec(
    reader: EnvReader,
    experiment: ExperimentSpec,
    process: Seq<Entry>,
    owner: Seq<char>,
) -> Seq<char> {
    match environment::env_any_spec(reader, experiment.env@, process, key_prefix_keys()) {
        Some(v) => v,
        None => experiment.run.run_id@ + "/"@ + owner,
    }
}

impl S3StorePlan {
    pub open spec fn fits(
        self,
        reader: EnvReader,
        experiment: ExperimentSpec,
        process: Seq<Entry>,
        resource_id: Seq<char>,
        owner: Seq<char>,
        resource_dir: Option<Seq<char>>,
    ) -> bool {
        let prefix = bucket_prefix_spec(reader, experiment, process)->Ok_0;
        &&& self.bucket@ == naming::s3_bucket_name_spec(prefix, resource_id)
        &&& self.key_prefix@ == key_prefix_spec(reader, experiment, process, owner)
        &&& environment::entry_views(self.details@) == ({
            let s = with_detail(Seq::empty(), "resource_dir"@, resource_dir);
            let s = with_detail(s, "bucket"@, Some(self.bucket@));
            let s = with_detail(s, "bucket_prefix"@, Some(prefix));
            with_detail(s, "key_prefix"@, Some(self.key_prefix@))
        })
        &&& table::is_table(self.details@)
    }
}

/// The bucket and key prefix of an S3 store. `owner` completes the default key prefix.
pub fn plan_s3_store(
    reader: EnvReader,
    experiment: &ExperimentSpec,
    process: &Vec<Entry>,
    resource_id: &str,
    owner: &str,
    resource_dir: &Option<String>,
) -> (r: Result<S3StorePlan, String>)
    ensures
        match r {
            Ok(plan) => bucket_prefix_spec(reader, *experiment, process@) is Ok && plan.fits(
                reader,
                *experiment,
                process@,
                resource_id@,
                owner@,
                text::option_view(*resource_dir),
            ),
            Err(e) => bucket_prefix_spec(reader, *experiment, process@) == Err::<
                Seq<char>,
                Seq<char>,
            >(e@),
        },
{
    let bucket_keys = [
        "LC_BENCH_S3_BUCKET_PREFIX",
        "LC_BENCH_S3_BUCKET",
        "S3_BUCKET_PREFIX",
        "S3_BUCKET",
    ];
    let prefix_keys = ["LC_BENCH_S3_KEY_PREFIX", "S3_KEY_PREFIX"];
    proof {
        assert(text::str_views(bucket_keys@) =~= bucket_prefix_keys());
        assert(text::str_views(prefix_keys@) =~= key_prefix_keys());
    }
    let name = match reader {
        EnvReader::BlobPut => "S3 blob put bucket prefix",
        _ => "S3 bucket prefix",
    };
    let prefix = match environment::required_env_any(
        reader,
        experiment,
        process,
        &bucket_keys,
        name,
    ) {
        Ok(prefix) => prefix,
        Err(e) => {
            return Err(e);
        },
    };
    let bucket = naming::s3_bucket_name(prefix.as_str(), resource_id);
    let key_prefix = match environment::env_any(reader, experiment, process, &prefix_keys) {
        Some(v) => v,
        None => text::cat3(experiment.run.run_id.as_str(), "/", owner),
    };
    let mut details = no_details();
    add_optional_detail(&mut details, "resource_dir", resource_dir);
    add_detail(&mut details, "bucket", bucket.as_str());
    add_detail(&mut details, "bucket_prefix", prefix.as_str());
    add_detail(&mut details, "key_prefix", key_prefix.as_str());
    Ok(S3StorePlan { bucket, key_prefix, details })
}

/// The details with the region and the endpoint of the client, where they are set.
pub fn with_client_details(details: Vec<Entry>, client: &AwsClientConfig) -> (r: Vec<Entry>)
    ensures
        environment::entry_views(r@) == with_detail(
            with_detail(
                environment::entry_views(details@),
                "region"@,
                text::option_view(client.region_name),
            ),
            "endpoint_url"@,
            text::option_view(client.endpoint_url),
        ),
        table::is_table(details@) ==> table::is_table(r@),
{
    let mut out = details;
    add_optional_detail(&mut out, "region", &client.region_name);
    add_optional_detail(&mut out, "endpoint_url", &client.endpoint_url);
    out
}

/// The region that a new bucket is bound to; the default region of S3 must not be named.
pub open spec fn location_constraint_spec(region: Option<Seq<char>>) -> Option<Seq<char>> {
    match region {
        Some(name) if name != "us-east-1"@ => Some(name),
        _ => None,
    }
}

pub fn location_constraint(region: &Option<String>) -> (r: Option<String>)
    ensures
        text::option_view(r) == location_constraint_spec(text::option_view(*region)),
{
    match region {
        Some(name) => if text::same(name.as_str(), "us-east-1") {
            None
        } else {
            Some(name.clone())
        },
        None => None,
    }
}

/// The settings of an S3 client as the blob store takes them. A store that a node opens gets every
/// setting, absent ones as null; one of a put experiment gets only those that are filled.
pub open spec fn client_setting(
    so_far: Seq<(Seq<char>, native::NativeTree)>,
    reader: EnvReader,
    key: Seq<char>,
    value: Option<Seq<char>>,
) -> Seq<(Seq<char>, native::NativeTree)> {
    if reader is BlobPut {
        match value {
            Some(v) if !text::is_blank_spec(v) => so_far.push((key, native::NativeTree::Text(v))),
            _ => so_far,
        }
    } else {
        match value {
            Some(v) => so_far.push((key, native::NativeTree::Text(v))),
            None => so_far.push((key, native::NativeTree::Null)),
        }
    }
}

fn push_field(fields: &mut Vec<NativeField>, key: &str, value: NativeValue)
    ensures
        native::field_trees(final(fields)@) == native::field_trees(old(fields)@).push(
            (key@, value.tree()),
        ),
{
    fields.push(NativeField { key: key.to_owned(), value });
    assert(native::field_trees(fields@) =~= native::field_trees(old(fields)@).push(
        (key@, value.tree()),
    ));
}

fn add_client_setting(
    fields: &mut Vec<NativeField>,
    reader: EnvReader,
    key: &str,
    value: &Option<String>,
)
    ensures
        native::field_trees(final(fields)@) == client_setting(
            native::field_trees(old(fields)@),
            reader,
            key@,
            text::option_view(*value),
        ),
{
    match reader {
        EnvReader::BlobPut => {
            if let Some(v) = value {
                if !text::is_blank(v.as_str()) {
                    push_field(fields, key, NativeValue::Text(v.clone()));
                }
            }
        },
        _ => match value {
            Some(v) => {
                push_field(fields, key, NativeValue::Text(v.clone()));
            },
            None => {
                push_field(fields, key, NativeValue::Null);
            },
        },
    }
}

pub open spec fn client_settings_spec(
    reader: EnvReader,
    client: environment::AwsClientModel,
) -> Seq<(Seq<char>, native::NativeTree)> {
    let s = Seq::<(Seq<char>, native::NativeTree)>::empty();
    let s = client_setting(s, reader, "profile_name"@, client.profile_name);
    let s = client_setting(s, reader, "region_name"@, client.region_name);
    let s = client_setting(s, reader, "endpoint_url"@, client.endpoint_url);
    let s = client_setting(s, reader, "aws_access_key_id"@, client.access_key_id);
    let s = client_setting(s, reader, "aws_secret_access_key"@, client.secret_access_key);
    let s = client_setting(s, reader, "aws_session_token"@, client.session_token);
    s.push(("force_path_style"@, native::NativeTree::Bool(client.force_path_style)))
}

pub fn to_native_map(reader: EnvReader, client: &AwsClientConfig) -> (r: Vec<NativeField>)
    ensures
        native::field_trees(r@) == client_settings_spec(reader, client.model()),
{
    let mut out: Vec<NativeField> = Vec::new();
    assert(native::field_trees(out@) =~= Seq::<(Seq<char>, native::NativeTree)>::empty());
    add_client_setting(&mut out, reader, "profile_name", &client.profile_name);
    add_client_setting(&mut out, reader, "region_name", &client.region_name);
    add_client_setting(&mut out, reader, "endpoint_url", &client.endpoint_url);
    add_client_setting(&mut out, reader, "aws_access_key_id", &client.access_key_id);
    add_client_setting(&mut out, reader, "aws_secret_access_key", &client.secret_access_key);
    add_client_setting(&mut out, reader, "aws_session_token", &client.session_token);
    push_field(&mut out, "force_path_style", NativeValue::Bool(client.force_path_style));
    out
}

/// A peer-to-peer store to open.
#[derive(Debug)]
pub struct P2pStorePlan {
    pub blob_meta_table: String,
    pub chunk_holders_table: String,
    pub create_tables: bool,
    pub init_wait_timeout_s: u64,
    pub holder_id: String,
    pub cache_dir: String,
    pub bind_host: String,
    pub bind_port: u16,
    pub runtime_worker_threads: usize,
    pub advertise_endpoint: String,
    pub accel_probability: Real,
    pub enable_accel: bool,
    pub transfer_debug_log: bool,
    pub non_abortable_task_workers: usize,
    pub details: Vec<Entry>,
}

pub open spec fn meta_table_keys() -> Seq<Seq<char>> {
    seq![
        "LC_BENCH_P2P_TRACKER_TABLE_META_PREFIX"@,
        "LC_BENCH_P2P_TRACKER_TABLE_META"@,
        "P2P_TRACKER_TABLE_META_PREFIX"@,
        "P2P_TRACKER_TABLE_META"@,
    ]
}

pub open spec fn holders_table_keys() -> Seq<Seq<char>> {
    seq![
        "LC_BENCH_P2P_TRACKER_TABLE_HOLDERS_PREFIX"@,
        "LC_BENCH_P2P_TRACKER_TABLE_HOLDERS"@,
        "P2P_TRACKER_TABLE_HOLDERS_PREFIX"@,
        "P2P_TRACKER_TABLE_HOLDERS"@,
    ]
}

pub open spec fn create_tables_keys() -> Seq<Seq<char>> {
    seq!["LC_BENCH_P2P_CREATE_TRACKER_TABLES"@, "P2P_CREATE_TRACKER_TABLES"@]
}

pub open spec fn tracker_timeout_keys() -> Seq<Seq<char>> {
    seq!["LC_BENCH_P2P_TRACKER_INIT_WAIT_TIMEOUT_S"@, "P2P_TRACKER_INIT_WAIT_TIMEOUT_S"@]
}

pub open spec fn debug_log_keys() -> Seq<Seq<char>> {
    seq!["LC_BENCH_P2P_TRANSFER_DEBUG_LOG"@, "P2P_TRANSFER_DEBUG_LOG"@]
}

/// The settings of a peer-to-peer store that may be missing or malformed, each as it is read.
pub open spec fn p2p_meta(reader: EnvReader, e: Seq<Entry>, p: Seq<Entry>) -> Result<
    Seq<char>,
    Seq<char>,
> {
    environment::required_env_spec(
        reader,
        e,
        p,
        meta_table_keys(),
        "P2P tracker blob-meta table prefix"@,
    )
}

pub open spec fn p2p_holders(reader: EnvReader, e: Seq<Entry>, p: Seq<Entry>) -> Result<
    Seq<char>,
    Seq<char>,
> {
    environment::required_env_spec(
        reader,
        e,
        p,
        holders_table_keys(),
        "P2P tracker chunk-holders table prefix"@,
    )
}

/// Whether tables are created: as the caller says, or as the environment says where it does not.
pub open spec fn p2p_create_tables(
    reader: EnvReader,
    e: Seq<Entry>,
    p: Seq<Entry>,
    asked: Option<bool>,
) -> Result<bool, Seq<char>> {
    match asked {
        Some(b) => Ok(b),
        None => match environment::env_bool_spec(reader, e, p, create_tables_keys()) {
            Ok(b) => Ok(b != Some(false)),
            Err(m) => Err(m),
        },
    }
}

pub open spec fn p2p_timeout(reader: EnvReader, e: Seq<Entry>, p: Seq<Entry>) -> Result<
    u64,
    Seq<char>,
> {
    match environment::env_u64_spec(reader, e, p, tracker_timeout_keys()) {
        Ok(Some(n)) => Ok(n),
        Ok(None) => Ok(DEFAULT_INIT_WAIT_TIMEOUT_S),
        Err(m) => Err(m),
    }
}

pub open spec fn p2p_debug_log(reader: EnvReader, e: Seq<Entry>, p: Seq<Entry>) -> Result<
    bool,
    Seq<char>,
> {
    match environment::env_bool_spec(reader, e, p, debug_log_keys()) {
        Ok(b) => Ok(b == Some(true)),
        Err(m) => Err(m),
    }
}

/// The first setting of a peer-to-peer store that is missing or malformed.
pub open spec fn p2p_problem(
    reader: EnvReader,
    e: Seq<Entry>,
    p: Seq<Entry>,
    create_tables: Option<bool>,
) -> Option<Seq<char>> {
    if p2p_meta(reader, e, p) is Err {
        Some(p2p_meta(reader, e, p)->Err_0)
    } else if p2p_holders(reader, e, p) is Err {
        Some(p2p_holders(reader, e, p)->Err_0)
    } else if p2p_create_tables(reader, e, p, create_tables) is Err {
        Some(p2p_create_tables(reader, e, p, create_tables)->Err_0)
    } else if p2p_timeout(reader, e, p) is Err {
        Some(p2p_timeout(reader, e, p)->Err_0)
    } else if p2p_debug_log(reader, e, p) is Err {
        Some(p2p_debug_log(reader, e, p)->Err_0)
    } else {
        None
    }
}

impl P2pStorePlan {
    pub open spec fn fits(
        self,
        reader: EnvReader,
        instance: InstanceConfig,
        experiment: ExperimentSpec,
        process: Seq<Entry>,
        resource_id: Seq<char>,
        cache_dir: Seq<char>,
        create_tables: Option<bool>,
        resource_dir: Option<Seq<char>>,
    ) -> bool {
        let e = experiment.env@;
        let p = process;
        &&& self.blob_meta_table@ == naming::dynamodb_table_name_spec(
            p2p_meta(reader, e, p)->Ok_0,
            resource_id,
        )
        &&& self.chunk_holders_table@ == naming::dynamodb_table_name_spec(
            p2p_holders(reader, e, p)->Ok_0,
            resource_id,
        )
        &&& self.create_tables == p2p_create_tables(reader, e, p, create_tables)->Ok_0
        &&& self.init_wait_timeout_s == p2p_timeout(reader, e, p)->Ok_0
        &&& self.transfer_debug_log == p2p_debug_log(reader, e, p)->Ok_0
        &&& self.holder_id@ == instance.id@
        &&& self.cache_dir@ == cache_dir
        &&& self.bind_host@ == experiment.p2p.chunk_server_bind_host@
        &&& self.bind_port == (match naming::endpoint_port_spec(instance.p2p_advertise_endpoint@) {
            Some(port) => port,
            None => experiment.p2p.chunk_server_port_base as nat,
        })
        &&& self.runtime_worker_threads == experiment.p2p.chunk_server_runtime_worker_threads
        &&& self.advertise_endpoint@ == instance.p2p_advertise_endpoint@
        &&& self.accel_probability == (match experiment.p2p.accel_probability {
            Some(x) => x,
            None => Real { bits: DEFAULT_ACCEL_PROBABILITY },
        })
        &&& self.enable_accel == experiment.p2p.enable_accel
        &&& self.non_abortable_task_workers == experiment.p2p.non_abortable_task_workers
        &&& environment::entry_views(self.details@) == ({
            let s = with_detail(Seq::empty(), "resource_dir"@, resource_dir);
            let s = with_detail(s, "cache_dir"@, Some(cache_dir));
            let s = with_detail(s, "holder_id"@, Some(instance.id@));
            let s = with_detail(
                s,
                "advertise_endpoint"@,
                Some(instance.p2p_advertise_endpoint@),
            );
            let s = with_detail(s, "tracker_blob_meta_table"@, Some(self.blob_meta_table@));
            with_detail(s, "tracker_chunk_holders_table"@, Some(self.chunk_holders_table@))
        })
        &&& table::is_table(self.details@)
    }
}

/// Everything that opening a peer-to-peer store takes. Where `create_tables` is not given, the
/// environment decides, and tables are created unless it says no.
pub fn plan_p2p_store(
    reader: EnvReader,
    instance: &InstanceConfig,
    experiment: &ExperimentSpec,
    process: &Vec<Entry>,
    resource_id: &str,
    cache_dir: &str,
    create_tables: Option<bool>,
    resource_dir: &Option<String>,
) -> (r: Result<P2pStorePlan, String>)
    ensures
        match r {
            Ok(plan) => p2p_problem(reader, experiment.env@, process@, create_tables) is None
                && plan.fits(
                reader,
                *instance,
                *experiment,
                process@,
                resource_id@,
                cache_dir@,
                create_tables,
                text::option_view(*resource_dir),
            ),
            Err(e) => p2p_problem(reader, experiment.env@, process@, create_tables) == Some(e@),
        },
{
    let meta_keys = [
        "LC_BENCH_P2P_TRACKER_TABLE_META_PREFIX",
        "LC_BENCH_P2P_TRACKER_TABLE_META",
        "P2P_TRACKER_TABLE_META_PREFIX",
        "P2P_TRACKER_TABLE_META",
    ];
    let holder_keys = [
        "LC_BENCH_P2P_TRACKER_TABLE_HOLDERS_PREFIX",
        "LC_BENCH_P2P_TRACKER_TABLE_HOLDERS",
        "P2P_TRACKER_TABLE_HOLDERS_PREFIX",
        "P2P_TRACKER_TABLE_HOLDERS",
    ];
    let create_keys = ["LC_BENCH_P2P_CREATE_TRACKER_TABLES", "P2P_CREATE_TRACKER_TABLES"];
    let timeout_keys = [
        "LC_BENCH_P2P_TRACKER_INIT_WAIT_TIMEOUT_S",
        "P2P_TRACKER_INIT_WAIT_TIMEOUT_S",
    ];
    let debug_keys = ["LC_BENCH_P2P_TRANSFER_DEBUG_LOG", "P2P_TRANSFER_DEBUG_LOG"];
    proof {
        assert(text::str_views(meta_keys@) =~= meta_table_keys());
        assert(text::str_views(holder_keys@) =~= holders_table_keys());
        assert(text::str_views(create_keys@) =~= create_tables_keys());
        assert(text::str_views(timeout_keys@) =~= tracker_timeout_keys());
        assert(text::str_views(debug_keys@) =~= debug_log_keys());
    }
    let meta_prefix = match environment::required_env_any(
        reader,
        experiment,
        process,
        &meta_keys,
        "P2P tracker blob-meta table prefix",
    ) {
        Ok(v) => v,
        Err(e) => {
            return Err(e);
        },
    };
    let holders_prefix = match environment::required_env_any(
        reader,
        experiment,
        process,
        &holder_keys,
        "P2P tracker chunk-holders table prefix",
    ) {
        Ok(v) => v,
        Err(e) => {
            return Err(e);
        },
    };
    let blob_meta_table = naming::dynamodb_table_name(meta_prefix.as_str(), resource_id);
    let chunk_holders_table = naming::dynamodb_table_name(holders_prefix.as_str(), resource_id);
    let create_tables = match create_tables {
        Some(b) => b,
        None => match environment::env_bool_any(reader, experiment, process, &create_keys) {
            Ok(Some(b)) => b,
            Ok(None) => true,
            Err(e) => {
                return Err(e);
            },
        },
    };
    let init_wait_timeout_s: u64 = match environment::env_u64_any(
        reader,
        experiment,
        process,
        &timeout_keys,
    ) {
        Ok(Some(n)) => n,
        Ok(None) => DEFAULT_INIT_WAIT_TIMEOUT_S,
        Err(e) => {
            return Err(e);
        },
    };
    let transfer_debug_log = match environment::env_bool_any(
        reader,
        experiment,
        process,
        &debug_keys,
    ) {
        Ok(Some(b)) => b,
        Ok(None) => false,
        Err(e) => {
            return Err(e);
        },
    };
    let bind_port: u16 = match naming::endpoint_port(instance.p2p_advertise_endpoint.as_str()) {
        Some(port) => port,
        None => experiment.p2p.chunk_server_port_base,
    };
    let accel_probability = match experiment.p2p.accel_probability {
        Some(x) => x,
        None => Real { bits: DEFAULT_ACCEL_PROBABILITY },
    };
    let mut details = no_details();
    add_optional_detail(&mut details, "resource_dir", resource_dir);
    add_detail(&mut details, "cache_dir", cache_dir);
    add_detail(&mut details, "holder_id", instance.id.as_str());
    add_detail(&mut details, "advertise_endpoint", instance.p2p_advertise_endpoint.as_str());
    add_detail(&mut details, "tracker_blob_meta_table", blob_meta_table.as_str());
    add_detail(&mut details, "tracker_chunk_holders_table", chunk_holders_table.as_str());
    Ok(
        P2pStorePlan {
            blob_meta_table,
            chunk_holders_table,
            create_tables,
            init_wait_timeout_s,
            holder_id: instance.id.clone(),
            cache_dir: cache_dir.to_owned(),
            bind_host: experiment.p2p.chunk_server_bind_host.clone(),
            bind_port,
            runtime_worker_threads: experiment.p2p.chunk_server_runtime_worker_threads,
            advertise_endpoint: instance.p2p_advertise_endpoint.clone(),
            accel_probability,
            enable_accel: experiment.p2p.enable_accel,
            transfer_debug_log,
            non_abortable_task_workers: experiment.p2p.non_abortable_task_workers,
            details,
        },
    )
}

/// A store that needs the experiment's configuration is refused without it.
pub fn require_experiment<'a>(
    experiment: Option<&'a ExperimentSpec>,
    what: &str,
) -> (r: Result<&'a ExperimentSpec, String>)
    ensures
        match r {
            Ok(e) => experiment == Some(e),
            Err(m) => experiment is None && m@ == what@ + " requires experiment config"@,
        },
{
    match experiment {
        Some(e) => Ok(e),
        None => Err(text::cat2(what, " requires experiment config")),
    }
}

// ---------------------------------------------------------------------------------------------
// Metadata stores
// ---------------------------------------------------------------------------------------------
#[derive(Clone, Copy, Debug, PartialEq, Eq, Structural)]
pub enum MetadataBackend {
    InMemory,
    DynamoDb,
}

pub open spec fn metadata_backend_spec(value: Seq<char>) -> Result<MetadataBackend, Seq<char>> {
    let name = text::normal_spec(value);
    if name == "inmemory"@ || name == "in-memory"@ {
        Ok(MetadataBackend::InMemory)
    } else if name == "dynamodb"@ {
        Ok(MetadataBackend::DynamoDb)
    } else {
        Err("unsupported metadata store backend: "@ + name)
    }
}

pub fn metadata_backend(value: &str) -> (r: Result<MetadataBackend, String>)
    ensures
        environment::plain_result(r) == metadata_backend_spec(value@),
{
    let name = text::normal(value);
    if text::same(name.as_str(), "inmemory") || text::same(name.as_str(), "in-memory") {
        Ok(MetadataBackend::InMemory)
    } else if text::same(name.as_str(), "dynamodb") {
        Ok(MetadataBackend::DynamoDb)
    } else {
        Err(text::cat2("unsupported metadata store backend: ", name.as_str()))
    }
}

/// The details of an in-memory metadata store.
pub fn in_memory_details(instance: &InstanceConfig) -> (r: Vec<Entry>)
    ensures
        environment::entry_views(r@) == seq![("instance_id"@, instance.id@)],
        table::is_table(r@),
{
    let mut details = no_details();
    add_detail(&mut details, "instance_id", instance.id.as_str());
    assert(environment::entry_views(details@) =~= seq![("instance_id"@, instance.id@)]);
    details
}

/// A part of the name of a node's metadata table.
pub open spec fn node_table_part(value: Seq<char>) -> Seq<char> {
    text::trim_class_spec(
        text::clean_spec(value, text::CharClass::AlnumDashUnderscoreDot, '-'),
        text::CharClass::Just('-'),
    )
}

/// The metadata table that a node opens for a resource: at most 255 characters, at least three.
pub open spec fn node_table_name_spec(prefix: Seq<char>, resource_id: Seq<char>) -> Seq<char> {
    let name = text::head_spec(
        node_table_part(prefix) + "-"@ + node_table_part(resource_id),
        255,
    );
    if name.len() < 3 {
        text::head_spec(name + "000"@, 3)
    } else {
        name
    }
}

pub fn node_table_name(prefix: &str, resource_id: &str) -> (r: String)
    ensures
        r@ == node_table_name_spec(prefix@, resource_id@),
{
    let class = text::CharClass::AlnumDashUnderscoreDot;
    let head = text::trim_class(text::clean(prefix, class, '-').as_str(), text::CharClass::Just('-'));
    let tail = text::trim_class(
        text::clean(resource_id, class, '-').as_str(),
        text::CharClass::Just('-'),
    );
    let name = text::truncate_ascii(text::cat3(head.as_str(), "-", tail.as_str()).as_str(), 255);
    if text::chars_of(name.as_str()).len() < 3 {
        text::truncate_ascii(text::cat2(name.as_str(), "000").as_str(), 3)
    } else {
        name
    }
}

/// A node's metadata table name always has 3 to 255 characters.
pub proof fn lemma_node_table_name_length(prefix: Seq<char>, resource_id: Seq<char>)
    ensures
        3 <= node_table_name_spec(prefix, resource_id).len() <= 255,
{
    reveal_strlit("000");
}

pub open spec fn metadata_prefix_keys() -> Seq<Seq<char>> {
    seq!["LC_BENCH_METADATA_TABLE_PREFIX"@, "LC_BENCH_METADATA_TABLE"@, "P2P_DDB_TABLE"@]
}

pub open spec fn metadata_timeout_keys() -> Seq<Seq<char>> {
    seq!["LC_BENCH_METADATA_INIT_WAIT_TIMEOUT_S"@, "METADATA_INIT_WAIT_TIMEOUT_S"@]
}

/// The prefix of metadata tables.
pub open spec fn metadata_table_prefix_spec(
    reader: EnvReader,
    experiment: ExperimentSpec,
    process: Seq<Entry>,
) -> Seq<char> {
    match environment::env_any_spec(reader, experiment.env@, process, metadata_prefix_keys()) {
        Some(v) => v,
        None => "lcbench-metadata"@,
    }
}

pub fn metadata_table_prefix(
    reader: EnvReader,
    experiment: &ExperimentSpec,
    process: &Vec<Entry>,
) -> (r: String)
    ensures
        r@ == metadata_table_prefix_spec(reader, *experiment, process@),
{
    let keys = ["LC_BENCH_METADATA_TABLE_PREFIX", "LC_BENCH_METADATA_TABLE", "P2P_DDB_TABLE"];
    assert(text::str_views(keys@) =~= metadata_prefix_keys());
    match environment::env_any(reader, experiment, process, &keys) {
        Some(v) => v,
        None => "lcbench-metadata".to_owned(),
    }
}

/// How long to wait for a metadata table.
pub open spec fn metadata_timeout_spec(
    reader: EnvReader,
    experiment: ExperimentSpec,
    process: Seq<Entry>,
) -> Result<u64, Seq<char>> {
    match environment::env_u64_spec(reader, experiment.env@, process, metadata_timeout_keys()) {
        Ok(Some(n)) => Ok(n),
        Ok(None) => Ok(DEFAULT_INIT_WAIT_TIMEOUT_S),
        Err(m) => Err(m),
    }
}

pub fn metadata_timeout(
    reader: EnvReader,
    experiment: &ExperimentSpec,
    process: &Vec<Entry>,
) -> (r: Result<u64, String>)
    ensures
        environment::plain_result(r) == metadata_timeout_spec(reader, *experiment, process@),
{
    let keys = ["LC_BENCH_METADATA_INIT_WAIT_TIMEOUT_S", "METADATA_INIT_WAIT_TIMEOUT_S"];
    assert(text::str_views(keys@) =~= metadata_timeout_keys());
    match environment::env_u64_any(reader, experiment, process, &keys) {
        Ok(Some(n)) => Ok(n),
        Ok(None) => Ok(DEFAULT_INIT_WAIT_TIMEOUT_S),
        Err(e) => Err(e),
    }
}

/// A DynamoDB metadata store to open.
#[derive(Debug)]
pub struct MetadataTablePlan {
    pub table_name: String,
    pub init_wait_timeout_s: u64,
    pub details: Vec<Entry>,
}

/// The details of a DynamoDB metadata store before those of its client.
pub open spec fn metadata_details_spec(table_name: Seq<char>, instance_id: Seq<char>) -> Seq<
    (Seq<char>, Seq<char>),
> {
    let s = with_detail(Seq::empty(), "table_name"@, Some(table_name));
    with_detail(s, "instance_id"@, Some(instance_id))
}

pub fn metadata_details(table_name: &str, instance: &InstanceConfig) -> (r: Vec<Entry>)
    ensures
        environment::entry_views(r@) == metadata_details_spec(table_name@, instance.id@),
        table::is_table(r@),
{
    let mut details = no_details();
    add_detail(&mut details, "table_name", table_name);
    add_detail(&mut details, "instance_id", instance.id.as_str());
    details
}

/// The metadata table that a node opens.
pub fn plan_node_metadata_table(
    instance: &InstanceConfig,
    experiment: &ExperimentSpec,
    process: &Vec<Entry>,
    resource_id: &str,
) -> (r: Result<MetadataTablePlan, String>)
    ensures
        match r {
            Ok(plan) => {
                &&& plan.table_name@ == node_table_name_spec(
                    metadata_table_prefix_spec(EnvReader::MetadataStores, *experiment, process@),
                    resource_id@,
                )
                &&& metadata_timeout_spec(EnvReader::MetadataStores, *experiment, process@) == Ok::<
                    u64,
                    Seq<char>,
                >(plan.init_wait_timeout_s)
                &&& environment::entry_views(plan.details@) == metadata_details_spec(
                    plan.table_name@,
                    instance.id@,
                )
                &&& table::is_table(plan.details@)
            },
            Err(e) => metadata_timeout_spec(EnvReader::MetadataStores, *experiment, process@)
                == Err::<u64, Seq<char>>(e@),
        },
{
    let reader = EnvReader::MetadataStores;
    let prefix = metadata_table_prefix(reader, experiment, process);
    let table_name = node_table_name(prefix.as_str(), resource_id);
    match metadata_timeout(reader, experiment, process) {
        Ok(init_wait_timeout_s) => {
            let details = metadata_details(table_name.as_str(), instance);
            Ok(MetadataTablePlan { table_name, init_wait_timeout_s, details })
        },
        Err(e) => Err(e),
    }
}

/// The error after the last failed attempt at opening a metadata table.
pub fn metadata_init_failed(table_name: &str, last_error: &str) -> (r: String)
    ensures
        r@ == "failed to init DynamoDB metadata store "@ + table_name@ + " after "@ + text::dec(
            retry::INIT_MAX_ATTEMPTS as nat,
        ) + " attempts: "@ + last_error@,
{
    text::cat6(
        "failed to init DynamoDB metadata store ",
        table_name,
        " after ",
        text::decimal(retry::INIT_MAX_ATTEMPTS as u64).as_str(),
        " attempts: ",
        last_error,
    )
}

// ---------------------------------------------------------------------------------------------
// What the stores are given
// ---------------------------------------------------------------------------------------------
/// The backends by name, whatever the case of the letters and the blanks around. `localfs` is another
/// word for `local-file`, and `in-memory` for `inmemory`.
pub proof fn lemma_backends_by_name(value: Seq<char>)
    ensures
        ({
            let word = text::normal_spec(value);
            let blob = blob_backend_spec(value);
            let metadata = metadata_backend_spec(value);
            &&& blob == Ok::<BlobBackend, Seq<char>>(BlobBackend::LocalFile) <==> word
                == "local-file"@ || word == "localfs"@
            &&& blob == Ok::<BlobBackend, Seq<char>>(BlobBackend::S3) <==> word == "s3"@
            &&& blob == Ok::<BlobBackend, Seq<char>>(BlobBackend::P2p) <==> word == "p2p"@
            &&& blob is Err ==> blob->Err_0 == "unsupported blob store backend: "@ + word
            &&& metadata == Ok::<MetadataBackend, Seq<char>>(MetadataBackend::InMemory) <==> word
                == "inmemory"@ || word == "in-memory"@
            &&& metadata == Ok::<MetadataBackend, Seq<char>>(MetadataBackend::DynamoDb) <==> word
                == "dynamodb"@
            &&& metadata is Err ==> metadata->Err_0 == "unsupported metadata store backend: "@ + word
            &&& word != "localfs"@ ==> normalize_backend_spec(value) == word
            &&& word == "localfs"@ ==> normalize_backend_spec(value) == "local-file"@
        }),
        BlobBackend::LocalFile.name_spec() == "local-file"@,
        BlobBackend::S3.name_spec() == "s3"@,
        BlobBackend::P2p.name_spec() == "p2p"@,
{
    reveal_strlit("localfs");
    reveal_strlit("local-file");
    reveal_strlit("s3");
    reveal_strlit("p2p");
    reveal_strlit("inmemory");
    reveal_strlit("in-memory");
    reveal_strlit("dynamodb");
    assert("localfs"@.len() == 7 && "local-file"@.len() == 10 && "s3"@.len() == 2 && "p2p"@.len()
        == 3);
    assert("inmemory"@.len() == 8 && "in-memory"@.len() == 9 && "dynamodb"@.len() == 8);
    assert("inmemory"@[0] == 'i' && "dynamodb"@[0] == 'd');
}

/// A store lies where it is told to, or else in its own place in the directory of the run.
pub proof fn lemma_store_directories(root_dir: Option<Seq<char>>, run_dir: Seq<char>, usual: Seq<char>)
    ensures
        root_dir is Some ==> store_dir_spec(root_dir, run_dir, usual) == root_dir->0,
        root_dir is None ==> store_dir_spec(root_dir, run_dir, usual) == naming::path_join_spec(
            run_dir,
            usual,
        ),
{
}

proof fn lemma_nothing_ascends()
    ensures
        table::pairs_ascend(Seq::<(Seq<char>, Seq<char>)>::empty()),
        forall|p: (Seq<char>, Seq<char>)|
            !#[trigger] Seq::<(Seq<char>, Seq<char>)>::empty().contains(p),
{
}

proof fn lemma_detail_is_kept(
    so_far: Seq<(Seq<char>, Seq<char>)>,
    key: Seq<char>,
    value: Option<Seq<char>>,
)
    requires
        table::pairs_ascend(so_far),
    ensures
        table::pairs_ascend(with_detail(so_far, key, value)),
        forall|p: (Seq<char>, Seq<char>)| #[trigger]
            with_detail(so_far, key, value).contains(p) <==> (value is Some && p == (key, value->0))
                || (so_far.contains(p) && (value is Some ==> p.0 != key)),
{
    if let Some(v) = value {
        table::lemma_pair_is_put(so_far, key, v);
    }
}

/// A store in files says where it lies, and where its resources do if that is known.
pub proof fn lemma_file_store_details(
    resource_dir: Option<Seq<char>>,
    root_dir: Seq<char>,
    p: (Seq<char>, Seq<char>),
)
    ensures
        local_file_details_spec(resource_dir, root_dir).contains(p) <==> p == ("root_dir"@, root_dir)
            || (resource_dir is Some && p == ("resource_dir"@, resource_dir->0)),
{
    reveal_strlit("root_dir");
    reveal_strlit("resource_dir");
    assert("root_dir"@.len() != "resource_dir"@.len());
    lemma_nothing_ascends();
    let s = with_detail(Seq::empty(), "resource_dir"@, resource_dir);
    lemma_detail_is_kept(Seq::empty(), "resource_dir"@, resource_dir);
    lemma_detail_is_kept(s, "root_dir"@, Some(root_dir));
}

/// A metadata store says what its table is called and which instance it is of.
pub proof fn lemma_metadata_store_details(
    table_name: Seq<char>,
    instance_id: Seq<char>,
    p: (Seq<char>, Seq<char>),
)
    ensures
        metadata_details_spec(table_name, instance_id).contains(p) <==> p == (
            "table_name"@,
            table_name,
        ) || p == ("instance_id"@, instance_id),
{
    reveal_strlit("table_name");
    reveal_strlit("instance_id");
    assert("table_name"@.len() != "instance_id"@.len());
    lemma_nothing_ascends();
    let s = with_detail(Seq::empty(), "table_name"@, Some(table_name));
    lemma_detail_is_kept(Seq::empty(), "table_name"@, Some(table_name));
    lemma_detail_is_kept(s, "instance_id"@, Some(instance_id));
}

impl S3StorePlan {
    /// A bucket is named after the prefix of the settings and the resources, blobs lie under the prefix
    /// of the settings or that of the run and its owner, and the plan says all three.
    pub proof fn lemma_s3_plan(
        self,
        reader: EnvReader,
        experiment: ExperimentSpec,
        process: Seq<Entry>,
        resource_id: Seq<char>,
        owner: Seq<char>,
        resource_dir: Option<Seq<char>>,
        p: (Seq<char>, Seq<char>),
    )
        requires
            self.fits(reader, experiment, process, resource_id, owner, resource_dir),
            bucket_prefix_spec(reader, experiment, process) is Ok,
        ensures
            ({
                let prefix = environment::env_any_spec(
                    reader,
                    experiment.env@,
                    process,
                    seq![
                        "LC_BENCH_S3_BUCKET_PREFIX"@,
                        "LC_BENCH_S3_BUCKET"@,
                        "S3_BUCKET_PREFIX"@,
                        "S3_BUCKET"@,
                    ],
                );
                let key = environment::env_any_spec(
                    reader,
                    experiment.env@,
                    process,
                    seq!["LC_BENCH_S3_KEY_PREFIX"@, "S3_KEY_PREFIX"@],
                );
                &&& prefix is Some
                &&& self.bucket@ == naming::s3_bucket_name_spec(prefix->0, resource_id)
                &&& key is Some ==> self.key_prefix@ == key->0
                &&& key is None ==> self.key_prefix@ == experiment.run.run_id@ + "/"@ + owner
                &&& environment::entry_views(self.details@).contains(p) <==> {
                    ||| resource_dir is Some && p == ("resource_dir"@, resource_dir->0)
                    ||| p == ("bucket"@, self.bucket@)
                    ||| p == ("bucket_prefix"@, prefix->0)
                    ||| p == ("key_prefix"@, self.key_prefix@)
                }
            }),
    {
        reveal_strlit("resource_dir");
        reveal_strlit("bucket");
        reveal_strlit("bucket_prefix");
        reveal_strlit("key_prefix");
        assert("resource_dir"@.len() == 12 && "bucket"@.len() == 6 && "bucket_prefix"@.len() == 13
            && "key_prefix"@.len() == 10);
        lemma_nothing_ascends();
        let prefix = bucket_prefix_spec(reader, experiment, process)->Ok_0;
        let s1 = with_detail(Seq::empty(), "resource_dir"@, resource_dir);
        let s2 = with_detail(s1, "bucket"@, Some(self.bucket@));
        let s3 = with_detail(s2, "bucket_prefix"@, Some(prefix));
        lemma_detail_is_kept(Seq::empty(), "resource_dir"@, resource_dir);
        lemma_detail_is_kept(s1, "bucket"@, Some(self.bucket@));
        lemma_detail_is_kept(s2, "bucket_prefix"@, Some(prefix));
        lemma_detail_is_kept(s3, "key_prefix"@, Some(self.key_prefix@));
    }
}

/// A bucket is told where to lie wherever that is not where buckets lie anyway.
pub proof fn lemma_bucket_locations(region: Option<Seq<char>>)
    ensures
        location_constraint_spec(region) is None <==> region is None || region->0 == "us-east-1"@,
        location_constraint_spec(region) is Some ==> location_constraint_spec(region) == region,
{
}

/// A client is told its settings by name, each one its own. Where blobs are put, those that are not
/// there or blank are left out; elsewhere they are told to be nothing.
pub proof fn lemma_client_settings(client: environment::AwsClientModel)
    ensures
        ({
            let s = client_settings_spec(EnvReader::BlobStores, client);
            &&& s.len() == 7
            &&& s[0] == ("profile_name"@, text_or_null(client.profile_name))
            &&& s[1] == ("region_name"@, text_or_null(client.region_name))
            &&& s[2] == ("endpoint_url"@, text_or_null(client.endpoint_url))
            &&& s[3] == ("aws_access_key_id"@, text_or_null(client.access_key_id))
            &&& s[4] == ("aws_secret_access_key"@, text_or_null(client.secret_access_key))
            &&& s[5] == ("aws_session_token"@, text_or_null(client.session_token))
            &&& s[6] == ("force_path_style"@, native::NativeTree::Bool(client.force_path_style))
        }),
        client_settings_spec(EnvReader::MetadataStores, client) == client_settings_spec(
            EnvReader::BlobStores,
            client,
        ),
        client_settings_spec(EnvReader::MetadataExperiments, client) == client_settings_spec(
            EnvReader::BlobStores,
            client,
        ),
        ({
            let s = client_settings_spec(EnvReader::BlobPut, client);
            let a = said(client.profile_name);
            let b = a + said(client.region_name);
            let c = b + said(client.endpoint_url);
            let d = c + said(client.access_key_id);
            let e = d + said(client.secret_access_key);
            let f = e + said(client.session_token);
            &&& s.len() == f + 1
            &&& a > 0 ==> s[0] == ("profile_name"@, text_or_null(client.profile_name))
            &&& b > a ==> s[a] == ("region_name"@, text_or_null(client.region_name))
            &&& c > b ==> s[b] == ("endpoint_url"@, text_or_null(client.endpoint_url))
            &&& d > c ==> s[c] == ("aws_access_key_id"@, text_or_null(client.access_key_id))
            &&& e > d ==> s[d] == ("aws_secret_access_key"@, text_or_null(client.secret_access_key))
            &&& f > e ==> s[e] == ("aws_session_token"@, text_or_null(client.session_token))
            &&& s[f] == ("force_path_style"@, native::NativeTree::Bool(client.force_path_style))
        }),
{
}

/// A text that is there, or nothing.
pub open spec fn text_or_null(value: Option<Seq<char>>) -> native::NativeTree {
    if value is Some {
        native::NativeTree::Text(value->0)
    } else {
        native::NativeTree::Null
    }
}

/// One for a text that is there and not blank, and zero for another.
pub open spec fn said(value: Option<Seq<char>>) -> int {
    if value is Some && text::trim_spec(value->0).len() > 0 {
        1
    } else {
        0
    }
}

/// The tables of the tracker go by the settings, are made unless a setting or the caller says
/// otherwise, are waited for 20 seconds unless a setting says how long, and transfers are logged only
/// where a setting says so. What cannot be read, or is missing, is an error, and nothing else is.
pub proof fn lemma_peer_settings(
    reader: EnvReader,
    e: Seq<Entry>,
    p: Seq<Entry>,
    asked: Option<bool>,
)
    ensures
        ({
            let meta = environment::env_any_spec(
                reader,
                e,
                p,
                seq![
                    "LC_BENCH_P2P_TRACKER_TABLE_META_PREFIX"@,
                    "LC_BENCH_P2P_TRACKER_TABLE_META"@,
                    "P2P_TRACKER_TABLE_META_PREFIX"@,
                    "P2P_TRACKER_TABLE_META"@,
                ],
            );
            let holders = environment::env_any_spec(
                reader,
                e,
                p,
                seq![
                    "LC_BENCH_P2P_TRACKER_TABLE_HOLDERS_PREFIX"@,
                    "LC_BENCH_P2P_TRACKER_TABLE_HOLDERS"@,
                    "P2P_TRACKER_TABLE_HOLDERS_PREFIX"@,
                    "P2P_TRACKER_TABLE_HOLDERS"@,
                ],
            );
            let create = environment::env_bool_spec(
                reader,
                e,
                p,
                seq!["LC_BENCH_P2P_CREATE_TRACKER_TABLES"@, "P2P_CREATE_TRACKER_TABLES"@],
            );
            let timeout = environment::env_u64_spec(
                reader,
                e,
                p,
                seq![
                    "LC_BENCH_P2P_TRACKER_INIT_WAIT_TIMEOUT_S"@,
                    "P2P_TRACKER_INIT_WAIT_TIMEOUT_S"@,
                ],
            );
            let log = environment::env_bool_spec(
                reader,
                e,
                p,
                seq!["LC_BENCH_P2P_TRANSFER_DEBUG_LOG"@, "P2P_TRANSFER_DEBUG_LOG"@],
            );
            &&& p2p_problem(reader, e, p, asked) is None <==> meta is Some && holders is Some && (
            asked is Some || create is Ok) && timeout is Ok && log is Ok
            &&& meta is Some ==> p2p_meta(reader, e, p) == Ok::<Seq<char>, Seq<char>>(meta->0)
            &&& holders is Some ==> p2p_holders(reader, e, p) == Ok::<Seq<char>, Seq<char>>(
                holders->0,
            )
            &&& asked is Some ==> p2p_create_tables(reader, e, p, asked) == Ok::<bool, Seq<char>>(
                asked->0,
            )
            &&& asked is None && create is Ok ==> (p2p_create_tables(reader, e, p, asked)->Ok_0
                <==> create->Ok_0 != Some(false))
            &&& timeout is Ok ==> p2p_timeout(reader, e, p)->Ok_0 == (if timeout->Ok_0 is Some {
                (timeout->Ok_0)->0
            } else {
                20
            })
            &&& log is Ok ==> (p2p_debug_log(reader, e, p)->Ok_0 <==> log->Ok_0 == Some(true))
        }),
{
}

/// The prefix of metadata tables and the time to wait for one are those of the settings, or
/// `lcbench-metadata` and 20 seconds.
pub proof fn lemma_metadata_table_settings(
    reader: EnvReader,
    experiment: ExperimentSpec,
    process: Seq<Entry>,
)
    ensures
        ({
            let prefix = environment::env_any_spec(
                reader,
                experiment.env@,
                process,
                seq![
                    "LC_BENCH_METADATA_TABLE_PREFIX"@,
                    "LC_BENCH_METADATA_TABLE"@,
                    "P2P_DDB_TABLE"@,
                ],
            );
            let timeout = environment::env_u64_spec(
                reader,
                experiment.env@,
                process,
                seq![
                    "LC_BENCH_METADATA_INIT_WAIT_TIMEOUT_S"@,
                    "METADATA_INIT_WAIT_TIMEOUT_S"@,
                ],
            );
            let r = metadata_timeout_spec(reader, experiment, process);
            &&& prefix is Some ==> metadata_table_prefix_spec(reader, experiment, process)
                == prefix->0
            &&& prefix is None ==> metadata_table_prefix_spec(reader, experiment, process)
                == "lcbench-metadata"@
            &&& r is Ok <==> timeout is Ok
            &&& timeout is Ok ==> r->Ok_0 == (if timeout->Ok_0 is Some {
                (timeout->Ok_0)->0
            } else {
                20
            })
        }),
{
}

/// The name of a table of a node is its prefix and its resources with a dash between, of letters,
/// digits, dashes, underscores and dots, and cut off at 255 characters.
pub proof fn lemma_node_table_names(prefix: Seq<char>, resource_id: Seq<char>)
    ensures
        ({
            let whole = node_table_part(prefix) + "-"@ + node_table_part(resource_id);
            &&& 3 <= whole.len() <= 255 ==> node_table_name_spec(prefix, resource_id) == whole
            &&& whole.len() > 255 ==> node_table_name_spec(prefix, resource_id) == whole.take(255)
            &&& whole.len() < 3 ==> node_table_name_spec(prefix, resource_id) == (whole
                + "000"@).take(3)
        }),
        text::is_core(
            text::clean_spec(prefix, text::CharClass::AlnumDashUnderscoreDot, '-'),
            node_table_part(prefix),
            text::CharClass::Just('-'),
        ),
{
    reveal_strlit("000");
    let whole = node_table_part(prefix) + "-"@ + node_table_part(resource_id);
    text::lemma_head_and_tail(whole, 255);
    if whole.len() < 3 {
        text::lemma_head_and_tail(whole + "000"@, 3);
        assert(text::head_spec(whole + "000"@, 3) =~= (whole + "000"@).take(3));
    }
    text::lemma_trim_leaves_the_core(
        text::clean_spec(prefix, text::CharClass::AlnumDashUnderscoreDot, '-'),
        text::CharClass::Just('-'),
    );
}

impl P2pStorePlan {
    /// A peer is built from the settings of the experiment and of its instance: the tables of the
    /// tracker, each after its own prefix, the port of the endpoint that it advertises or else the
    /// port of the experiment, and the probability of the experiment or else nine in ten.
    pub proof fn lemma_peer_plan(
        self,
        reader: EnvReader,
        instance: InstanceConfig,
        experiment: ExperimentSpec,
        process: Seq<Entry>,
        resource_id: Seq<char>,
        cache_dir: Seq<char>,
        create_tables: Option<bool>,
        resource_dir: Option<Seq<char>>,
        p: (Seq<char>, Seq<char>),
    )
        requires
            self.fits(
                reader,
                instance,
                experiment,
                process,
                resource_id,
                cache_dir,
                create_tables,
                resource_dir,
            ),
            p2p_problem(reader, experiment.env@, process, create_tables) is None,
        ensures
            self.holder_id@ == instance.id@,
            self.cache_dir@ == cache_dir,
            self.advertise_endpoint@ == instance.p2p_advertise_endpoint@,
            self.bind_host@ == experiment.p2p.chunk_server_bind_host@,
            naming::endpoint_port_spec(instance.p2p_advertise_endpoint@) is Some ==> self.bind_port
                == naming::endpoint_port_spec(instance.p2p_advertise_endpoint@)->0,
            naming::endpoint_port_spec(instance.p2p_advertise_endpoint@) is None ==> self.bind_port
                == experiment.p2p.chunk_server_port_base,
            self.runtime_worker_threads == experiment.p2p.chunk_server_runtime_worker_threads,
            self.enable_accel == experiment.p2p.enable_accel,
            self.non_abortable_task_workers == experiment.p2p.non_abortable_task_workers,
            experiment.p2p.accel_probability is Some ==> self.accel_probability
                == experiment.p2p.accel_probability->0,
            experiment.p2p.accel_probability is None ==> self.accel_probability == (Real {
                bits: 0x3fec_cccc_cccc_cccd,
            }),
            self.blob_meta_table@ == naming::dynamodb_table_name_spec(
                p2p_meta(reader, experiment.env@, process)->Ok_0,
                resource_id,
            ),
            self.chunk_holders_table@ == naming::dynamodb_table_name_spec(
                p2p_holders(reader, experiment.env@, process)->Ok_0,
                resource_id,
            ),
            environment::entry_views(self.details@).contains(p) <==> {
                ||| resource_dir is Some && p == ("resource_dir"@, resource_dir->0)
                ||| p == ("cache_dir"@, cache_dir)
                ||| p == ("holder_id"@, instance.id@)
                ||| p == ("advertise_endpoint"@, instance.p2p_advertise_endpoint@)
                ||| p == ("tracker_blob_meta_table"@, self.blob_meta_table@)
                ||| p == ("tracker_chunk_holders_table"@, self.chunk_holders_table@)
            },
    {
        reveal_strlit("resource_dir");
        reveal_strlit("cache_dir");
        reveal_strlit("holder_id");
        reveal_strlit("advertise_endpoint");
        reveal_strlit("tracker_blob_meta_table");
        reveal_strlit("tracker_chunk_holders_table");
        assert("resource_dir"@.len() == 12 && "cache_dir"@.len() == 9 && "holder_id"@.len() == 9
            && "advertise_endpoint"@.len() == 18 && "tracker_blob_meta_table"@.len() == 23
            && "tracker_chunk_holders_table"@.len() == 27);
        assert("cache_dir"@[0] == 'c' && "holder_id"@[0] == 'h');
        lemma_nothing_ascends();
        let s1 = with_detail(Seq::empty(), "resource_dir"@, resource_dir);
        let s2 = with_detail(s1, "cache_dir"@, Some(cache_dir));
        let s3 = with_detail(s2, "holder_id"@, Some(instance.id@));
        let s4 = with_detail(s3, "advertise_endpoint"@, Some(instance.p2p_advertise_endpoint@));
        let s5 = with_detail(s4, "tracker_blob_meta_table"@, Some(self.blob_meta_table@));
        lemma_detail_is_kept(Seq::empty(), "resource_dir"@, resource_dir);
        lemma_detail_is_kept(s1, "cache_dir"@, Some(cache_dir));
        lemma_detail_is_kept(s2, "holder_id"@, Some(instance.id@));
        lemma_detail_is_kept(s3, "advertise_endpoint"@, Some(instance.p2p_advertise_endpoint@));
        lemma_detail_is_kept(s4, "tracker_blob_meta_table"@, Some(self.blob_meta_table@));
        lemma_detail_is_kept(s5, "tracker_chunk_holders_table"@, Some(self.chunk_holders_table@));
    }
}

/// A prefix of buckets that is missing is told by the names that it could have been set under.
pub proof fn lemma_missing_bucket_prefix(
    reader: EnvReader,
    experiment: ExperimentSpec,
    process: Seq<Entry>,
)
    requires
        bucket_prefix_spec(reader, experiment, process) is Err,
    ensures
        bucket_prefix_spec(reader, experiment, process)->Err_0 == (if reader is BlobPut {
            "S3 blob put bucket prefix"@
        } else {
            "S3 bucket prefix"@
        }) + " is required; set one of "@ + text::join_spec(
            seq![
                "LC_BENCH_S3_BUCKET_PREFIX"@,
                "LC_BENCH_S3_BUCKET"@,
                "S3_BUCKET_PREFIX"@,
                "S3_BUCKET"@,
            ],
            ", "@,
        ) + " in [env] or the process environment"@,
{
}

} // verus!
