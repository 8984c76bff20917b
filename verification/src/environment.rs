//! Settings read from the `[env]` table of an experiment and from the process environment.
use crate::config::{Entry, ExperimentSpec};
use crate::text;
use crate::text::NumberError;
use vstd::prelude::*;
use vstd::string::*;

verus! {

/// The value of the first entry from `i` on with the given key.
pub open spec fn lookup_from(entries: Seq<Entry>, key: Seq<char>, i: int) -> Option<Seq<char>>
    decreases entries.len() - i,
{
    if i >= entries.len() {
        None
    } else if entries[i].key@ == key {
        Some(entries[i].value@)
    } else {
        lookup_from(entries, key, i + 1)
    }
}

pub open spec fn lookup_spec(entries: Seq<Entry>, key: Seq<char>) -> Option<Seq<char>> {
    lookup_from(entries, key, 0)
}

/// The value under `key`.
pub fn lookup(entries: &Vec<Entry>, key: &str) -> (r: Option<String>)
    ensures
        text::option_view(r) == lookup_spec(entries@, key@),
{
    let mut i: usize = 0;
    while i < entries.len()
        invariant
            i <= entries@.len(),
            lookup_from(entries@, key@, i as int) == lookup_spec(entries@, key@),
        decreases entries.len() - i,
    {
        if text::same(entries[i].key.as_str(), key) {
            return Some(entries[i].value.clone());
        }
        i = i + 1;
    }
    None
}

/// Who reads a setting. It decides which of several keys counts and how a bad value is reported.
#[derive(Clone, Copy, Debug, PartialEq, Eq, Structural)]
pub enum EnvReader {
    BlobStores,
    BlobPut,
    MetadataStores,
    MetadataExperiments,
}

impl EnvReader {
    /// The blob readers take the first key that is set anywhere, the experiment before the process,
    /// and trim what they find. The metadata readers take the first key that is not blank in the
    /// experiment, and only then look at the process.
    pub open spec fn takes_first_present(self) -> bool {
        self is BlobStores || self is BlobPut
    }

    fn first_present(self) -> (r: bool)
        ensures
            r == self.takes_first_present(),
    {
        match self {
            EnvReader::BlobStores => true,
            EnvReader::BlobPut => true,
            EnvReader::MetadataStores => false,
            EnvReader::MetadataExperiments => false,
        }
    }

    pub open spec fn bad_bool(self, value: Seq<char>, keys: Seq<Seq<char>>) -> Seq<char> {
        match self {
            EnvReader::BlobPut => "invalid boolean value "@ + text::quoted_text(value)
                + " for one of "@ + text::join_spec(keys, ", "@),
            _ => "failed to parse boolean env value "@ + text::quoted_text(value),
        }
    }

    fn bad_bool_text(self, value: &str, keys: &[&str]) -> (r: String)
        ensures
            r@ == self.bad_bool(value@, text::str_views(keys@)),
    {
        let shown = text::quoted(value);
        match self {
            EnvReader::BlobPut => text::cat4(
                "invalid boolean value ",
                shown.as_str(),
                " for one of ",
                text::join_strs(keys, ", ").as_str(),
            ),
            _ => text::cat2("failed to parse boolean env value ", shown.as_str()),
        }
    }

    pub open spec fn bad_number(
        self,
        value: Seq<char>,
        keys: Seq<Seq<char>>,
        error: NumberError,
    ) -> Seq<char> {
        let shown = text::quoted_text(value);
        match self {
            EnvReader::BlobStores => "failed to parse integer env value "@ + shown + ": "@
                + error.text_spec(),
            EnvReader::BlobPut => "invalid u64 value "@ + shown + " for one of "@ + text::join_spec(
                keys,
                ", "@,
            ) + ": "@ + error.text_spec(),
            EnvReader::MetadataStores => "failed to parse env value "@ + shown + " as u64: "@
                + error.text_spec(),
            EnvReader::MetadataExperiments => "failed to parse metadata env value "@ + shown
                + " as u64: "@ + error.text_spec(),
        }
    }

    fn bad_number_text(self, value: &str, keys: &[&str], error: NumberError) -> (r: String)
        ensures
            r@ == self.bad_number(value@, text::str_views(keys@), error),
    {
        let shown = text::quoted(value);
        let why = error.text();
        match self {
            EnvReader::BlobStores => text::cat4(
                "failed to parse integer env value ",
                shown.as_str(),
                ": ",
                why.as_str(),
            ),
            EnvReader::BlobPut => text::cat6(
                "invalid u64 value ",
                shown.as_str(),
                " for one of ",
                text::join_strs(keys, ", ").as_str(),
                ": ",
                why.as_str(),
            ),
            EnvReader::MetadataStores => text::cat4(
                "failed to parse env value ",
                shown.as_str(),
                " as u64: ",
                why.as_str(),
            ),
            EnvReader::MetadataExperiments => text::cat4(
                "failed to parse metadata env value ",
                shown.as_str(),
                " as u64: ",
                why.as_str(),
            ),
        }
    }

    /// Whether a truth value may be written as a single letter.
    pub open spec fn reads_letters(self) -> bool {
        self.takes_first_present()
    }
}

/// The first key from `i` on that is set in `first` or `second`.
pub open spec fn first_present_from(
    first: Seq<Entry>,
    second: Seq<Entry>,
    keys: Seq<Seq<char>>,
    i: int,
) -> Option<Seq<char>>
    decreases keys.len() - i,
{
    if i >= keys.len() {
        None
    } else if lookup_spec(first, keys[i]) is Some {
        lookup_spec(first, keys[i])
    } else if lookup_spec(second, keys[i]) is Some {
        lookup_spec(second, keys[i])
    } else {
        first_present_from(first, second, keys, i + 1)
    }
}

/// The first key from `i` on whose value in `entries` is not blank.
pub open spec fn first_filled_from(entries: Seq<Entry>, keys: Seq<Seq<char>>, i: int) -> Option<
    Seq<char>,
>
    decreases keys.len() - i,
{
    if i >= keys.len() {
        None
    } else {
        match lookup_spec(entries, keys[i]) {
            Some(v) if !text::is_blank_spec(v) => Some(v),
            _ => first_filled_from(entries, keys, i + 1),
        }
    }
}

/// The value that `reader` takes for a list of keys.
pub open spec fn env_any_spec(
    reader: EnvReader,
    experiment: Seq<Entry>,
    process: Seq<Entry>,
    keys: Seq<Seq<char>>,
) -> Option<Seq<char>> {
    if reader.takes_first_present() {
        match first_present_from(experiment, process, keys, 0) {
            Some(v) if !text::is_blank_spec(v) => Some(text::trim_spec(v)),
            _ => None,
        }
    } else {
        match first_filled_from(experiment, keys, 0) {
            Some(v) => Some(v),
            None => first_filled_from(process, keys, 0),
        }
    }
}

fn first_present(first: &Vec<Entry>, second: &Vec<Entry>, keys: &[&str]) -> (r: Option<String>)
    ensures
        text::option_view(r) == first_present_from(first@, second@, text::str_views(keys@), 0),
{
    let mut i: usize = 0;
    while i < keys.len()
        invariant
            i <= keys@.len(),
            first_present_from(first@, second@, text::str_views(keys@), i as int)
                == first_present_from(first@, second@, text::str_views(keys@), 0),
        decreases keys.len() - i,
    {
        let key = keys[i];
        assert(text::str_views(keys@)[i as int] == key@);
        if let Some(v) = lookup(first, key) {
            return Some(v);
        }
        if let Some(v) = lookup(second, key) {
            return Some(v);
        }
        i = i + 1;
    }
    None
}

fn first_filled(entries: &Vec<Entry>, keys: &[&str]) -> (r: Option<String>)
    ensures
        text::option_view(r) == first_filled_from(entries@, text::str_views(keys@), 0),
{
    let mut i: usize = 0;
    while i < keys.len()
        invariant
            i <= keys@.len(),
            first_filled_from(entries@, text::str_views(keys@), i as int) == first_filled_from(
                entries@,
                text::str_views(keys@),
                0,
            ),
        decreases keys.len() - i,
    {
        let key = keys[i];
        assert(text::str_views(keys@)[i as int] == key@);
        if let Some(v) = lookup(entries, key) {
            if !text::is_blank(v.as_str()) {
                return Some(v);
            }
        }
        i = i + 1;
    }
    None
}

/// The value that `reader` takes for a list of keys.
pub fn env_any(
    reader: EnvReader,
    experiment: &ExperimentSpec,
    process: &Vec<Entry>,
    keys: &[&str],
) -> (r: Option<String>)
    ensures
        text::option_view(r) == env_any_spec(
            reader,
            experiment.env@,
            process@,
            text::str_views(keys@),
        ),
{
    if reader.first_present() {
        match first_present(&experiment.env, process, keys) {
            Some(v) => {
                if text::is_blank(v.as_str()) {
                    None
                } else {
                    Some(text::trim(v.as_str()))
                }
            },
            None => None,
        }
    } else {
        match first_filled(&experiment.env, keys) {
            Some(v) => Some(v),
            None => first_filled(process, keys),
        }
    }
}

/// A result whose error is text, by views.
pub open spec fn text_result(r: Result<String, String>) -> Result<Seq<char>, Seq<char>> {
    match r {
        Ok(v) => Ok(v@),
        Err(e) => Err(e@),
    }
}

pub open spec fn required_env_spec(
    reader: EnvReader,
    experiment: Seq<Entry>,
    process: Seq<Entry>,
    keys: Seq<Seq<char>>,
    description: Seq<char>,
) -> Result<Seq<char>, Seq<char>> {
    match env_any_spec(reader, experiment, process, keys) {
        Some(v) => Ok(v),
        None => Err(
            description + " is required; set one of "@ + text::join_spec(keys, ", "@)
                + " in [env] or the process environment"@,
        ),
    }
}

pub fn required_env_any(
    reader: EnvReader,
    experiment: &ExperimentSpec,
    process: &Vec<Entry>,
    keys: &[&str],
    description: &str,
) -> (r: Result<String, String>)
    ensures
        text_result(r) == required_env_spec(
            reader,
            experiment.env@,
            process@,
            text::str_views(keys@),
            description@,
        ),
{
    match env_any(reader, experiment, process, keys) {
        Some(v) => Ok(v),
        None => Err(
            text::cat4(
                description,
                " is required; set one of ",
                text::join_strs(keys, ", ").as_str(),
                " in [env] or the process environment",
            ),
        ),
    }
}

/// A truth value in words; `letters` also admits `y` and `n`.
pub open spec fn bool_of(value: Seq<char>, letters: bool) -> Option<bool> {
    let word = text::normal_spec(value);
    if word == "1"@ || word == "true"@ || word == "yes"@ || word == "on"@ || (letters && word
        == "y"@) {
        Some(true)
    } else if word == "0"@ || word == "false"@ || word == "no"@ || word == "off"@ || (letters
        && word == "n"@) {
        Some(false)
    } else {
        None
    }
}

pub fn parse_bool(value: &str, letters: bool) -> (r: Option<bool>)
    ensures
        r == bool_of(value@, letters),
{
    let word = text::normal(value);
    let w = word.as_str();
    if text::same(w, "1") || text::same(w, "true") || text::same(w, "yes") || text::same(w, "on")
        || (letters && text::same(w, "y")) {
        Some(true)
    } else if text::same(w, "0") || text::same(w, "false") || text::same(w, "no") || text::same(
        w,
        "off",
    ) || (letters && text::same(w, "n")) {
        Some(false)
    } else {
        None
    }
}

pub open spec fn env_bool_spec(
    reader: EnvReader,
    experiment: Seq<Entry>,
    process: Seq<Entry>,
    keys: Seq<Seq<char>>,
) -> Result<Option<bool>, Seq<char>> {
    match env_any_spec(reader, experiment, process, keys) {
        None => Ok(None),
        Some(v) => match bool_of(v, reader.reads_letters()) {
            Some(b) => Ok(Some(b)),
            None => Err(reader.bad_bool(v, keys)),
        },
    }
}

/// A result with a plain value whose error is text, by views.
pub open spec fn plain_result<T>(r: Result<T, String>) -> Result<T, Seq<char>> {
    match r {
        Ok(v) => Ok(v),
        Err(e) => Err(e@),
    }
}

pub fn env_bool_any(
    reader: EnvReader,
    experiment: &ExperimentSpec,
    process: &Vec<Entry>,
    keys: &[&str],
) -> (r: Result<Option<bool>, String>)
    ensures
        plain_result(r) == env_bool_spec(
            reader,
            experiment.env@,
            process@,
            text::str_views(keys@),
        ),
{
    match env_any(reader, experiment, process, keys) {
        None => Ok(None),
        Some(v) => match parse_bool(v.as_str(), reader.first_present()) {
            Some(b) => Ok(Some(b)),
            None => Err(reader.bad_bool_text(v.as_str(), keys)),
        },
    }
}

pub open spec fn env_u64_spec(
    reader: EnvReader,
    experiment: Seq<Entry>,
    process: Seq<Entry>,
    keys: Seq<Seq<char>>,
) -> Result<Option<u64>, Seq<char>> {
    match env_any_spec(reader, experiment, process, keys) {
        None => Ok(None),
        Some(v) => match text::number_spec(v, u64::MAX as nat) {
            Ok(n) => Ok(Some(n as u64)),
            Err(e) => Err(reader.bad_number(v, keys, e)),
        },
    }
}

pub fn env_u64_any(
    reader: EnvReader,
    experiment: &ExperimentSpec,
    process: &Vec<Entry>,
    keys: &[&str],
) -> (r: Result<Option<u64>, String>)
    ensures
        plain_result(r) == env_u64_spec(
            reader,
            experiment.env@,
            process@,
            text::str_views(keys@),
        ),
{
    match env_any(reader, experiment, process, keys) {
        None => Ok(None),
        Some(v) => match text::number(v.as_str(), u64::MAX) {
            Ok(n) => Ok(Some(n)),
            Err(e) => Err(reader.bad_number_text(v.as_str(), keys, e)),
        },
    }
}

pub open spec fn env_usize_spec(
    reader: EnvReader,
    experiment: Seq<Entry>,
    process: Seq<Entry>,
    keys: Seq<Seq<char>>,
) -> Result<Option<usize>, Seq<char>> {
    match env_any_spec(reader, experiment, process, keys) {
        None => Ok(None),
        Some(v) => match text::number_spec(v, usize::MAX as nat) {
            Ok(n) => Ok(Some(n as usize)),
            Err(e) => Err(
                "failed to parse metadata env value "@ + text::quoted_text(v) + " as usize: "@
                    + e.text_spec(),
            ),
        },
    }
}

/// A size or a count of a metadata experiment.
pub fn env_usize_any(
    reader: EnvReader,
    experiment: &ExperimentSpec,
    process: &Vec<Entry>,
    keys: &[&str],
) -> (r: Result<Option<usize>, String>)
    ensures
        plain_result(r) == env_usize_spec(
            reader,
            experiment.env@,
            process@,
            text::str_views(keys@),
        ),
{
    match env_any(reader, experiment, process, keys) {
        None => Ok(None),
        Some(v) => match text::number_usize(v.as_str()) {
            Ok(n) => Ok(Some(n)),
            Err(e) => Err(
                text::cat4(
                    "failed to parse metadata env value ",
                    text::quoted(v.as_str()).as_str(),
                    " as usize: ",
                    e.text().as_str(),
                ),
            ),
        },
    }
}

pub open spec fn pacer_core_spec(experiment: Seq<Entry>) -> Result<Option<usize>, Seq<char>> {
    match lookup_spec(experiment, "LC_BENCH_PACER_CORE"@) {
        None => Ok(None),
        Some(v) => match text::number_spec(v, usize::MAX as nat) {
            Ok(n) => Ok(Some(n as usize)),
            Err(e) => Err(
                "failed to parse env.LC_BENCH_PACER_CORE="@ + text::quoted_text(v) + " as usize: "@
                    + e.text_spec(),
            ),
        },
    }
}

/// The core that an experiment pins the pacer to.
pub fn pacer_core_id_from_experiment(experiment: &ExperimentSpec) -> (r: Result<
    Option<usize>,
    String,
>)
    ensures
        plain_result(r) == pacer_core_spec(experiment.env@),
{
    match lookup(&experiment.env, "LC_BENCH_PACER_CORE") {
        None => Ok(None),
        Some(v) => match text::number_usize(v.as_str()) {
            Ok(n) => Ok(Some(n)),
            Err(e) => Err(
                text::cat4(
                    "failed to parse env.LC_BENCH_PACER_CORE=",
                    text::quoted(v.as_str()).as_str(),
                    " as usize: ",
                    e.text().as_str(),
                ),
            ),
        },
    }
}

/// The experiment's value stands before the process's for every single key, whoever reads it.
pub proof fn lemma_experiment_overrides_process(
    reader: EnvReader,
    experiment: Seq<Entry>,
    process: Seq<Entry>,
    key: Seq<char>,
    value: Seq<char>,
)
    requires
        lookup_spec(experiment, key) == Some(value),
        !text::is_blank_spec(value),
    ensures
        env_any_spec(reader, experiment, process, seq![key]) == env_any_spec(
            reader,
            experiment,
            Seq::empty(),
            seq![key],
        ),
        env_any_spec(reader, experiment, process, seq![key]) is Some,
{
    reveal_with_fuel(first_present_from, 2);
    reveal_with_fuel(first_filled_from, 2);
    assert(seq![key][0] == key);
}

// ---------------------------------------------------------------------------------------------
// AWS clients
// ---------------------------------------------------------------------------------------------
/// What an AWS client is built from.
#[derive(Clone, Debug)]
pub struct AwsClientConfig {
    pub profile_name: Option<String>,
    pub region_name: Option<String>,
    pub endpoint_url: Option<String>,
    pub access_key_id: Option<String>,
    pub secret_access_key: Option<String>,
    pub session_token: Option<String>,
    pub force_path_style: bool,
}

/// The same by views.
pub struct AwsClientModel {
    pub profile_name: Option<Seq<char>>,
    pub region_name: Option<Seq<char>>,
    pub endpoint_url: Option<Seq<char>>,
    pub access_key_id: Option<Seq<char>>,
    pub secret_access_key: Option<Seq<char>>,
    pub session_token: Option<Seq<char>>,
    pub force_path_style: bool,
}

pub open spec fn profile_keys() -> Seq<Seq<char>> {
    seq!["LC_BENCH_AWS_PROFILE"@, "AWS_PROFILE"@]
}

pub open spec fn region_keys() -> Seq<Seq<char>> {
    seq!["LC_BENCH_AWS_REGION"@, "AWS_REGION"@, "AWS_DEFAULT_REGION"@]
}

pub open spec fn s3_endpoint_keys() -> Seq<Seq<char>> {
    seq!["LC_BENCH_S3_ENDPOINT_URL"@, "AWS_S3_ENDPOINT_URL"@, "AWS_ENDPOINT_URL"@]
}

pub open spec fn dynamodb_endpoint_keys() -> Seq<Seq<char>> {
    seq![
        "LC_BENCH_DYNAMODB_ENDPOINT_URL"@,
        "AWS_DYNAMODB_ENDPOINT_URL"@,
        "DYNAMODB_ENDPOINT_URL"@,
    ]
}

pub open spec fn access_key_keys() -> Seq<Seq<char>> {
    seq!["LC_BENCH_AWS_ACCESS_KEY_ID"@, "AWS_ACCESS_KEY_ID"@]
}

pub open spec fn secret_key_keys() -> Seq<Seq<char>> {
    seq!["LC_BENCH_AWS_SECRET_ACCESS_KEY"@, "AWS_SECRET_ACCESS_KEY"@]
}

pub open spec fn session_token_keys() -> Seq<Seq<char>> {
    seq!["LC_BENCH_AWS_SESSION_TOKEN"@, "AWS_SESSION_TOKEN"@]
}

pub open spec fn path_style_keys() -> Seq<Seq<char>> {
    seq!["LC_BENCH_S3_FORCE_PATH_STYLE"@, "AWS_S3_FORCE_PATH_STYLE"@]
}

impl AwsClientModel {
    pub open spec fn read(
        reader: EnvReader,
        experiment: Seq<Entry>,
        process: Seq<Entry>,
        endpoint_keys: Seq<Seq<char>>,
        force_path_style: bool,
    ) -> AwsClientModel {
        AwsClientModel {
            profile_name: env_any_spec(reader, experiment, process, profile_keys()),
            region_name: env_any_spec(reader, experiment, process, region_keys()),
            endpoint_url: env_any_spec(reader, experiment, process, endpoint_keys),
            access_key_id: env_any_spec(reader, experiment, process, access_key_keys()),
            secret_access_key: env_any_spec(reader, experiment, process, secret_key_keys()),
            session_token: env_any_spec(reader, experiment, process, session_token_keys()),
            force_path_style,
        }
    }

    /// The two halves of a key pair are set together or not at all.
    pub open spec fn keys_paired(self) -> bool {
        self.access_key_id is Some <==> self.secret_access_key is Some
    }

    pub open spec fn validated(self) -> Result<AwsClientModel, Seq<char>> {
        if self.keys_paired() {
            Ok(self)
        } else {
            Err(
                "AWS config requires both access key id and secret access key when either is set"@,
            )
        }
    }

    pub open spec fn for_dynamodb(
        reader: EnvReader,
        experiment: Seq<Entry>,
        process: Seq<Entry>,
    ) -> Result<AwsClientModel, Seq<char>> {
        AwsClientModel::read(
            reader,
            experiment,
            process,
            dynamodb_endpoint_keys(),
            false,
        ).validated()
    }

    pub open spec fn for_s3(
        reader: EnvReader,
        experiment: Seq<Entry>,
        process: Seq<Entry>,
    ) -> Result<AwsClientModel, Seq<char>> {
        match env_bool_spec(reader, experiment, process, path_style_keys()) {
            Err(e) => Err(e),
            Ok(force) => AwsClientModel::read(
                reader,
                experiment,
                process,
                s3_endpoint_keys(),
                force == Some(true),
            ).validated(),
        }
    }
}

/// What an environment variable is set to from a configured value, if it is set at all.
pub open spec fn exported(reader: EnvReader, value: Option<Seq<char>>) -> Option<Seq<char>> {
    match value {
        None => None,
        Some(v) => match reader {
            EnvReader::BlobStores => Some(v),
            EnvReader::BlobPut => if text::is_blank_spec(v) {
                None
            } else {
                Some(text::trim_spec(v))
            },
            _ => if text::is_blank_spec(v) {
                None
            } else {
                Some(v)
            },
        },
    }
}

/// A list of entries by views.
pub open spec fn entry_views(entries: Seq<Entry>) -> Seq<(Seq<char>, Seq<char>)> {
    entries.map_values(|e: Entry| (e.key@, e.value@))
}

pub open spec fn export_one(
    so_far: Seq<(Seq<char>, Seq<char>)>,
    reader: EnvReader,
    name: Seq<char>,
    value: Option<Seq<char>>,
) -> Seq<(Seq<char>, Seq<char>)> {
    match exported(reader, value) {
        Some(v) => so_far.push((name, v)),
        None => so_far,
    }
}

pub fn push_entry(entries: &mut Vec<Entry>, key: &str, value: &str)
    ensures
        entry_views(final(entries)@) == entry_views(old(entries)@).push((key@, value@)),
{
    entries.push(Entry { key: key.to_owned(), value: value.to_owned() });
    assert(entry_views(entries@) =~= entry_views(old(entries)@).push((key@, value@)));
}

fn export_to(entries: &mut Vec<Entry>, reader: EnvReader, name: &str, value: &Option<String>)
    ensures
        entry_views(final(entries)@) == export_one(
            entry_views(old(entries)@),
            reader,
            name@,
            text::option_view(*value),
        ),
{
    if let Some(v) = value {
        match reader {
            EnvReader::BlobStores => {
                push_entry(entries, name, v.as_str());
            },
            EnvReader::BlobPut => {
                if !text::is_blank(v.as_str()) {
                    push_entry(entries, name, text::trim(v.as_str()).as_str());
                }
            },
            _ => {
                if !text::is_blank(v.as_str()) {
                    push_entry(entries, name, v.as_str());
                }
            },
        }
    }
}

impl AwsClientConfig {
    pub open spec fn model(self) -> AwsClientModel {
        AwsClientModel {
            profile_name: text::option_view(self.profile_name),
            region_name: text::option_view(self.region_name),
            endpoint_url: text::option_view(self.endpoint_url),
            access_key_id: text::option_view(self.access_key_id),
            secret_access_key: text::option_view(self.secret_access_key),
            session_token: text::option_view(self.session_token),
            force_path_style: self.force_path_style,
        }
    }

    pub open spec fn outcome(r: Result<AwsClientConfig, String>) -> Result<
        AwsClientModel,
        Seq<char>,
    > {
        match r {
            Ok(c) => Ok(c.model()),
            Err(e) => Err(e@),
        }
    }

    fn read(
        reader: EnvReader,
        experiment: &ExperimentSpec,
        process: &Vec<Entry>,
        endpoint_keys: &[&str],
        force_path_style: bool,
    ) -> (r: AwsClientConfig)
        ensures
            r.model() == AwsClientModel::read(
                reader,
                experiment.env@,
                process@,
                text::str_views(endpoint_keys@),
                force_path_style,
            ),
    {
        let profile = ["LC_BENCH_AWS_PROFILE", "AWS_PROFILE"];
        let region = ["LC_BENCH_AWS_REGION", "AWS_REGION", "AWS_DEFAULT_REGION"];
        let access = ["LC_BENCH_AWS_ACCESS_KEY_ID", "AWS_ACCESS_KEY_ID"];
        let secret = ["LC_BENCH_AWS_SECRET_ACCESS_KEY", "AWS_SECRET_ACCESS_KEY"];
        let session = ["LC_BENCH_AWS_SESSION_TOKEN", "AWS_SESSION_TOKEN"];
        proof {
            assert(text::str_views(profile@) =~= profile_keys());
            assert(text::str_views(region@) =~= region_keys());
            assert(text::str_views(access@) =~= access_key_keys());
            assert(text::str_views(secret@) =~= secret_key_keys());
            assert(text::str_views(session@) =~= session_token_keys());
        }
        AwsClientConfig {
            profile_name: env_any(reader, experiment, process, &profile),
            region_name: env_any(reader, experiment, process, &region),
            endpoint_url: env_any(reader, experiment, process, endpoint_keys),
            access_key_id: env_any(reader, experiment, process, &access),
            secret_access_key: env_any(reader, experiment, process, &secret),
            session_token: env_any(reader, experiment, process, &session),
            force_path_style,
        }
    }

    pub fn validated(self) -> (r: Result<AwsClientConfig, String>)
        ensures
            AwsClientConfig::outcome(r) == self.model().validated(),
            r matches Ok(c) ==> c == self,
    {
        if self.access_key_id.is_some() == self.secret_access_key.is_some() {
            Ok(self)
        } else {
            Err(
                "AWS config requires both access key id and secret access key when either is set".to_owned(),
            )
        }
    }

    pub fn for_s3(reader: EnvReader, experiment: &ExperimentSpec, process: &Vec<Entry>) -> (r:
        Result<AwsClientConfig, String>)
        ensures
            AwsClientConfig::outcome(r) == AwsClientModel::for_s3(
                reader,
                experiment.env@,
                process@,
            ),
    {
        let style = ["LC_BENCH_S3_FORCE_PATH_STYLE", "AWS_S3_FORCE_PATH_STYLE"];
        let endpoint = ["LC_BENCH_S3_ENDPOINT_URL", "AWS_S3_ENDPOINT_URL", "AWS_ENDPOINT_URL"];
        proof {
            assert(text::str_views(style@) =~= path_style_keys());
            assert(text::str_views(endpoint@) =~= s3_endpoint_keys());
        }
        match env_bool_any(reader, experiment, process, &style) {
            Err(e) => Err(e),
            Ok(force) => {
                let force_path_style = match force {
                    Some(b) => b,
                    None => false,
                };
                AwsClientConfig::read(
                    reader,
                    experiment,
                    process,
                    &endpoint,
                    force_path_style,
                ).validated()
            },
        }
    }

    pub fn for_dynamodb(reader: EnvReader, experiment: &ExperimentSpec, process: &Vec<Entry>) -> (r:
        Result<AwsClientConfig, String>)
        ensures
            AwsClientConfig::outcome(r) == AwsClientModel::for_dynamodb(
                reader,
                experiment.env@,
                process@,
            ),
    {
        let endpoint = [
            "LC_BENCH_DYNAMODB_ENDPOINT_URL",
            "AWS_DYNAMODB_ENDPOINT_URL",
            "DYNAMODB_ENDPOINT_URL",
        ];
        proof {
            assert(text::str_views(endpoint@) =~= dynamodb_endpoint_keys());
        }
        AwsClientConfig::read(reader, experiment, process, &endpoint, false).validated()
    }

    /// The variables of the process environment to set before a client is made, in order.
    pub fn apply_process_env(&self, reader: EnvReader) -> (r: Vec<Entry>)
        ensures
            entry_views(r@) == self.model().process_env(reader),
    {
        let mut out: Vec<Entry> = Vec::new();
        assert(entry_views(out@) =~= Seq::<(Seq<char>, Seq<char>)>::empty());
        export_to(&mut out, reader, "AWS_ACCESS_KEY_ID", &self.access_key_id);
        export_to(&mut out, reader, "AWS_SECRET_ACCESS_KEY", &self.secret_access_key);
        export_to(&mut out, reader, "AWS_SESSION_TOKEN", &self.session_token);
        export_to(&mut out, reader, "AWS_PROFILE", &self.profile_name);
        out
    }
}

impl AwsClientModel {
    pub open spec fn process_env(self, reader: EnvReader) -> Seq<(Seq<char>, Seq<char>)> {
        let s = Seq::<(Seq<char>, Seq<char>)>::empty();
        let s = export_one(s, reader, "AWS_ACCESS_KEY_ID"@, self.access_key_id);
        let s = export_one(s, reader, "AWS_SECRET_ACCESS_KEY"@, self.secret_access_key);
        let s = export_one(s, reader, "AWS_SESSION_TOKEN"@, self.session_token);
        export_one(s, reader, "AWS_PROFILE"@, self.profile_name)
    }
}

// ---------------------------------------------------------------------------------------------
// Whose value counts
// ---------------------------------------------------------------------------------------------
/// Whether a setting is there and says something.
pub open spec fn says_something(entries: Seq<Entry>, key: Seq<char>) -> bool {
    lookup_spec(entries, key) is Some && !text::is_blank_spec(lookup_spec(entries, key)->0)
}

proof fn lemma_first_filled(entries: Seq<Entry>, keys: Seq<Seq<char>>, i: int, k: int)
    requires
        0 <= i <= k <= keys.len(),
        forall|j: int| i <= j < k ==> !says_something(entries, #[trigger] keys[j]),
    ensures
        k < keys.len() && says_something(entries, keys[k]) ==> first_filled_from(entries, keys, i)
            == lookup_spec(entries, keys[k]),
        k == keys.len() ==> first_filled_from(entries, keys, i) is None,
    decreases k - i,
{
    if i < k {
        assert(!says_something(entries, keys[i]));
        lemma_first_filled(entries, keys, i + 1, k);
    }
}

proof fn lemma_first_present(
    first: Seq<Entry>,
    second: Seq<Entry>,
    keys: Seq<Seq<char>>,
    i: int,
    k: int,
)
    requires
        0 <= i <= k <= keys.len(),
        forall|j: int|
            i <= j < k ==> lookup_spec(first, #[trigger] keys[j]) is None && lookup_spec(
                second,
                keys[j],
            ) is None,
    ensures
        first_present_from(first, second, keys, i) == first_present_from(first, second, keys, k),
    decreases k - i,
{
    if i < k {
        assert(lookup_spec(first, keys[i]) is None && lookup_spec(second, keys[i]) is None);
        lemma_first_present(first, second, keys, i + 1, k);
    }
}

/// For metadata the first name under which the experiment says something counts. Only where it says
/// nothing under any of them does the process count, by the first name under which it says something.
pub proof fn lemma_metadata_settings_by_source(
    reader: EnvReader,
    experiment: Seq<Entry>,
    process: Seq<Entry>,
    keys: Seq<Seq<char>>,
    k: int,
)
    requires
        reader is MetadataStores || reader is MetadataExperiments,
        0 <= k <= keys.len(),
    ensures
        k < keys.len() && (forall|j: int|
            0 <= j < k ==> !says_something(experiment, #[trigger] keys[j])) && says_something(
            experiment,
            keys[k],
        ) ==> env_any_spec(reader, experiment, process, keys) == lookup_spec(experiment, keys[k]),
        k < keys.len() && (forall|j: int|
            0 <= j < keys.len() ==> !says_something(experiment, #[trigger] keys[j])) && (forall|j: int|
            0 <= j < k ==> !says_something(process, #[trigger] keys[j])) && says_something(
            process,
            keys[k],
        ) ==> env_any_spec(reader, experiment, process, keys) == lookup_spec(process, keys[k]),
        (forall|j: int|
            0 <= j < keys.len() ==> !says_something(experiment, #[trigger] keys[j])
                && !says_something(process, keys[j])) ==> env_any_spec(
            reader,
            experiment,
            process,
            keys,
        ) is None,
{
    let n = keys.len() as int;
    if k < n && (forall|j: int| 0 <= j < k ==> !says_something(experiment, #[trigger] keys[j]))
        && says_something(experiment, keys[k]) {
        lemma_first_filled(experiment, keys, 0, k);
    }
    if forall|j: int| 0 <= j < n ==> !says_something(experiment, #[trigger] keys[j]) {
        lemma_first_filled(experiment, keys, 0, n);
        if k < n && (forall|j: int| 0 <= j < k ==> !says_something(process, #[trigger] keys[j]))
            && says_something(process, keys[k]) {
            lemma_first_filled(process, keys, 0, k);
        }
        if forall|j: int| 0 <= j < n ==> !says_something(process, #[trigger] keys[j]) {
            lemma_first_filled(process, keys, 0, n);
        }
    }
    if forall|j: int|
        0 <= j < n ==> !says_something(experiment, #[trigger] keys[j]) && !says_something(
            process,
            keys[j],
        ) {
        assert forall|j: int| 0 <= j < n implies !says_something(experiment, #[trigger] keys[j]) by {}
        lemma_first_filled(experiment, keys, 0, n);
        lemma_first_filled(process, keys, 0, n);
    }
}

/// For blobs the first name that is there at all counts, and the experiment stands before the process
/// under that name. The value counts without the blanks around it; a blank one says nothing.
pub proof fn lemma_blob_settings_by_source(
    reader: EnvReader,
    experiment: Seq<Entry>,
    process: Seq<Entry>,
    keys: Seq<Seq<char>>,
    k: int,
)
    requires
        reader is BlobStores || reader is BlobPut,
        0 <= k <= keys.len(),
        forall|j: int|
            0 <= j < k ==> lookup_spec(experiment, #[trigger] keys[j]) is None && lookup_spec(
                process,
                keys[j],
            ) is None,
    ensures
        k == keys.len() ==> env_any_spec(reader, experiment, process, keys) is None,
        k < keys.len() && lookup_spec(experiment, keys[k]) is Some ==> env_any_spec(
            reader,
            experiment,
            process,
            keys,
        ) == (if text::is_blank_spec(lookup_spec(experiment, keys[k])->0) {
            None
        } else {
            Some(text::trim_spec(lookup_spec(experiment, keys[k])->0))
        }),
        k < keys.len() && lookup_spec(experiment, keys[k]) is None && lookup_spec(
            process,
            keys[k],
        ) is Some ==> env_any_spec(reader, experiment, process, keys) == (if text::is_blank_spec(
            lookup_spec(process, keys[k])->0,
        ) {
            None
        } else {
            Some(text::trim_spec(lookup_spec(process, keys[k])->0))
        }),
{
    lemma_first_present(experiment, process, keys, 0, k);
}

/// The words for yes and for no. The single letters count only where blobs are concerned.
pub proof fn lemma_words_for_yes_and_no(value: Seq<char>, letters: bool)
    ensures
        ({
            let word = text::normal_spec(value);
            &&& bool_of(value, letters) == Some(true) <==> word == "1"@ || word == "true"@ || word
                == "yes"@ || word == "on"@ || (letters && word == "y"@)
            &&& bool_of(value, letters) == Some(false) <==> word == "0"@ || word == "false"@ || word
                == "no"@ || word == "off"@ || (letters && word == "n"@)
        }),
        EnvReader::BlobStores.reads_letters() && EnvReader::BlobPut.reads_letters(),
        !EnvReader::MetadataStores.reads_letters() && !EnvReader::MetadataExperiments.reads_letters(),
{
    reveal_strlit("1");
    reveal_strlit("true");
    reveal_strlit("yes");
    reveal_strlit("on");
    reveal_strlit("y");
    reveal_strlit("0");
    reveal_strlit("false");
    reveal_strlit("no");
    reveal_strlit("off");
    reveal_strlit("n");
    assert("1"@[0] == '1' && "true"@[0] == 't' && "yes"@[0] == 'y' && "on"@[0] == 'o' && "y"@[0]
        == 'y');
    assert("0"@[0] == '0' && "false"@[0] == 'f' && "no"@[0] == 'n' && "off"@[0] == 'o' && "n"@[0]
        == 'n');
    assert("on"@[1] == 'n' && "off"@[1] == 'f');
}

/// A setting that is not there, or says nothing, is no setting. One that is there is read as what it
/// is for, and is an error where it cannot be.
pub proof fn lemma_settings_are_read(
    reader: EnvReader,
    experiment: Seq<Entry>,
    process: Seq<Entry>,
    keys: Seq<Seq<char>>,
    description: Seq<char>,
)
    ensures
        ({
            let found = env_any_spec(reader, experiment, process, keys);
            let b = env_bool_spec(reader, experiment, process, keys);
            let n = env_u64_spec(reader, experiment, process, keys);
            let u = env_usize_spec(reader, experiment, process, keys);
            let r = required_env_spec(reader, experiment, process, keys, description);
            &&& found is None ==> b == Ok::<Option<bool>, Seq<char>>(None) && n == Ok::<
                Option<u64>,
                Seq<char>,
            >(None) && u == Ok::<Option<usize>, Seq<char>>(None) && r is Err
            &&& found is Some ==> {
                let v = found->0;
                &&& b is Ok <==> bool_of(v, reader.reads_letters()) is Some
                &&& b is Ok ==> b->Ok_0 == bool_of(v, reader.reads_letters())
                &&& n is Ok <==> text::number_spec(v, u64::MAX as nat) is Ok
                &&& n is Ok ==> n->Ok_0 is Some && (n->Ok_0)->0 == text::number_spec(
                    v,
                    u64::MAX as nat,
                )->Ok_0
                &&& u is Ok <==> text::number_spec(v, usize::MAX as nat) is Ok
                &&& u is Ok ==> u->Ok_0 is Some && (u->Ok_0)->0 == text::number_spec(
                    v,
                    usize::MAX as nat,
                )->Ok_0
                &&& r == Ok::<Seq<char>, Seq<char>>(v)
            }
            &&& r is Err ==> r->Err_0 == description + " is required; set one of "@
                + text::join_spec(keys, ", "@) + " in [env] or the process environment"@
        }),
{
    if let Some(v) = env_any_spec(reader, experiment, process, keys) {
        text::lemma_number_in_range(v, u64::MAX as nat);
        text::lemma_number_in_range(v, usize::MAX as nat);
    }
}

/// The core of the pacer is the number that the experiment names under `LC_BENCH_PACER_CORE`; what is
/// no number is an error.
pub proof fn lemma_pacer_core_is_read(experiment: Seq<Entry>)
    ensures
        ({
            let found = lookup_spec(experiment, "LC_BENCH_PACER_CORE"@);
            let r = pacer_core_spec(experiment);
            &&& found is None ==> r == Ok::<Option<usize>, Seq<char>>(None)
            &&& found is Some ==> (r is Ok <==> text::number_spec(found->0, usize::MAX as nat) is Ok)
            &&& found is Some && r is Ok ==> r->Ok_0 is Some && (r->Ok_0)->0 == text::number_spec(
                found->0,
                usize::MAX as nat,
            )->Ok_0
        }),
{
    if let Some(v) = lookup_spec(experiment, "LC_BENCH_PACER_CORE"@) {
        text::lemma_number_in_range(v, usize::MAX as nat);
    }
}

/// What a client is built from is found under the names of each thing, the program's own name before
/// those that others know as well, and each thing in its own place. A key comes with its secret or not
/// at all.
pub proof fn lemma_clients_are_read(reader: EnvReader, experiment: Seq<Entry>, process: Seq<Entry>)
    ensures
        AwsClientModel::for_dynamodb(reader, experiment, process) is Ok <==> (env_any_spec(reader, experiment, process, seq!["LC_BENCH_AWS_ACCESS_KEY_ID"@, "AWS_ACCESS_KEY_ID"@]) is Some
            <==> env_any_spec(reader, experiment, process, seq!["LC_BENCH_AWS_SECRET_ACCESS_KEY"@, "AWS_SECRET_ACCESS_KEY"@]) is Some),
        AwsClientModel::for_dynamodb(reader, experiment, process) is Ok ==> {
            let m = AwsClientModel::for_dynamodb(reader, experiment, process)->Ok_0;
            &&& m.profile_name == env_any_spec(
                reader,
                experiment,
                process,
                seq![
                    "LC_BENCH_AWS_PROFILE"@,
                    "AWS_PROFILE"@,
                ],
            )
            &&& m.region_name == env_any_spec(
                reader,
                experiment,
                process,
                seq![
                    "LC_BENCH_AWS_REGION"@,
                    "AWS_REGION"@,
                    "AWS_DEFAULT_REGION"@,
                ],
            )
            &&& m.endpoint_url == env_any_spec(
                reader,
                experiment,
                process,
                seq![
                    "LC_BENCH_DYNAMODB_ENDPOINT_URL"@,
                    "AWS_DYNAMODB_ENDPOINT_URL"@,
                    "DYNAMODB_ENDPOINT_URL"@,
                ],
            )
            &&& m.access_key_id == env_any_spec(
                reader,
                experiment,
                process,
                seq![
                    "LC_BENCH_AWS_ACCESS_KEY_ID"@,
                    "AWS_ACCESS_KEY_ID"@,
                ],
            )
            &&& m.secret_access_key == env_any_spec(
                reader,
                experiment,
                process,
                seq![
                    "LC_BENCH_AWS_SECRET_ACCESS_KEY"@,
                    "AWS_SECRET_ACCESS_KEY"@,
                ],
            )
            &&& m.session_token == env_any_spec(
                reader,
                experiment,
                process,
                seq![
                    "LC_BENCH_AWS_SESSION_TOKEN"@,
                    "AWS_SESSION_TOKEN"@,
                ],
            )
            &&& !m.force_path_style
        },
        AwsClientModel::for_s3(reader, experiment, process) is Ok <==> (env_any_spec(reader, experiment, process, seq!["LC_BENCH_AWS_ACCESS_KEY_ID"@, "AWS_ACCESS_KEY_ID"@]) is Some <==> env_any_spec(reader, experiment, process, seq!["LC_BENCH_AWS_SECRET_ACCESS_KEY"@, "AWS_SECRET_ACCESS_KEY"@]) is Some)
            && env_bool_spec(reader, experiment, process, seq!["LC_BENCH_S3_FORCE_PATH_STYLE"@, "AWS_S3_FORCE_PATH_STYLE"@]) is Ok,
        AwsClientModel::for_s3(reader, experiment, process) is Ok ==> {
            let m = AwsClientModel::for_s3(reader, experiment, process)->Ok_0;
            &&& m.profile_name == env_any_spec(
                reader,
                experiment,
                process,
                seq![
                    "LC_BENCH_AWS_PROFILE"@,
                    "AWS_PROFILE"@,
                ],
            )
            &&& m.region_name == env_any_spec(
                reader,
                experiment,
                process,
                seq![
                    "LC_BENCH_AWS_REGION"@,
                    "AWS_REGION"@,
                    "AWS_DEFAULT_REGION"@,
                ],
            )
            &&& m.endpoint_url == env_any_spec(
                reader,
                experiment,
                process,
                seq![
                    "LC_BENCH_S3_ENDPOINT_URL"@,
                    "AWS_S3_ENDPOINT_URL"@,
                    "AWS_ENDPOINT_URL"@,
                ],
            )
            &&& m.access_key_id == env_any_spec(
                reader,
                experiment,
                process,
                seq![
                    "LC_BENCH_AWS_ACCESS_KEY_ID"@,
                    "AWS_ACCESS_KEY_ID"@,
                ],
            )
            &&& m.secret_access_key == env_any_spec(
                reader,
                experiment,
                process,
                seq![
                    "LC_BENCH_AWS_SECRET_ACCESS_KEY"@,
                    "AWS_SECRET_ACCESS_KEY"@,
                ],
            )
            &&& m.session_token == env_any_spec(
                reader,
                experiment,
                process,
                seq![
                    "LC_BENCH_AWS_SESSION_TOKEN"@,
                    "AWS_SESSION_TOKEN"@,
                ],
            )
            &&& m.force_path_style <==> env_bool_spec(
                reader,
                experiment,
                process,
                seq!["LC_BENCH_S3_FORCE_PATH_STYLE"@, "AWS_S3_FORCE_PATH_STYLE"@],
            )->Ok_0 == Some(true)
        },
{
}

/// What a client hands to the process of a store: the key, the secret, the token and the profile, each
/// under the name that others know it by and none that is not there.
pub proof fn lemma_process_gets_the_keys(c: AwsClientModel, reader: EnvReader)
    ensures
        ({
            let env = c.process_env(reader);
            let a: int = if exported(reader, c.access_key_id) is Some { 1 } else { 0 };
            let s: int = if exported(reader, c.secret_access_key) is Some { 1 } else { 0 };
            let t: int = if exported(reader, c.session_token) is Some { 1 } else { 0 };
            let p: int = if exported(reader, c.profile_name) is Some { 1 } else { 0 };
            &&& env.len() == a + s + t + p
            &&& a == 1 ==> env[0] == ("AWS_ACCESS_KEY_ID"@, exported(reader, c.access_key_id)->0)
            &&& s == 1 ==> env[a] == (
                "AWS_SECRET_ACCESS_KEY"@,
                exported(reader, c.secret_access_key)->0,
            )
            &&& t == 1 ==> env[a + s] == ("AWS_SESSION_TOKEN"@, exported(reader, c.session_token)->0)
            &&& p == 1 ==> env[a + s + t] == ("AWS_PROFILE"@, exported(reader, c.profile_name)->0)
        }),
{
}

/// What is handed on is the value itself. Putting blobs hands it on without the blanks around it, and
/// only the blob stores hand on a blank one.
pub proof fn lemma_values_are_handed_on(value: Option<Seq<char>>)
    ensures
        exported(EnvReader::BlobStores, value) == value,
        value is Some && !text::is_blank_spec(value->0) ==> {
            &&& exported(EnvReader::MetadataStores, value) == value
            &&& exported(EnvReader::MetadataExperiments, value) == value
            &&& exported(EnvReader::BlobPut, value) == Some(text::trim_spec(value->0))
        },
        value is None || text::is_blank_spec(value->0) ==> {
            &&& exported(EnvReader::MetadataStores, value) is None
            &&& exported(EnvReader::MetadataExperiments, value) is None
            &&& exported(EnvReader::BlobPut, value) is None
        },
{
}

/// What cannot be read is told with its value, in the words of those who read it.
pub proof fn lemma_words_for_bad_settings(value: Seq<char>, keys: Seq<Seq<char>>, e: NumberError)
    ensures
        EnvReader::BlobPut.bad_bool(value, keys) == "invalid boolean value "@ + text::quoted_text(
            value,
        ) + " for one of "@ + text::join_spec(keys, ", "@),
        EnvReader::BlobStores.bad_bool(value, keys) == "failed to parse boolean env value "@
            + text::quoted_text(value),
        EnvReader::MetadataStores.bad_bool(value, keys) == EnvReader::BlobStores.bad_bool(value, keys),
        EnvReader::MetadataExperiments.bad_bool(value, keys) == EnvReader::BlobStores.bad_bool(
            value,
            keys,
        ),
        EnvReader::BlobStores.bad_number(value, keys, e) == "failed to parse integer env value "@
            + text::quoted_text(value) + ": "@ + e.text_spec(),
        EnvReader::BlobPut.bad_number(value, keys, e) == "invalid u64 value "@ + text::quoted_text(
            value,
        ) + " for one of "@ + text::join_spec(keys, ", "@) + ": "@ + e.text_spec(),
        EnvReader::MetadataStores.bad_number(value, keys, e) == "failed to parse env value "@
            + text::quoted_text(value) + " as u64: "@ + e.text_spec(),
        EnvReader::MetadataExperiments.bad_number(value, keys, e)
            == "failed to parse metadata env value "@ + text::quoted_text(value) + " as u64: "@
            + e.text_spec(),
{
}

/// An error of a setting is the one of its reader.
pub proof fn lemma_bad_settings_are_told(
    reader: EnvReader,
    experiment: Seq<Entry>,
    process: Seq<Entry>,
    keys: Seq<Seq<char>>,
)
    requires
        env_any_spec(reader, experiment, process, keys) is Some,
    ensures
        ({
            let v = env_any_spec(reader, experiment, process, keys)->0;
            &&& bool_of(v, reader.reads_letters()) is None ==> env_bool_spec(
                reader,
                experiment,
                process,
                keys,
            ) == Err::<Option<bool>, Seq<char>>(reader.bad_bool(v, keys))
            &&& text::number_spec(v, u64::MAX as nat) is Err ==> env_u64_spec(
                reader,
                experiment,
                process,
                keys,
            ) == Err::<Option<u64>, Seq<char>>(
                reader.bad_number(v, keys, text::number_spec(v, u64::MAX as nat)->Err_0),
            )
            &&& text::number_spec(v, usize::MAX as nat) is Err ==> env_usize_spec(
                reader,
                experiment,
                process,
                keys,
            ) == Err::<Option<usize>, Seq<char>>(
                "failed to parse metadata env value "@ + text::quoted_text(v) + " as usize: "@
                    + text::number_spec(v, usize::MAX as nat)->Err_0.text_spec(),
            )
        }),
{
}

} // verus!
