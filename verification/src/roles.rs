//! Which node a command speaks to, and how it waits for an answer.
use crate::cli::BlobGetOptions;
use crate::config;
use crate::config::{ExperimentSpec, InstanceConfig, InstancesConfig};
use crate::protocol::{
    AcceptedResponse, ExperimentRunResult, HealthResponse, PollRequestResponse, RequestResult,
    RequestStatus, RunBlobGetRequest,
};
use crate::text;
use crate::text::CharClass;
use vstd::prelude::*;
use vstd::string::*;

verus! {

/// A waiting submitter shows progress this often.
pub const PROGRESS_PERIOD_MS: u64 = 5_000;

/// The pause between two polls of a submitted experiment.
pub const POLL_PAUSE_MS: u64 = 500;

/// How long a health check waits for its answer.
pub const HEALTH_TIMEOUT_MS: u64 = 5_000;

/// How long a direct get waits at its barriers.
pub const BLOB_GET_BARRIER_TIMEOUT_MS: u64 = 30_000;

// ---------------------------------------------------------------------------------------------
// Host names
// ---------------------------------------------------------------------------------------------
/// A host name without surrounding space and without dots at its end.
pub open spec fn bare_hostname(hostname: Seq<char>) -> Seq<char> {
    text::trim_back_spec(text::trim_spec(hostname), CharClass::Just('.'))
}

fn trim_dots(s: &str) -> (r: String)
    ensures
        r@ == text::trim_back_spec(s@, CharClass::Just('.')),
{
    let v = text::chars_of(s);
    let mut end: usize = v.len();
    assert(v@.take(end as int) =~= v@);
    while end > 0 && v[end - 1] == '.'
        invariant
            end <= v@.len(),
            text::trim_back_spec(v@, CharClass::Just('.')) == text::trim_back_spec(
                v@.take(end as int),
                CharClass::Just('.'),
            ),
        decreases end,
    {
        assert(v@.take(end as int).drop_last() =~= v@.take(end - 1));
        end = end - 1;
    }
    let r = text::substring(&v, 0, end);
    assert(v@.subrange(0, end as int) =~= v@.take(end as int));
    r
}

/// The names that a host may go by: its full name, then the part before the first dot.
pub open spec fn hostname_candidates_spec(hostname: Seq<char>) -> Seq<Seq<char>> {
    let full = bare_hostname(hostname);
    let short = text::before_spec(full, '.');
    if full.len() == 0 {
        Seq::empty()
    } else if short.len() > 0 && short != full {
        seq![full, short]
    } else {
        seq![full]
    }
}

pub fn hostname_candidates(hostname: &str) -> (r: Vec<String>)
    ensures
        text::views(r@) == hostname_candidates_spec(hostname@),
{
    let full = trim_dots(text::trim(hostname).as_str());
    let short = text::before(full.as_str(), '.');
    let mut out: Vec<String> = Vec::new();
    let full_chars = text::chars_of(full.as_str());
    let short_chars = text::chars_of(short.as_str());
    if full_chars.len() > 0 {
        let differ = !text::same(short.as_str(), full.as_str());
        out.push(full);
        if short_chars.len() > 0 && differ {
            out.push(short);
        }
    }
    assert(text::views(out@) =~= hostname_candidates_spec(hostname@));
    out
}

/// How many instances bear an id.
pub open spec fn count_id(instances: Seq<InstanceConfig>, id: Seq<char>) -> nat
    decreases instances.len(),
{
    if instances.len() == 0 {
        0
    } else {
        count_id(instances.drop_last(), id) + if instances.last().id@ == id {
            1nat
        } else {
            0nat
        }
    }
}

fn count_instances(instances: &Vec<InstanceConfig>, id: &str) -> (r: usize)
    ensures
        r == count_id(instances@, id@),
{
    let mut n: usize = 0;
    let mut i: usize = 0;
    assert(instances@.take(0) =~= Seq::<InstanceConfig>::empty());
    while i < instances.len()
        invariant
            n <= i <= instances@.len(),
            n == count_id(instances@.take(i as int), id@),
        decreases instances.len() - i,
    {
        assert(instances@.take(i + 1).drop_last() =~= instances@.take(i as int));
        if text::same(instances[i].id.as_str(), id) {
            n = n + 1;
        }
        i = i + 1;
    }
    assert(instances@.take(i as int) =~= instances@);
    n
}

/// The instance that a host is, by the first of its names that an instance bears.
pub open spec fn by_hostname_from(
    instances: Seq<InstanceConfig>,
    hostname: Seq<char>,
    candidates: Seq<Seq<char>>,
    i: int,
) -> Result<Option<Seq<char>>, Seq<char>>
    decreases candidates.len() - i,
{
    if i < 0 || i >= candidates.len() {
        Ok(None)
    } else {
        let n = count_id(instances, candidates[i]);
        if n == 0 {
            by_hostname_from(instances, hostname, candidates, i + 1)
        } else if n == 1 {
            Ok(Some(candidates[i]))
        } else {
            Err(
                "hostname "@ + hostname + " ambiguously matches multiple instances named "@
                    + candidates[i],
            )
        }
    }
}

pub open spec fn by_hostname(instances: Seq<InstanceConfig>, hostname: Seq<char>) -> Result<
    Option<Seq<char>>,
    Seq<char>,
> {
    by_hostname_from(instances, hostname, hostname_candidates_spec(hostname), 0)
}

pub fn resolve_node_instance_id_from_hostname(instances: &InstancesConfig, hostname: &str) -> (r:
    Result<Option<String>, String>)
    ensures
        match r {
            Ok(id) => by_hostname(instances.instances@, hostname@) == Ok::<
                Option<Seq<char>>,
                Seq<char>,
            >(text::option_view(id)),
            Err(m) => by_hostname(instances.instances@, hostname@) == Err::<
                Option<Seq<char>>,
                Seq<char>,
            >(m@),
        },
{
    let candidates = hostname_candidates(hostname);
    let ghost names = text::views(candidates@);
    let mut i: usize = 0;
    while i < candidates.len()
        invariant
            i <= candidates@.len(),
            names == text::views(candidates@),
            names == hostname_candidates_spec(hostname@),
            by_hostname(instances.instances@, hostname@) == by_hostname_from(
                instances.instances@,
                hostname@,
                names,
                i as int,
            ),
        decreases candidates.len() - i,
    {
        assert(names[i as int] == candidates@[i as int]@);
        let n: usize = count_instances(&instances.instances, candidates[i].as_str());
        if n == 1 {
            return Ok(Some(candidates[i].clone()));
        }
        if n > 1 {
            return Err(
                text::cat4(
                    "hostname ",
                    hostname,
                    " ambiguously matches multiple instances named ",
                    candidates[i].as_str(),
                ),
            );
        }
        i = i + 1;
    }
    Ok(None)
}

/// An instance found by its host name is in the list.
pub proof fn lemma_hostname_names_an_instance(instances: InstancesConfig, hostname: Seq<char>)
    requires
        by_hostname(instances.instances@, hostname) matches Ok(Some(_)),
    ensures
        instances.has_id(by_hostname(instances.instances@, hostname)->Ok_0->0),
{
    lemma_found_by_hostname(instances, hostname, hostname_candidates_spec(hostname), 0);
}

proof fn lemma_found_by_hostname(
    instances: InstancesConfig,
    hostname: Seq<char>,
    candidates: Seq<Seq<char>>,
    i: int,
)
    requires
        by_hostname_from(instances.instances@, hostname, candidates, i) matches Ok(Some(_)),
    ensures
        instances.has_id(
            by_hostname_from(instances.instances@, hostname, candidates, i)->Ok_0->0,
        ),
    decreases candidates.len() - i,
{
    if 0 <= i < candidates.len() {
        let n = count_id(instances.instances@, candidates[i]);
        if n == 0 {
            lemma_found_by_hostname(instances, hostname, candidates, i + 1);
        } else {
            lemma_counted_is_there(instances.instances@, candidates[i]);
        }
    }
}

proof fn lemma_counted_is_there(instances: Seq<InstanceConfig>, id: Seq<char>)
    requires
        count_id(instances, id) > 0,
    ensures
        exists|i: int| 0 <= i < instances.len() && (#[trigger] instances[i]).id@ == id,
    decreases instances.len(),
{
    if instances.len() > 0 {
        if instances.last().id@ == id {
            assert(instances[instances.len() - 1].id@ == id);
        } else {
            lemma_counted_is_there(instances.drop_last(), id);
            let i = choose|i: int|
                0 <= i < instances.drop_last().len() && (#[trigger] instances.drop_last()[i]).id@
                    == id;
            assert(instances[i].id@ == id);
        }
    }
}

/// The name of this host: what the system says, else what the environment says.
pub open spec fn hostname_spec(
    system: Result<Seq<char>, Seq<char>>,
    hostname: Option<Seq<char>>,
    computer_name: Option<Seq<char>>,
) -> Result<Seq<char>, Seq<char>> {
    let named = match hostname {
        Some(h) => text::trim_spec(h),
        None => match computer_name {
            Some(c) => text::trim_spec(c),
            None => Seq::empty(),
        },
    };
    match system {
        Ok(h) => if text::trim_spec(h).len() > 0 {
            Ok(text::trim_spec(h))
        } else if named.len() > 0 {
            Ok(named)
        } else {
            Err("hostname is empty"@)
        },
        Err(e) => if named.len() > 0 {
            Ok(named)
        } else {
            Err("failed to read hostname: "@ + e)
        },
    }
}

pub open spec fn text_outcome(r: Result<String, String>) -> Result<Seq<char>, Seq<char>> {
    match r {
        Ok(s) => Ok(s@),
        Err(m) => Err(m@),
    }
}

pub fn current_hostname(
    system: &Result<String, String>,
    hostname: &Option<String>,
    computer_name: &Option<String>,
) -> (r: Result<String, String>)
    ensures
        text_outcome(r) == hostname_spec(
            text_outcome(*system),
            text::option_view(*hostname),
            text::option_view(*computer_name),
        ),
{
    let named = match hostname {
        Some(h) => text::trim(h.as_str()),
        None => match computer_name {
            Some(c) => text::trim(c.as_str()),
            None => String::new(),
        },
    };
    let named_chars = text::chars_of(named.as_str());
    match system {
        Ok(h) => {
            let own = text::trim(h.as_str());
            let own_chars = text::chars_of(own.as_str());
            if own_chars.len() > 0 {
                Ok(own)
            } else if named_chars.len() > 0 {
                Ok(named)
            } else {
                Err("hostname is empty".to_owned())
            }
        },
        Err(e) => {
            if named_chars.len() > 0 {
                Ok(named)
            } else {
                Err(text::cat2("failed to read hostname: ", e.as_str()))
            }
        },
    }
}

// ---------------------------------------------------------------------------------------------
// Which instance
// ---------------------------------------------------------------------------------------------
pub open spec fn filled(value: Option<Seq<char>>) -> bool {
    value matches Some(v) && !text::is_blank_spec(v)
}

fn is_filled(value: &Option<String>) -> (r: bool)
    ensures
        r == filled(text::option_view(*value)),
{
    match value {
        Some(v) => !text::is_blank(v.as_str()),
        None => false,
    }
}

/// The instance that a node is: by option, by environment, by host name, or the only one there is.
pub open spec fn node_id_spec(
    instances: Seq<InstanceConfig>,
    explicit: Option<Seq<char>>,
    from_env: Option<Seq<char>>,
    hostname: Result<Seq<char>, Seq<char>>,
) -> Result<Seq<char>, Seq<char>> {
    if filled(explicit) {
        Ok(explicit->0)
    } else if filled(from_env) {
        Ok(from_env->0)
    } else {
        match hostname {
            Err(e) => Err(e),
            Ok(h) => match by_hostname(instances, h) {
                Err(e) => Err(e),
                Ok(Some(id)) => Ok(id),
                Ok(None) => if instances.len() == 1 {
                    Ok(instances[0].id@)
                } else {
                    Err(
                        "node could not infer instance id from hostname; make the hostname match an instance id, pass --instance-id, or set LC_BENCH_INSTANCE_ID"@,
                    )
                },
            },
        }
    }
}

pub fn resolve_node_instance_id(
    instances: &InstancesConfig,
    explicit: &Option<String>,
    from_env: &Option<String>,
    hostname: &Result<String, String>,
) -> (r: Result<String, String>)
    ensures
        text_outcome(r) == node_id_spec(
            instances.instances@,
            text::option_view(*explicit),
            text::option_view(*from_env),
            text_outcome(*hostname),
        ),
{
    if is_filled(explicit) {
        if let Some(id) = explicit {
            return Ok(id.clone());
        }
    }
    if is_filled(from_env) {
        if let Some(id) = from_env {
            return Ok(id.clone());
        }
    }
    match hostname {
        Err(e) => Err(e.clone()),
        Ok(h) => match resolve_node_instance_id_from_hostname(instances, h.as_str()) {
            Err(e) => Err(e),
            Ok(Some(id)) => Ok(id),
            Ok(None) => {
                if instances.instances.len() == 1 {
                    Ok(instances.instances[0].id.clone())
                } else {
                    Err(
                        "node could not infer instance id from hostname; make the hostname match an instance id, pass --instance-id, or set LC_BENCH_INSTANCE_ID".to_owned(),
                    )
                }
            },
        },
    }
}

/// The instance that coordinates: by option, by environment, the first participant of the
/// experiment, or the first instance.
pub open spec fn coordinator_id_spec(
    instances: Seq<InstanceConfig>,
    first_participant: Option<Seq<char>>,
    explicit: Option<Seq<char>>,
    from_env: Option<Seq<char>>,
) -> Result<Seq<char>, Seq<char>> {
    if filled(explicit) {
        Ok(explicit->0)
    } else if filled(from_env) {
        Ok(from_env->0)
    } else if first_participant is Some {
        Ok(first_participant->0)
    } else if instances.len() > 0 {
        Ok(instances[0].id@)
    } else {
        Err("instances list is empty"@)
    }
}

pub open spec fn first_participant_spec(experiment: ExperimentSpec) -> Option<Seq<char>> {
    if experiment.participants@.len() > 0 {
        Some(experiment.participants@[0].instance_id@)
    } else {
        None
    }
}

pub fn resolve_coordinator_id(
    instances: &InstancesConfig,
    experiment: &ExperimentSpec,
    explicit: &Option<String>,
    from_env: &Option<String>,
) -> (r: Result<String, String>)
    ensures
        text_outcome(r) == coordinator_id_spec(
            instances.instances@,
            first_participant_spec(*experiment),
            text::option_view(*explicit),
            text::option_view(*from_env),
        ),
{
    if !is_filled(explicit) && !is_filled(from_env) && experiment.participants.len() > 0 {
        return Ok(experiment.participants[0].instance_id.clone());
    }
    resolve_coordinator_id_without_experiment(instances, explicit, from_env)
}

pub fn resolve_coordinator_id_without_experiment(
    instances: &InstancesConfig,
    explicit: &Option<String>,
    from_env: &Option<String>,
) -> (r: Result<String, String>)
    ensures
        text_outcome(r) == coordinator_id_spec(
            instances.instances@,
            None,
            text::option_view(*explicit),
            text::option_view(*from_env),
        ),
{
    if is_filled(explicit) {
        if let Some(id) = explicit {
            return Ok(id.clone());
        }
    }
    if is_filled(from_env) {
        if let Some(id) = from_env {
            return Ok(id.clone());
        }
    }
    if instances.instances.len() > 0 {
        Ok(instances.instances[0].id.clone())
    } else {
        Err("instances list is empty".to_owned())
    }
}

/// The id that a node runs under, or why it cannot.
pub open spec fn node_plan_spec(
    instances: InstancesConfig,
    explicit: Option<Seq<char>>,
    from_env: Option<Seq<char>>,
    hostname: Result<Seq<char>, Seq<char>>,
) -> Result<Seq<char>, Seq<char>> {
    if instances.problem() is Some {
        Err(instances.problem()->0)
    } else {
        match node_id_spec(instances.instances@, explicit, from_env, hostname) {
            Err(e) => Err(e),
            Ok(id) => if instances.has_id(id) {
                Ok(id)
            } else {
                Err("unknown instance id: "@ + id)
            },
        }
    }
}

pub fn node_plan(
    instances: &InstancesConfig,
    explicit: &Option<String>,
    from_env: &Option<String>,
    hostname: &Result<String, String>,
) -> (r: Result<String, String>)
    ensures
        text_outcome(r) == node_plan_spec(
            *instances,
            text::option_view(*explicit),
            text::option_view(*from_env),
            text_outcome(*hostname),
        ),
{
    if let Err(e) = instances.validate() {
        return Err(e);
    }
    match resolve_node_instance_id(instances, explicit, from_env, hostname) {
        Err(e) => Err(e),
        Ok(id) => {
            if instances.find_instance(id.as_str()).is_some() {
                Ok(id)
            } else {
                Err(text::cat2("unknown instance id: ", id.as_str()))
            }
        },
    }
}

/// The coordinator that an experiment is submitted to, or why it cannot be.
pub open spec fn trigger_plan_spec(
    instances: InstancesConfig,
    experiment: ExperimentSpec,
    explicit: Option<Seq<char>>,
    from_env: Option<Seq<char>>,
) -> Result<Seq<char>, Seq<char>> {
    if experiment.problem_with(instances) is Some {
        Err(experiment.problem_with(instances)->0)
    } else {
        match coordinator_id_spec(
            instances.instances@,
            first_participant_spec(experiment),
            explicit,
            from_env,
        ) {
            Err(e) => Err(e),
            Ok(id) => if instances.has_id(id) {
                Ok(id)
            } else {
                Err("unknown coordinator instance id: "@ + id)
            },
        }
    }
}

pub fn trigger_plan(
    instances: &InstancesConfig,
    experiment: &ExperimentSpec,
    explicit: &Option<String>,
    from_env: &Option<String>,
) -> (r: Result<String, String>)
    ensures
        text_outcome(r) == trigger_plan_spec(
            *instances,
            *experiment,
            text::option_view(*explicit),
            text::option_view(*from_env),
        ),
{
    if let Err(e) = experiment.validate_with_instances(instances) {
        return Err(e);
    }
    match resolve_coordinator_id(instances, experiment, explicit, from_env) {
        Err(e) => Err(e),
        Ok(id) => {
            if instances.find_instance(id.as_str()).is_some() {
                Ok(id)
            } else {
                Err(text::cat2("unknown coordinator instance id: ", id.as_str()))
            }
        },
    }
}

/// The coordinator of a direct get, or why it cannot be made.
pub open spec fn blob_get_plan_spec(
    instances: InstancesConfig,
    coordinator: Option<Seq<char>>,
    peer: Seq<char>,
    from_env: Option<Seq<char>>,
) -> Result<Seq<char>, Seq<char>> {
    if instances.problem() is Some {
        Err(instances.problem()->0)
    } else {
        match coordinator_id_spec(instances.instances@, None, coordinator, from_env) {
            Err(e) => Err(e),
            Ok(id) => if !instances.has_id(id) {
                Err("unknown coordinator instance id: "@ + id)
            } else if !instances.has_id(peer) {
                Err("unknown peer instance id: "@ + peer)
            } else {
                Ok(id)
            },
        }
    }
}

pub fn blob_get_plan(
    instances: &InstancesConfig,
    options: &BlobGetOptions,
    from_env: &Option<String>,
) -> (r: Result<String, String>)
    ensures
        text_outcome(r) == blob_get_plan_spec(
            *instances,
            text::option_view(options.coordinator_id),
            options.peer_instance_id@,
            text::option_view(*from_env),
        ),
{
    if let Err(e) = instances.validate() {
        return Err(e);
    }
    match resolve_coordinator_id_without_experiment(instances, &options.coordinator_id, from_env) {
        Err(e) => Err(e),
        Ok(id) => {
            if !instances.find_instance(id.as_str()).is_some() {
                Err(text::cat2("unknown coordinator instance id: ", id.as_str()))
            } else if !instances.find_instance(options.peer_instance_id.as_str()).is_some() {
                Err(text::cat2("unknown peer instance id: ", options.peer_instance_id.as_str()))
            } else {
                Ok(id)
            }
        },
    }
}

/// The request of a direct get.
pub fn blob_get_request(options: BlobGetOptions) -> (r: RunBlobGetRequest)
    ensures
        r == (RunBlobGetRequest {
            run_id: options.run_id,
            peer_instance_id: options.peer_instance_id,
            count: options.count,
            object_size_bytes: options.object_size_bytes,
            blob_store_backend: options.blob_store_backend,
            barrier_timeout_ms: BLOB_GET_BARRIER_TIMEOUT_MS,
            force_reset: true,
            cleanup: options.cleanup,
        }),
{
    RunBlobGetRequest {
        run_id: options.run_id,
        peer_instance_id: options.peer_instance_id,
        count: options.count,
        object_size_bytes: options.object_size_bytes,
        blob_store_backend: options.blob_store_backend,
        barrier_timeout_ms: BLOB_GET_BARRIER_TIMEOUT_MS,
        force_reset: true,
        cleanup: options.cleanup,
    }
}

// ---------------------------------------------------------------------------------------------
// Addresses
// ---------------------------------------------------------------------------------------------
/// An address without its scheme.
pub open spec fn without_scheme(value: Seq<char>) -> Seq<char> {
    let trimmed = text::trim_spec(value);
    match text::strip_prefix_spec(trimmed, "tarpc://"@) {
        Some(rest) => rest,
        None => match text::strip_prefix_spec(trimmed, "tcp://"@) {
            Some(rest) => rest,
            None => trimmed,
        },
    }
}

/// The host and port of an RPC address; any other scheme is refused.
pub fn rpc_addr(value: &str) -> (r: Result<String, String>)
    ensures
        match r {
            Ok(addr) => addr@ == without_scheme(value@) && !text::contains_spec(addr@, "://"@),
            Err(m) => text::contains_spec(without_scheme(value@), "://"@) && m@
                == "unsupported RPC address scheme in "@ + value@
                + "; tarpc RPC addresses should look like 127.0.0.1:19000"@,
        },
{
    let trimmed = text::trim(value);
    let bare = match text::strip_prefix(trimmed.as_str(), "tarpc://") {
        Some(rest) => rest,
        None => match text::strip_prefix(trimmed.as_str(), "tcp://") {
            Some(rest) => rest,
            None => trimmed,
        },
    };
    if text::contains(bare.as_str(), "://") {
        Err(
            text::cat3(
                "unsupported RPC address scheme in ",
                value,
                "; tarpc RPC addresses should look like 127.0.0.1:19000",
            ),
        )
    } else {
        Ok(bare)
    }
}

/// The address that a node listens on: its own, or the one it gives others.
pub fn listen_addr(instance: &InstanceConfig) -> (r: String)
    ensures
        r == match instance.rpc_listen_addr {
            Some(addr) => addr,
            None => instance.rpc_addr,
        },
{
    match &instance.rpc_listen_addr {
        Some(addr) => addr.clone(),
        None => instance.rpc_addr.clone(),
    }
}

// ---------------------------------------------------------------------------------------------
// Health
// ---------------------------------------------------------------------------------------------
pub open spec fn health_line_spec(response: HealthResponse) -> Seq<char> {
    "health ok="@ + config::bool_text(response.ok) + " instance_id="@ + response.instance_id@
        + " status="@ + response.node_status@ + " current_run_id="@ + (
    match response.current_run_id {
        Some(id) => id@,
        None => "-"@,
    }) + " generation="@ + text::dec(response.generation as nat)
}

pub fn health_line(response: &HealthResponse) -> (r: String)
    ensures
        r@ == health_line_spec(*response),
{
    let run_id = match &response.current_run_id {
        Some(id) => id.clone(),
        None => "-".to_owned(),
    };
    let head = text::cat6(
        "health ok=",
        config::show_bool(response.ok).as_str(),
        " instance_id=",
        response.instance_id.as_str(),
        " status=",
        response.node_status.as_str(),
    );
    text::cat5(
        head.as_str(),
        " current_run_id=",
        run_id.as_str(),
        " generation=",
        text::decimal(response.generation).as_str(),
    )
}

pub fn health_verdict(response: &HealthResponse, rpc_addr: &str) -> (r: Result<(), String>)
    ensures
        match r {
            Ok(_) => response.ok,
            Err(m) => !response.ok && m@ == "node "@ + rpc_addr@ + " reported unhealthy"@,
        },
{
    if response.ok {
        Ok(())
    } else {
        Err(text::cat3("node ", rpc_addr, " reported unhealthy"))
    }
}

// ---------------------------------------------------------------------------------------------
// Waiting for an experiment
// ---------------------------------------------------------------------------------------------
/// The request id of an accepted experiment.
pub fn accepted_req_id(target_label: &str, accepted: &AcceptedResponse) -> (r: Result<
    String,
    String,
>)
    ensures
        match r {
            Ok(id) => accepted.ok && accepted.req_id == Some(id),
            Err(m) => {
                ||| !accepted.ok && m@ == "target "@ + target_label@
                    + " rejected submit_experiment: "@ + accepted.message@
                ||| accepted.ok && accepted.req_id is None && m@ == "target "@ + target_label@
                    + " accepted submit_experiment without req_id"@
            },
        },
{
    if !accepted.ok {
        return Err(
            text::cat4(
                "target ",
                target_label,
                " rejected submit_experiment: ",
                accepted.message.as_str(),
            ),
        );
    }
    match &accepted.req_id {
        Some(id) => Ok(id.clone()),
        None => Err(
            text::cat3("target ", target_label, " accepted submit_experiment without req_id"),
        ),
    }
}

/// What follows a poll of a submitted experiment.
#[derive(Debug)]
pub enum WaitStep {
    /// Poll again after a pause; first show progress, if it is time.
    Sleep { show_progress: bool },
    Finished(ExperimentRunResult),
}

/// Why waiting for an experiment ends without a result.
pub open spec fn wait_problem(
    target_label: Seq<char>,
    req_id: Seq<char>,
    response: PollRequestResponse,
) -> Option<Seq<char>> {
    let target = "target "@ + target_label;
    if !response.ok {
        Some(target + " rejected poll_request req_id="@ + req_id + ": "@ + response.message@)
    } else {
        match response.status {
            RequestStatus::Running => None,
            RequestStatus::Finished => match response.result {
                None => Some(target + " finished req_id="@ + req_id + " without result"@),
                Some(RequestResult::Experiment(_)) => None,
                Some(_) => Some(
                    target + " returned non-experiment result for req_id="@ + req_id,
                ),
            },
            RequestStatus::Failed => Some(
                target + " failed submit_experiment req_id="@ + req_id + ": "@ + response.message@,
            ),
            RequestStatus::Missing => Some(
                target + " does not know submit_experiment req_id="@ + req_id,
            ),
        }
    }
}

pub fn after_poll(
    target_label: &str,
    req_id: &str,
    response: PollRequestResponse,
    since_progress_ms: u64,
) -> (r: Result<WaitStep, String>)
    ensures
        match r {
            Err(m) => wait_problem(target_label@, req_id@, response) == Some(m@),
            Ok(WaitStep::Sleep { show_progress }) => {
                &&& wait_problem(target_label@, req_id@, response) is None
                &&& response.status == RequestStatus::Running
                &&& show_progress == (since_progress_ms >= PROGRESS_PERIOD_MS)
            },
            Ok(WaitStep::Finished(result)) => {
                &&& wait_problem(target_label@, req_id@, response) is None
                &&& response.status == RequestStatus::Finished
                &&& response.result == Some(RequestResult::Experiment(result))
            },
        },
{
    if !response.ok {
        return Err(
            text::cat6(
                "target ",
                target_label,
                " rejected poll_request req_id=",
                req_id,
                ": ",
                response.message.as_str(),
            ),
        );
    }
    match response.status {
        RequestStatus::Running => Ok(
            WaitStep::Sleep { show_progress: since_progress_ms >= PROGRESS_PERIOD_MS },
        ),
        RequestStatus::Finished => match response.result {
            None => Err(
                text::cat5("target ", target_label, " finished req_id=", req_id, " without result"),
            ),
            Some(RequestResult::Experiment(result)) => Ok(WaitStep::Finished(result)),
            Some(_) => Err(
                text::cat4(
                    "target ",
                    target_label,
                    " returned non-experiment result for req_id=",
                    req_id,
                ),
            ),
        },
        RequestStatus::Failed => Err(
            text::cat6(
                "target ",
                target_label,
                " failed submit_experiment req_id=",
                req_id,
                ": ",
                response.message.as_str(),
            ),
        ),
        RequestStatus::Missing => Err(
            text::cat4(
                "target ",
                target_label,
                " does not know submit_experiment req_id=",
                req_id,
            ),
        ),
    }
}

/// The line about an experiment that was accepted.
pub fn accepted_line(target_label: &str, accepted: &AcceptedResponse, req_id: &str) -> (r: String)
    ensures
        r@ == "submit_experiment accepted target="@ + target_label@ + " run_id="@
            + accepted.run_id@ + " req_id="@ + req_id@ + " message="@ + accepted.message@,
{
    let head = text::cat4(
        "submit_experiment accepted target=",
        target_label,
        " run_id=",
        accepted.run_id.as_str(),
    );
    text::cat5(head.as_str(), " req_id=", req_id, " message=", accepted.message.as_str())
}

/// The line about an experiment that is running.
pub fn progress_line(target_label: &str, run_id: &str, req_id: &str) -> (r: String)
    ensures
        r@ == "submit_experiment running target="@ + target_label@ + " run_id="@ + run_id@
            + " req_id="@ + req_id@,
{
    text::cat6(
        "submit_experiment running target=",
        target_label,
        " run_id=",
        run_id,
        " req_id=",
        req_id,
    )
}

/// The line about an experiment that has finished, with its message or without.
pub fn finished_line(result: &ExperimentRunResult, req_id: &str, with_message: bool) -> (r: String)
    ensures
        r@ == "submit_experiment finished coordinator="@ + result.coordinator_id@ + " run_id="@
            + result.run_id@ + " req_id="@ + req_id@ + (if with_message {
            " message="@ + result.message@
        } else {
            Seq::empty()
        }),
{
    let line = text::cat6(
        "submit_experiment finished coordinator=",
        result.coordinator_id.as_str(),
        " run_id=",
        result.run_id.as_str(),
        " req_id=",
        req_id,
    );
    if with_message {
        let r = text::cat3(line.as_str(), " message=", result.message.as_str());
        assert(r@ =~= line@ + (" message="@ + result.message@));
        r
    } else {
        assert(line@ + Seq::<char>::empty() =~= line@);
        line
    }
}

/// A request at another node: its result once it has finished, nothing while it runs.
pub open spec fn finished_problem(
    target_id: Seq<char>,
    req_id: Seq<char>,
    status: RequestStatus,
    has_result: bool,
    message: Seq<char>,
) -> Option<Seq<char>> {
    match status {
        RequestStatus::Finished => if has_result {
            None
        } else {
            Some("target "@ + target_id + " finished req_id="@ + req_id + " without result"@)
        },
        RequestStatus::Failed => Some(
            "target "@ + target_id + " failed req_id="@ + req_id + ": "@ + message,
        ),
        RequestStatus::Missing => Some(
            "target "@ + target_id + " does not know req_id="@ + req_id,
        ),
        RequestStatus::Running => None,
    }
}

pub fn ensure_finished_result(
    target_id: &str,
    req_id: &str,
    status: RequestStatus,
    result: Option<RequestResult>,
    message: &str,
) -> (r: Result<Option<RequestResult>, String>)
    ensures
        match finished_problem(target_id@, req_id@, status, result is Some, message@) {
            Some(problem) => r matches Err(m) && m@ == problem,
            None => r == Ok::<Option<RequestResult>, String>(
                if status == RequestStatus::Finished {
                    result
                } else {
                    None
                },
            ),
        },
{
    match status {
        RequestStatus::Finished => match result {
            Some(result) => Ok(Some(result)),
            None => Err(
                text::cat5("target ", target_id, " finished req_id=", req_id, " without result"),
            ),
        },
        RequestStatus::Failed => Err(
            text::cat6("target ", target_id, " failed req_id=", req_id, ": ", message),
        ),
        RequestStatus::Missing => Err(
            text::cat4("target ", target_id, " does not know req_id=", req_id),
        ),
        RequestStatus::Running => Ok(None),
    }
}

// ---------------------------------------------------------------------------------------------
// Who a node is, and what is said of it
// ---------------------------------------------------------------------------------------------
/// The name of a machine counts without the blanks around it and without the dots at its end, and goes
/// by two names: the whole one and the part before its first dot.
pub proof fn lemma_names_of_a_machine(hostname: Seq<char>)
    ensures
        ({
            let trimmed = text::trim_spec(hostname);
            let full = bare_hostname(hostname);
            let names = hostname_candidates_spec(hostname);
            &&& full == trimmed.take(full.len() as int)
            &&& forall|i: int| full.len() <= i < trimmed.len() ==> #[trigger] trimmed[i] == '.'
            &&& full.len() > 0 ==> full.last() != '.'
            &&& full.len() == 0 <==> names.len() == 0
            &&& full.len() > 0 ==> names[0] == full
            &&& names.len() <= 2
            &&& names.len() == 2 <==> full.len() > 0 && full[0] != '.' && full.contains('.')
            &&& names.len() == 2 ==> names[1] == text::before_spec(full, '.')
        }),
{
    let trimmed = text::trim_spec(hostname);
    let full = bare_hostname(hostname);
    lemma_dots_at_the_end(trimmed);
    text::lemma_before_and_after(full, '.');
    let short = text::before_spec(full, '.');
    if full.contains('.') {
        assert(short.len() < full.len());
    }
    if full.len() > 0 {
        assert(full[0] == '.' <==> short.len() == 0) by {
            if full[0] == '.' {
                assert(full.contains('.'));
            } else if full.contains('.') {
                assert(full == short + seq!['.'] + text::after_first_spec(full, '.')->0);
                if short.len() == 0 {
                    assert(full[0] == '.');
                }
            }
        }
    }
}

proof fn lemma_dots_at_the_end(s: Seq<char>)
    ensures
        ({
            let t = text::trim_back_spec(s, CharClass::Just('.'));
            &&& t.len() <= s.len()
            &&& t == s.take(t.len() as int)
            &&& forall|i: int| t.len() <= i < s.len() ==> #[trigger] s[i] == '.'
            &&& t.len() > 0 ==> t.last() != '.'
        }),
    decreases s.len(),
{
    let t = text::trim_back_spec(s, CharClass::Just('.'));
    if s.len() > 0 && s.last() == '.' {
        let init = s.drop_last();
        lemma_dots_at_the_end(init);
        assert(init.take(t.len() as int) =~= s.take(t.len() as int));
        assert forall|i: int| t.len() <= i < s.len() implies #[trigger] s[i] == '.' by {
            if i < init.len() {
                assert(init[i] == '.');
            }
        }
    } else {
        assert(s.take(s.len() as int) =~= s);
    }
}

/// Instances of an id are counted each once.
pub proof fn lemma_ids_are_counted(
    a: Seq<InstanceConfig>,
    b: Seq<InstanceConfig>,
    c: InstanceConfig,
    id: Seq<char>,
)
    ensures
        count_id(a + b, id) == count_id(a, id) + count_id(b, id),
        c.id@ == id ==> count_id(seq![c], id) == 1,
        c.id@ != id ==> count_id(seq![c], id) == 0,
    decreases b.len(),
{
    assert(seq![c].drop_last() =~= Seq::<InstanceConfig>::empty());
    assert(count_id(Seq::<InstanceConfig>::empty(), id) == 0);
    if b.len() == 0 {
        assert(a + b =~= a);
    } else {
        lemma_ids_are_counted(a, b.drop_last(), c, id);
        assert((a + b).drop_last() =~= a + b.drop_last());
    }
}

/// A machine is the one instance that bears its whole name, or else the one that bears its short name.
/// A name that several instances bear is an error, and one that none bears names none.
pub proof fn lemma_instance_by_hostname(instances: Seq<InstanceConfig>, hostname: Seq<char>)
    ensures
        ({
            let names = hostname_candidates_spec(hostname);
            let r = by_hostname(instances, hostname);
            &&& names.len() == 0 ==> r == Ok::<Option<Seq<char>>, Seq<char>>(None)
            &&& names.len() > 0 && count_id(instances, names[0]) == 1 ==> r == Ok::<
                Option<Seq<char>>,
                Seq<char>,
            >(Some(names[0]))
            &&& names.len() > 0 && count_id(instances, names[0]) > 1 ==> r is Err
            &&& names.len() == 2 && count_id(instances, names[0]) == 0 && count_id(
                instances,
                names[1],
            ) == 1 ==> r == Ok::<Option<Seq<char>>, Seq<char>>(Some(names[1]))
            &&& names.len() == 2 && count_id(instances, names[0]) == 0 && count_id(
                instances,
                names[1],
            ) > 1 ==> r is Err
            &&& (forall|k: int| 0 <= k < names.len() ==> count_id(instances, #[trigger] names[k]) == 0)
                ==> r == Ok::<Option<Seq<char>>, Seq<char>>(None)
        }),
{
    reveal_with_fuel(by_hostname_from, 4);
    lemma_names_of_a_machine(hostname);
    let names = hostname_candidates_spec(hostname);
    if forall|k: int| 0 <= k < names.len() ==> count_id(instances, #[trigger] names[k]) == 0 {
        if names.len() > 0 {
            assert(count_id(instances, names[0]) == 0);
        }
        if names.len() > 1 {
            assert(count_id(instances, names[1]) == 0);
        }
    }
}

/// The name of the machine is the one that the system gives, or else the one in the environment. There
/// is an error just where neither says anything.
pub proof fn lemma_hostname_by_source(
    system: Result<Seq<char>, Seq<char>>,
    hostname: Option<Seq<char>>,
    computer_name: Option<Seq<char>>,
)
    ensures
        ({
            let r = hostname_spec(system, hostname, computer_name);
            let from_system = system is Ok && text::trim_spec(system->Ok_0).len() > 0;
            &&& from_system ==> r == Ok::<Seq<char>, Seq<char>>(text::trim_spec(system->Ok_0))
            &&& !from_system && hostname is Some && text::trim_spec(hostname->0).len() > 0 ==> r
                == Ok::<Seq<char>, Seq<char>>(text::trim_spec(hostname->0))
            &&& !from_system && hostname is None && computer_name is Some && text::trim_spec(
                computer_name->0,
            ).len() > 0 ==> r == Ok::<Seq<char>, Seq<char>>(text::trim_spec(computer_name->0))
            &&& !from_system && hostname is None && computer_name is None ==> r is Err
            &&& !from_system && hostname is Some && text::trim_spec(hostname->0).len() == 0 ==> r is Err
            &&& r is Ok ==> r->Ok_0.len() > 0
        }),
{
}

/// A node is who it is told to be: by the command line, or else by the environment, or else by the name
/// of its machine, or else because there is only one instance.
pub proof fn lemma_who_a_node_is(
    instances: Seq<InstanceConfig>,
    explicit: Option<Seq<char>>,
    from_env: Option<Seq<char>>,
    hostname: Result<Seq<char>, Seq<char>>,
)
    ensures
        ({
            let r = node_id_spec(instances, explicit, from_env, hostname);
            let told = explicit is Some && text::trim_spec(explicit->0).len() > 0;
            let set = from_env is Some && text::trim_spec(from_env->0).len() > 0;
            &&& told ==> r == Ok::<Seq<char>, Seq<char>>(explicit->0)
            &&& !told && set ==> r == Ok::<Seq<char>, Seq<char>>(from_env->0)
            &&& !told && !set && hostname is Err ==> r == Err::<Seq<char>, Seq<char>>(
                hostname->Err_0,
            )
            &&& !told && !set && hostname is Ok ==> {
                let found = by_hostname(instances, hostname->Ok_0);
                &&& found is Err ==> r == Err::<Seq<char>, Seq<char>>(found->Err_0)
                &&& found is Ok && found->Ok_0 is Some ==> r == Ok::<Seq<char>, Seq<char>>(
                    (found->Ok_0)->0,
                )
                &&& found is Ok && found->Ok_0 is None && instances.len() == 1 ==> r == Ok::<
                    Seq<char>,
                    Seq<char>,
                >(instances[0].id@)
                &&& found is Ok && found->Ok_0 is None && instances.len() != 1 ==> r is Err
            }
        }),
{
}

/// The coordinator is the one that is told: by the command line, or else by the environment, or else
/// the first of those who take part, or else the first instance.
pub proof fn lemma_who_coordinates(
    instances: Seq<InstanceConfig>,
    first_participant: Option<Seq<char>>,
    explicit: Option<Seq<char>>,
    from_env: Option<Seq<char>>,
    e: ExperimentSpec,
)
    ensures
        ({
            let r = coordinator_id_spec(instances, first_participant, explicit, from_env);
            let told = explicit is Some && text::trim_spec(explicit->0).len() > 0;
            let set = from_env is Some && text::trim_spec(from_env->0).len() > 0;
            &&& told ==> r == Ok::<Seq<char>, Seq<char>>(explicit->0)
            &&& !told && set ==> r == Ok::<Seq<char>, Seq<char>>(from_env->0)
            &&& !told && !set && first_participant is Some ==> r == Ok::<Seq<char>, Seq<char>>(
                first_participant->0,
            )
            &&& !told && !set && first_participant is None && instances.len() > 0 ==> r == Ok::<
                Seq<char>,
                Seq<char>,
            >(instances[0].id@)
            &&& !told && !set && first_participant is None && instances.len() == 0 ==> r is Err
        }),
        e.participants@.len() > 0 ==> first_participant_spec(e) == Some(
            e.participants@[0].instance_id@,
        ),
        e.participants@.len() == 0 ==> first_participant_spec(e) is None,
{
}

/// A node starts, an experiment is submitted and a blob is got only with valid files and with nodes
/// that are on the list.
pub proof fn lemma_plans_name_known_nodes(
    instances: InstancesConfig,
    experiment: ExperimentSpec,
    explicit: Option<Seq<char>>,
    from_env: Option<Seq<char>>,
    hostname: Result<Seq<char>, Seq<char>>,
    peer: Seq<char>,
)
    ensures
        ({
            let r = node_plan_spec(instances, explicit, from_env, hostname);
            let id = node_id_spec(instances.instances@, explicit, from_env, hostname);
            &&& r is Ok <==> instances.problem() is None && id is Ok && instances.has_id(id->Ok_0)
            &&& r is Ok ==> r->Ok_0 == id->Ok_0
        }),
        ({
            let r = trigger_plan_spec(instances, experiment, explicit, from_env);
            let id = coordinator_id_spec(
                instances.instances@,
                first_participant_spec(experiment),
                explicit,
                from_env,
            );
            &&& r is Ok <==> experiment.problem_with(instances) is None && id is Ok
                && instances.has_id(id->Ok_0)
            &&& r is Ok ==> r->Ok_0 == id->Ok_0
        }),
        ({
            let r = blob_get_plan_spec(instances, explicit, peer, from_env);
            let id = coordinator_id_spec(instances.instances@, None, explicit, from_env);
            &&& r is Ok <==> instances.problem() is None && id is Ok && instances.has_id(id->Ok_0)
                && instances.has_id(peer)
            &&& r is Ok ==> r->Ok_0 == id->Ok_0
        }),
{
}

/// An address counts without its scheme and without the blanks around it.
pub proof fn lemma_addresses_without_scheme(rest: Seq<char>)
    requires
        rest.len() > 0,
        !text::is_space_spec(rest[0]),
        !text::is_space_spec(rest.last()),
    ensures
        without_scheme("tarpc://"@ + rest) == rest,
        without_scheme("tcp://"@ + rest) == rest,
        !text::starts_with_spec(rest, "tarpc://"@) && !text::starts_with_spec(rest, "tcp://"@)
            ==> without_scheme(rest) == rest,
{
    lemma_trimmed_already(rest);
    lemma_scheme_is_dropped(rest, "tarpc://"@);
    lemma_scheme_is_dropped(rest, "tcp://"@);
    assert("tarpc://"@[0] == 't' && "tarpc://"@[1] == 'a') by {
        reveal_strlit("tarpc://");
    }
    assert("tcp://"@[0] == 't' && "tcp://"@[1] == 'c') by {
        reveal_strlit("tcp://");
    }
    assert("tarpc://"@.len() == 8 && "tcp://"@.len() == 6) by {
        reveal_strlit("tarpc://");
        reveal_strlit("tcp://");
    }
    let b = "tcp://"@ + rest;
    assert(!text::starts_with_spec(b, "tarpc://"@)) by {
        if text::starts_with_spec(b, "tarpc://"@) {
            assert(b.subrange(0, 8)[1] == b[1]);
            assert(b[1] == 'c');
        }
    }
}

proof fn lemma_trimmed_already(s: Seq<char>)
    requires
        s.len() > 0,
        !text::is_space_spec(s[0]),
        !text::is_space_spec(s.last()),
    ensures
        text::trim_spec(s) == s,
{
    text::lemma_trim_leaves_the_core(s, CharClass::Space);
}

proof fn lemma_scheme_is_dropped(rest: Seq<char>, scheme: Seq<char>)
    requires
        rest.len() > 0,
        !text::is_space_spec(rest.last()),
        scheme == "tarpc://"@ || scheme == "tcp://"@,
    ensures
        text::trim_spec(scheme + rest) == scheme + rest,
        text::strip_prefix_spec(scheme + rest, scheme) == Some(rest),
{
    assert(scheme.len() > 0 && scheme[0] == 't') by {
        reveal_strlit("tarpc://");
        reveal_strlit("tcp://");
    }
    let s = scheme + rest;
    assert(s[0] == 't' && s.last() == rest.last());
    lemma_trimmed_already(s);
    text::lemma_strip_undoes_adding(rest, scheme);
}

/// The line on the health of a node says what the node answered.
pub proof fn lemma_health_line(response: HealthResponse)
    ensures
        health_line_spec(response) == "health ok="@ + (if response.ok {
            "true"@
        } else {
            "false"@
        }) + " instance_id="@ + response.instance_id@ + " status="@ + response.node_status@
            + " current_run_id="@ + (if response.current_run_id is Some {
            response.current_run_id->0@
        } else {
            "-"@
        }) + " generation="@ + text::dec(response.generation as nat),
{
}

/// Waiting for an experiment goes on while it runs, and ends well only with the result of one. Whatever
/// else a node answers is a problem that names the node and the request.
pub proof fn lemma_waits_for_an_experiment(
    target_label: Seq<char>,
    req_id: Seq<char>,
    response: PollRequestResponse,
)
    ensures
        wait_problem(target_label, req_id, response) is None <==> response.ok && (
        response.status is Running || (response.status is Finished && response.result is Some
            && response.result->0 is Experiment)),
        !response.ok ==> wait_problem(target_label, req_id, response) == Some(
            "target "@ + target_label + " rejected poll_request req_id="@ + req_id + ": "@
                + response.message@,
        ),
        response.ok && response.status is Failed ==> wait_problem(target_label, req_id, response)
            == Some(
            "target "@ + target_label + " failed submit_experiment req_id="@ + req_id + ": "@
                + response.message@,
        ),
        response.ok && response.status is Missing ==> wait_problem(target_label, req_id, response)
            == Some(
            "target "@ + target_label + " does not know submit_experiment req_id="@ + req_id,
        ),
        response.ok && response.status is Finished && response.result is None ==> wait_problem(
            target_label,
            req_id,
            response,
        ) == Some("target "@ + target_label + " finished req_id="@ + req_id + " without result"@),
        response.ok && response.status is Finished && response.result is Some && !(
        response.result->0 is Experiment) ==> wait_problem(target_label, req_id, response) == Some(
            "target "@ + target_label + " returned non-experiment result for req_id="@ + req_id,
        ),
{
}

/// A request that runs or ends with a result is no problem. One that failed, that ended without a
/// result or that is not known is, and each is told in its own words.
pub proof fn lemma_requests_that_end_well(
    target_id: Seq<char>,
    req_id: Seq<char>,
    status: RequestStatus,
    has_result: bool,
    message: Seq<char>,
)
    ensures
        finished_problem(target_id, req_id, status, has_result, message) is None <==> status is Running
            || (status is Finished && has_result),
        status is Failed ==> finished_problem(target_id, req_id, status, has_result, message) == Some(
            "target "@ + target_id + " failed req_id="@ + req_id + ": "@ + message,
        ),
        status is Missing ==> finished_problem(target_id, req_id, status, has_result, message)
            == Some("target "@ + target_id + " does not know req_id="@ + req_id),
        status is Finished && !has_result ==> finished_problem(
            target_id,
            req_id,
            status,
            has_result,
            message,
        ) == Some("target "@ + target_id + " finished req_id="@ + req_id + " without result"@),
{
}

} // verus!
