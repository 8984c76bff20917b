//! Which runner an experiment goes to.
use crate::config::{ExperimentSpec, InstanceConfig, InstancesConfig};
use crate::environment;
use crate::protocol::{HealthResponse, NodeDescription};
use crate::state::NodeRuntimeState;
use crate::text;
use vstd::prelude::*;
use vstd::string::*;

verus! {

/// The families of experiments.
#[derive(Clone, Copy, Debug, PartialEq, Eq, Structural)]
pub enum Family {
    Blob,
    Metadata,
    Channel,
}

/// The runners of the blob family.
#[derive(Clone, Copy, Debug, PartialEq, Eq, Structural)]
pub enum BlobRunner {
    Put,
    GetMaterialize,
    P2pPeerFetch,
    MultiGetter,
}

pub open spec fn family_spec(workload: Seq<char>) -> Result<Family, Seq<char>> {
    if text::starts_with_spec(workload, "blob."@) {
        Ok(Family::Blob)
    } else if text::starts_with_spec(workload, "metadata."@) {
        Ok(Family::Metadata)
    } else if text::starts_with_spec(workload, "channel."@) {
        Ok(Family::Channel)
    } else {
        Err("no direct experiment runner is registered for workload "@ + workload)
    }
}

/// The family that runs an experiment, once it is found valid on the instances.
pub fn dispatch(experiment: &ExperimentSpec, instances: &InstancesConfig) -> (r: Result<
    Family,
    String,
>)
    ensures
        environment::plain_result(r) == match experiment.problem_with(*instances) {
            Some(problem) => Err::<Family, Seq<char>>(problem),
            None => family_spec(experiment.run.workload@),
        },
{
    if let Err(m) = experiment.validate_with_instances(instances) {
        return Err(m);
    }
    let workload = experiment.run.workload.as_str();
    if text::starts_with(workload, "blob.") {
        Ok(Family::Blob)
    } else if text::starts_with(workload, "metadata.") {
        Ok(Family::Metadata)
    } else if text::starts_with(workload, "channel.") {
        Ok(Family::Channel)
    } else {
        Err(text::cat2("no direct experiment runner is registered for workload ", workload))
    }
}

pub open spec fn blob_runner_spec(workload: Seq<char>) -> Result<BlobRunner, Seq<char>> {
    if workload == "blob.put.local_file"@ || workload == "blob.put.s3"@ || workload
        == "blob.put.p2p"@ {
        Ok(BlobRunner::Put)
    } else if workload == "blob.get_materialize"@ || workload == "blob.p2p_local_hit"@ {
        Ok(BlobRunner::GetMaterialize)
    } else if workload == "blob.p2p_peer_fetch"@ {
        Ok(BlobRunner::P2pPeerFetch)
    } else if workload == "blob.multi_getter"@ {
        Ok(BlobRunner::MultiGetter)
    } else if workload == "blob.persist_upload"@ || workload == "blob.fallback_fetch"@ {
        Err(
            workload
                + " direct orchestration is not implemented yet; add persist/cache reset primitives first"@,
        )
    } else {
        Err("no direct experiment runner is registered for workload "@ + workload)
    }
}

pub fn blob_runner(workload: &str) -> (r: Result<BlobRunner, String>)
    ensures
        environment::plain_result(r) == blob_runner_spec(workload@),
{
    if text::same(workload, "blob.put.local_file") || text::same(workload, "blob.put.s3")
        || text::same(workload, "blob.put.p2p") {
        Ok(BlobRunner::Put)
    } else if text::same(workload, "blob.get_materialize") || text::same(
        workload,
        "blob.p2p_local_hit",
    ) {
        Ok(BlobRunner::GetMaterialize)
    } else if text::same(workload, "blob.p2p_peer_fetch") {
        Ok(BlobRunner::P2pPeerFetch)
    } else if text::same(workload, "blob.multi_getter") {
        Ok(BlobRunner::MultiGetter)
    } else if text::same(workload, "blob.persist_upload") || text::same(
        workload,
        "blob.fallback_fetch",
    ) {
        Err(
            text::cat2(
                workload,
                " direct orchestration is not implemented yet; add persist/cache reset primitives first",
            ),
        )
    } else {
        Err(text::cat2("no direct experiment runner is registered for workload ", workload))
    }
}

/// The channel family has one experiment.
pub fn check_channel_workload(workload: &str) -> (r: Result<(), String>)
    ensures
        match r {
            Ok(_) => workload@ == "channel.single_sender_multi_receiver"@,
            Err(m) => workload@ != "channel.single_sender_multi_receiver"@ && m@
                == "no direct channel experiment runner is registered for workload "@ + workload@,
        },
{
    if text::same(workload, "channel.single_sender_multi_receiver") {
        Ok(())
    } else {
        Err(
            text::cat2("no direct channel experiment runner is registered for workload ", workload),
        )
    }
}

// ---------------------------------------------------------------------------------------------
// What a node says of itself
// ---------------------------------------------------------------------------------------------
/// A node that answers is healthy; it tells what it is doing.
pub fn health(instance: &InstanceConfig, runtime: &NodeRuntimeState) -> (r: HealthResponse)
    ensures
        r.ok,
        r.instance_id == instance.id,
        r.node_status@ == runtime.status_spec(),
        text::option_view(r.current_run_id) == runtime.current_run_id(),
        r.generation == runtime.generation,
{
    HealthResponse {
        ok: true,
        instance_id: instance.id.clone(),
        node_status: runtime.node_status(),
        current_run_id: runtime.run_id(),
        generation: runtime.generation,
    }
}

pub fn describe(instance: &InstanceConfig) -> (r: NodeDescription)
    ensures
        r.instance_id == instance.id,
        r.rpc_addr == instance.rpc_addr,
        r.p2p_advertise_endpoint == instance.p2p_advertise_endpoint,
        r.work_dir == instance.work_dir,
        text::views(r.capabilities@) == text::views(instance.capabilities@),
{
    NodeDescription {
        instance_id: instance.id.clone(),
        rpc_addr: instance.rpc_addr.clone(),
        p2p_advertise_endpoint: instance.p2p_advertise_endpoint.clone(),
        work_dir: instance.work_dir.clone(),
        capabilities: text::clone_strings(&instance.capabilities),
    }
}

/// A workload belongs to the family that its name begins with, and to no other.
pub proof fn lemma_families_by_name(rest: Seq<char>)
    ensures
        family_spec("blob."@ + rest) == Ok::<Family, Seq<char>>(Family::Blob),
        family_spec("metadata."@ + rest) == Ok::<Family, Seq<char>>(Family::Metadata),
        family_spec("channel."@ + rest) == Ok::<Family, Seq<char>>(Family::Channel),
        family_spec(rest) is Err <==> !text::starts_with_spec(rest, "blob."@)
            && !text::starts_with_spec(rest, "metadata."@) && !text::starts_with_spec(
            rest,
            "channel."@,
        ),
        family_spec(rest) is Err ==> family_spec(rest)->Err_0
            == "no direct experiment runner is registered for workload "@ + rest,
{
    reveal_strlit("blob.");
    reveal_strlit("metadata.");
    reveal_strlit("channel.");
    text::lemma_strip_undoes_adding(rest, "blob."@);
    text::lemma_strip_undoes_adding(rest, "metadata."@);
    text::lemma_strip_undoes_adding(rest, "channel."@);
    let m = "metadata."@ + rest;
    let c = "channel."@ + rest;
    assert(m[0] == 'm' && c[0] == 'c');
    assert("blob."@[0] == 'b' && "metadata."@[0] == 'm');
    assert(m.subrange(0, 5)[0] == 'm');
    assert(c.subrange(0, 5)[0] == 'c');
    if text::starts_with_spec(c, "metadata."@) {
        assert(c.subrange(0, 9)[0] == 'c');
    }
}

/// The blob workloads that are run directly, by name, and the two that are not yet.
pub proof fn lemma_blob_workloads_by_name()
    ensures
        blob_runner_spec("blob.put.local_file"@) == Ok::<BlobRunner, Seq<char>>(BlobRunner::Put),
        blob_runner_spec("blob.put.s3"@) == Ok::<BlobRunner, Seq<char>>(BlobRunner::Put),
        blob_runner_spec("blob.put.p2p"@) == Ok::<BlobRunner, Seq<char>>(BlobRunner::Put),
        blob_runner_spec("blob.get_materialize"@) == Ok::<BlobRunner, Seq<char>>(
            BlobRunner::GetMaterialize,
        ),
        blob_runner_spec("blob.p2p_local_hit"@) == Ok::<BlobRunner, Seq<char>>(
            BlobRunner::GetMaterialize,
        ),
        blob_runner_spec("blob.p2p_peer_fetch"@) == Ok::<BlobRunner, Seq<char>>(
            BlobRunner::P2pPeerFetch,
        ),
        blob_runner_spec("blob.multi_getter"@) == Ok::<BlobRunner, Seq<char>>(
            BlobRunner::MultiGetter,
        ),
        blob_runner_spec("blob.persist_upload"@) is Err,
        blob_runner_spec("blob.fallback_fetch"@) is Err,
{
    reveal_strlit("blob.put.local_file");
    reveal_strlit("blob.put.s3");
    reveal_strlit("blob.put.p2p");
    reveal_strlit("blob.get_materialize");
    reveal_strlit("blob.p2p_local_hit");
    reveal_strlit("blob.p2p_peer_fetch");
    reveal_strlit("blob.multi_getter");
    reveal_strlit("blob.persist_upload");
    reveal_strlit("blob.fallback_fetch");
    assert("blob.put.local_file"@.len() == 19 && "blob.put.s3"@.len() == 11 && "blob.put.p2p"@.len()
        == 12 && "blob.get_materialize"@.len() == 20 && "blob.p2p_local_hit"@.len() == 18
        && "blob.p2p_peer_fetch"@.len() == 19 && "blob.multi_getter"@.len() == 17
        && "blob.persist_upload"@.len() == 19 && "blob.fallback_fetch"@.len() == 19);
    assert("blob.put.local_file"@[6] == 'u' && "blob.p2p_peer_fetch"@[6] == '2'
        && "blob.persist_upload"@[6] == 'e' && "blob.fallback_fetch"@[6] == 'a');
}

/// No other blob workload is run.
pub proof fn lemma_other_blob_workloads(workload: Seq<char>)
    ensures
        blob_runner_spec(workload) is Ok ==> {
            ||| workload == "blob.put.local_file"@
            ||| workload == "blob.put.s3"@
            ||| workload == "blob.put.p2p"@
            ||| workload == "blob.get_materialize"@
            ||| workload == "blob.p2p_local_hit"@
            ||| workload == "blob.p2p_peer_fetch"@
            ||| workload == "blob.multi_getter"@
        },
{
}

/// What is not run is told why: the two that wait for more, and any other as unknown.
pub proof fn lemma_blob_workloads_that_are_refused(workload: Seq<char>)
    requires
        blob_runner_spec(workload) is Err,
    ensures
        workload == "blob.persist_upload"@ || workload == "blob.fallback_fetch"@ ==> blob_runner_spec(
            workload,
        )->Err_0 == workload
            + " direct orchestration is not implemented yet; add persist/cache reset primitives first"@,
        workload != "blob.persist_upload"@ && workload != "blob.fallback_fetch"@ ==> blob_runner_spec(
            workload,
        )->Err_0 == "no direct experiment runner is registered for workload "@ + workload,
{
}

} // verus!
