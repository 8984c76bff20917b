//! Experiment and instance configuration: the values, their rules and their one-line summaries.
use crate::binary64::{Real, TWO_POW_64};
use crate::environment;
use crate::table;
use crate::text;
use vstd::prelude::*;
use vstd::string::*;

verus! {

/// A `Result` without a value, as the text of its error, if any.
pub open spec fn verdict(r: Result<(), String>) -> Option<Seq<char>> {
    match r {
        Ok(_) => None,
        Err(e) => Some(e@),
    }
}

/// One entry of a table of strings.
#[derive(Clone, Debug)]
pub struct Entry {
    pub key: String,
    pub value: String,
}

/// Where the two configuration files are.
#[derive(Clone, Debug)]
pub struct ConfigPaths {
    pub experiment: String,
    pub instances: String,
}

impl Default for ConfigPaths {
    fn default() -> (r: Self)
        ensures
            r.experiment@ == "config/local-experiment.toml"@,
            r.instances@ == "config/instances/local-two.toml"@,
    {
        ConfigPaths {
            experiment: "config/local-experiment.toml".to_owned(),
            instances: "config/instances/local-two.toml".to_owned(),
        }
    }
}

#[derive(Clone, Debug)]
pub struct ExperimentSpec {
    pub run: RunConfig,
    pub coordination: CoordinationConfig,
    pub benchmark: BenchmarkConfig,
    pub throughput_sweep: ThroughputSweepConfig,
    pub lambda_channel: LambdaChannelConfig,
    pub p2p: P2pConfig,
    pub participants: Vec<ParticipantConfig>,
    pub env: Vec<Entry>,
}

#[derive(Clone, Debug)]
pub struct RunConfig {
    pub run_id: String,
    pub workload: String,
    pub description: String,
    pub output_dir: String,
    pub seed: u64,
}

#[derive(Clone, Debug)]
pub struct CoordinationConfig {
    pub rpc_timeout_ms: u64,
    pub barrier_timeout_ms: u64,
    pub cleanup_timeout_ms: u64,
    pub force_reset_on_start: bool,
}

#[derive(Clone, Debug)]
pub struct BenchmarkConfig {
    pub backend: String,
    pub operations: u64,
    pub concurrency: usize,
    pub object_size_bytes: u64,
    pub warmup_operations: u64,
    pub duration_seconds: Option<Real>,
    pub offered_rate_per_s: Option<Real>,
    pub repetitions: u64,
}

#[derive(Clone, Debug)]
pub struct ThroughputSweepConfig {
    pub start_ops_per_s: Option<Real>,
    pub step_multiplier: Option<Real>,
    pub max_ops_per_s: Option<Real>,
    pub max_points: Option<usize>,
    pub saturation_achieved_ratio: Option<Real>,
    pub stop_on_failure: Option<bool>,
    /// Rates to measure, in order; when empty the rates follow from the other fields.
    pub points_ops_per_s: Vec<Real>,
}

impl Default for ThroughputSweepConfig {
    fn default() -> (r: Self)
        ensures
            r.start_ops_per_s is None,
            r.step_multiplier is None,
            r.max_ops_per_s is None,
            r.max_points is None,
            r.saturation_achieved_ratio is None,
            r.stop_on_failure is None,
            r.points_ops_per_s@.len() == 0,
    {
        ThroughputSweepConfig {
            start_ops_per_s: None,
            step_multiplier: None,
            max_ops_per_s: None,
            max_points: None,
            saturation_achieved_ratio: None,
            stop_on_failure: None,
            points_ops_per_s: Vec::new(),
        }
    }
}

#[derive(Clone, Debug)]
pub struct LambdaChannelConfig {
    pub metadata_backend: String,
    pub channel_id_prefix: String,
    pub consume_mode: String,
    pub native_worker_threads: Option<usize>,
    pub min_elements_per_datapoint: Option<usize>,
    pub max_elements_per_datapoint: Option<usize>,
}

#[derive(Clone, Debug)]
pub struct P2pConfig {
    pub tracker_backend: String,
    pub cache_root: String,
    pub chunk_server_bind_host: String,
    pub chunk_server_port_base: u16,
    pub chunk_server_runtime_worker_threads: usize,
    pub enable_accel: bool,
    pub accel_probability: Option<Real>,
    pub persist_backend: Option<String>,
    pub non_abortable_task_workers: usize,
}

#[derive(Clone, Debug)]
pub struct InstancesConfig {
    pub registry: RegistryConfig,
    pub instances: Vec<InstanceConfig>,
}

#[derive(Clone, Debug)]
pub struct ParticipantConfig {
    pub instance_id: String,
    pub label: Option<String>,
}

#[derive(Clone, Debug)]
pub struct RegistryConfig {
    pub name: String,
    pub description: String,
}

#[derive(Clone, Debug)]
pub struct InstanceConfig {
    pub id: String,
    pub rpc_addr: String,
    pub rpc_listen_addr: Option<String>,
    pub p2p_advertise_endpoint: String,
    pub work_dir: String,
    pub capabilities: Vec<String>,
    pub labels: Vec<Entry>,
}

pub fn default_repetitions() -> (r: u64)
    ensures
        r == 1,
{
    1
}

pub fn default_p2p_chunk_server_runtime_worker_threads() -> (r: usize)
    ensures
        r == 4,
{
    4
}

pub fn default_p2p_enable_accel() -> (r: bool)
    ensures
        r,
{
    true
}

pub fn default_p2p_non_abortable_task_workers() -> (r: usize)
    ensures
        r == 16,
{
    16
}

// ---------------------------------------------------------------------------------------------
// Instances
// ---------------------------------------------------------------------------------------------
impl InstanceConfig {
    /// What is wrong with the instance by itself.
    pub open spec fn problem(self) -> Option<Seq<char>> {
        if text::is_blank_spec(self.rpc_addr@) {
            Some("instance "@ + self.id@ + " has empty rpc_addr"@)
        } else if text::is_blank_spec(self.p2p_advertise_endpoint@) {
            Some("instance "@ + self.id@ + " has empty p2p_advertise_endpoint"@)
        } else {
            None
        }
    }
}

impl InstancesConfig {
    /// Instance `i` is the first one with the id `id`.
    pub open spec fn first_with_id(self, id: Seq<char>, i: int) -> bool {
        &&& 0 <= i < self.instances@.len()
        &&& self.instances@[i].id@ == id
        &&& forall|j: int| 0 <= j < i ==> (#[trigger] self.instances@[j]).id@ != id
    }

    pub open spec fn has_id(self, id: Seq<char>) -> bool {
        exists|i: int| 0 <= i < self.instances@.len() && (#[trigger] self.instances@[i]).id@ == id
    }

    /// The first instance with the given id.
    pub fn find_instance(&self, instance_id: &str) -> (r: Option<&InstanceConfig>)
        ensures
            match r {
                Some(instance) => exists|i: int|
                    #[trigger] self.first_with_id(instance_id@, i) && *instance
                        == self.instances@[i],
                None => !self.has_id(instance_id@),
            },
            r is Some <==> self.has_id(instance_id@),
    {
        let mut i: usize = 0;
        while i < self.instances.len()
            invariant
                i <= self.instances@.len(),
                forall|j: int| 0 <= j < i ==> (#[trigger] self.instances@[j]).id@ != instance_id@,
            decreases self.instances.len() - i,
        {
            if text::same(self.instances[i].id.as_str(), instance_id) {
                assert(self.first_with_id(instance_id@, i as int));
                return Some(&self.instances[i]);
            }
            i = i + 1;
        }
        None
    }

    /// What is wrong with instance `i`, given the instances before it.
    pub open spec fn problem_at(self, i: int) -> Option<Seq<char>> {
        let instance = self.instances@[i];
        if text::is_blank_spec(instance.id@) {
            Some("instance id must not be empty"@)
        } else if exists|j: int| 0 <= j < i && (#[trigger] self.instances@[j]).id@ == instance.id@ {
            Some("duplicate instance id: "@ + instance.id@)
        } else {
            instance.problem()
        }
    }

    /// The first problem among the instances from `i` on.
    pub open spec fn problem_from(self, i: int) -> Option<Seq<char>>
        decreases self.instances@.len() - i,
    {
        if i >= self.instances@.len() {
            None
        } else if self.problem_at(i) is Some {
            self.problem_at(i)
        } else {
            self.problem_from(i + 1)
        }
    }

    /// What is wrong with the list of instances.
    pub open spec fn problem(self) -> Option<Seq<char>> {
        if self.instances@.len() == 0 {
            Some("instances list must contain at least one instance"@)
        } else {
            self.problem_from(0)
        }
    }

    pub fn validate(&self) -> (r: Result<(), String>)
        ensures
            verdict(r) == self.problem(),
    {
        if self.instances.len() == 0 {
            return Err("instances list must contain at least one instance".to_owned());
        }
        let mut i: usize = 0;
        while i < self.instances.len()
            invariant
                i <= self.instances@.len(),
                self.instances@.len() > 0,
                self.problem_from(i as int) == self.problem(),
            decreases self.instances.len() - i,
        {
            let instance = &self.instances[i];
            if text::is_blank(instance.id.as_str()) {
                return Err("instance id must not be empty".to_owned());
            }
            let mut j: usize = 0;
            while j < i
                invariant
                    j <= i < self.instances@.len(),
                    *instance == self.instances@[i as int],
                    !text::is_blank_spec(instance.id@),
                    self.problem_from(i as int) == self.problem(),
                    forall|k: int|
                        0 <= k < j ==> (#[trigger] self.instances@[k]).id@ != instance.id@,
                decreases i - j,
            {
                if text::same(self.instances[j].id.as_str(), instance.id.as_str()) {
                    return Err(text::cat2("duplicate instance id: ", instance.id.as_str()));
                }
                j = j + 1;
            }
            if text::is_blank(instance.rpc_addr.as_str()) {
                return Err(text::cat3("instance ", instance.id.as_str(), " has empty rpc_addr"));
            }
            if text::is_blank(instance.p2p_advertise_endpoint.as_str()) {
                return Err(
                    text::cat3("instance ", instance.id.as_str(), " has empty p2p_advertise_endpoint"),
                );
            }
            i = i + 1;
        }
        Ok(())
    }

    /// In a valid list every id names exactly one instance, and none is blank.
    pub proof fn lemma_valid_ids_unique(self)
        requires
            self.problem() is None,
        ensures
            self.instances@.len() > 0,
            forall|i: int|
                0 <= i < self.instances@.len() ==> !text::is_blank_spec((#[trigger] self.instances@[i]).id@),
            forall|i: int, j: int|
                0 <= i < j < self.instances@.len() ==> (#[trigger] self.instances@[i]).id@ != (
                #[trigger] self.instances@[j]).id@,
    {
        assert forall|i: int| 0 <= i < self.instances@.len() implies #[trigger] self.problem_at(
            i,
        ) is None by {
            self.lemma_no_problem_at(0, i);
        }
        assert forall|i: int, j: int| 0 <= i < j < self.instances@.len() implies (
        #[trigger] self.instances@[i]).id@ != (#[trigger] self.instances@[j]).id@ by {
            assert(self.problem_at(j) is None);
        }
        assert forall|i: int| 0 <= i < self.instances@.len() implies !text::is_blank_spec(
            (#[trigger] self.instances@[i]).id@,
        ) by {
            assert(self.problem_at(i) is None);
        }
    }

    proof fn lemma_no_problem_at(self, from: int, i: int)
        requires
            0 <= from <= i < self.instances@.len(),
            self.problem_from(from) is None,
        ensures
            self.problem_at(i) is None,
        decreases i - from,
    {
        if from < i {
            self.lemma_no_problem_at(from + 1, i);
        }
    }
}

// ---------------------------------------------------------------------------------------------
// Experiments
// ---------------------------------------------------------------------------------------------
/// Present, and not a finite number above zero.
pub open spec fn some_not_positive(value: Option<Real>) -> bool {
    value matches Some(x) && !x.is_positive_spec()
}

/// Present, and a number that is zero or less.
pub open spec fn some_at_most_zero(value: Option<Real>) -> bool {
    value matches Some(x) && x.le_spec(Real::zero_spec())
}

/// A finite number above one.
pub open spec fn above_one(x: Real) -> bool {
    x.is_finite_spec() && Real::one_spec().lt_spec(x)
}

/// Present, and not a finite number above one.
pub open spec fn some_not_above_one(value: Option<Real>) -> bool {
    value matches Some(x) && !above_one(x)
}

/// A number from zero to one.
pub open spec fn in_unit(x: Real) -> bool {
    Real::zero_spec().le_spec(x) && x.le_spec(Real::one_spec())
}

/// Present, and not a number from zero to one.
pub open spec fn some_outside_unit(value: Option<Real>) -> bool {
    value matches Some(x) && !in_unit(x)
}

/// A number above zero and at most one.
pub open spec fn is_ratio(x: Real) -> bool {
    in_unit(x) && x.rank() != 0
}

/// Present, and not a number above zero and at most one.
pub open spec fn some_no_ratio(value: Option<Real>) -> bool {
    value matches Some(x) && !is_ratio(x)
}

fn is_some_not_positive(value: Option<Real>) -> (r: bool)
    ensures
        r == some_not_positive(value),
{
    match value {
        Some(x) => !x.is_positive(),
        None => false,
    }
}

fn is_some_at_most_zero(value: Option<Real>) -> (r: bool)
    ensures
        r == some_at_most_zero(value),
{
    match value {
        Some(x) => x.le(Real::zero()),
        None => false,
    }
}

/// Whether `x` is a finite number above one.
pub fn is_above_one(x: Real) -> (r: bool)
    ensures
        r == above_one(x),
{
    x.is_finite() && Real::one().lt(x)
}

fn is_some_not_above_one(value: Option<Real>) -> (r: bool)
    ensures
        r == some_not_above_one(value),
{
    match value {
        Some(x) => !is_above_one(x),
        None => false,
    }
}

fn is_some_outside_unit(value: Option<Real>) -> (r: bool)
    ensures
        r == some_outside_unit(value),
{
    match value {
        Some(x) => !(Real::zero().le(x) && x.le(Real::one())),
        None => false,
    }
}

/// Whether `x` is a number above zero and at most one.
pub fn is_a_ratio(x: Real) -> (r: bool)
    ensures
        r == is_ratio(x),
{
    Real::zero().le(x) && x.le(Real::one()) && x.rank_i64() != 0
}

fn is_some_no_ratio(value: Option<Real>) -> (r: bool)
    ensures
        r == some_no_ratio(value),
{
    match value {
        Some(x) => !is_a_ratio(x),
        None => false,
    }
}

fn is_some_zero(value: Option<usize>) -> (r: bool)
    ensures
        r == (value == Some(0usize)),
{
    match value {
        Some(n) => n == 0,
        None => false,
    }
}

impl ThroughputSweepConfig {
    /// The first rule that the sweep settings break.
    pub open spec fn problem(self) -> Option<Seq<char>> {
        if some_not_positive(self.start_ops_per_s) {
            Some("throughput_sweep.start_ops_per_s must be a finite positive number"@)
        } else if some_not_above_one(self.step_multiplier) {
            Some("throughput_sweep.step_multiplier must be a finite number greater than 1"@)
        } else if some_not_positive(self.max_ops_per_s) {
            Some("throughput_sweep.max_ops_per_s must be a finite positive number"@)
        } else if self.max_points == Some(0usize) {
            Some("throughput_sweep.max_points must be greater than zero"@)
        } else if some_no_ratio(self.saturation_achieved_ratio) {
            Some("throughput_sweep.saturation_achieved_ratio must be in the range (0, 1]"@)
        } else {
            None
        }
    }

    pub fn validate(&self) -> (r: Result<(), String>)
        ensures
            verdict(r) == self.problem(),
    {
        if is_some_not_positive(self.start_ops_per_s) {
            return Err("throughput_sweep.start_ops_per_s must be a finite positive number".to_owned());
        }
        if is_some_not_above_one(self.step_multiplier) {
            return Err("throughput_sweep.step_multiplier must be a finite number greater than 1".to_owned());
        }
        if is_some_not_positive(self.max_ops_per_s) {
            return Err("throughput_sweep.max_ops_per_s must be a finite positive number".to_owned());
        }
        if is_some_zero(self.max_points) {
            return Err("throughput_sweep.max_points must be greater than zero".to_owned());
        }
        if is_some_no_ratio(self.saturation_achieved_ratio) {
            return Err("throughput_sweep.saturation_achieved_ratio must be in the range (0, 1]".to_owned());
        }
        Ok(())
    }
}

impl ExperimentSpec {
    /// Some participant names no instance.
    pub open spec fn has_blank_participant(self) -> bool {
        exists|i: int|
            0 <= i < self.participants@.len() && text::is_blank_spec(
                (#[trigger] self.participants@[i]).instance_id@,
            )
    }

    /// The first rule that the experiment breaks.
    pub open spec fn problem(self) -> Option<Seq<char>> {
        if text::is_blank_spec(self.run.run_id@) {
            Some("experiment run.run_id must not be empty"@)
        } else if text::is_blank_spec(self.run.workload@) {
            Some("experiment run.workload must not be empty"@)
        } else if self.benchmark.operations == 0 {
            Some("benchmark.operations must be greater than zero"@)
        } else if self.benchmark.concurrency == 0 {
            Some("benchmark.concurrency must be greater than zero"@)
        } else if self.benchmark.repetitions == 0 {
            Some("benchmark.repetitions must be greater than zero"@)
        } else if some_not_positive(self.benchmark.duration_seconds) {
            Some("benchmark.duration_seconds must be a finite positive number"@)
        } else if some_at_most_zero(self.benchmark.offered_rate_per_s) {
            Some("benchmark.offered_rate_per_s must be greater than zero"@)
        } else if self.throughput_sweep.problem() is Some {
            self.throughput_sweep.problem()
        } else if self.coordination.rpc_timeout_ms == 0 {
            Some("coordination.rpc_timeout_ms must be greater than zero"@)
        } else if self.coordination.barrier_timeout_ms == 0 {
            Some("coordination.barrier_timeout_ms must be greater than zero"@)
        } else if self.coordination.cleanup_timeout_ms == 0 {
            Some("coordination.cleanup_timeout_ms must be greater than zero"@)
        } else if text::is_blank_spec(self.lambda_channel.metadata_backend@) {
            Some("lambda_channel.metadata_backend must not be empty"@)
        } else if text::is_blank_spec(self.lambda_channel.channel_id_prefix@) {
            Some("lambda_channel.channel_id_prefix must not be empty"@)
        } else if text::is_blank_spec(self.lambda_channel.consume_mode@) {
            Some("lambda_channel.consume_mode must not be empty"@)
        } else if text::is_blank_spec(self.p2p.tracker_backend@) {
            Some("p2p.tracker_backend must not be empty"@)
        } else if text::is_blank_spec(self.p2p.chunk_server_bind_host@) {
            Some("p2p.chunk_server_bind_host must not be empty"@)
        } else if self.p2p.chunk_server_runtime_worker_threads == 0 {
            Some("p2p.chunk_server_runtime_worker_threads must be greater than zero"@)
        } else if self.p2p.non_abortable_task_workers == 0 {
            Some("p2p.non_abortable_task_workers must be greater than zero"@)
        } else if some_outside_unit(self.p2p.accel_probability) {
            Some("p2p.accel_probability must be between 0 and 1"@)
        } else {
            self.participant_problem()
        }
    }

    pub open spec fn participant_problem(self) -> Option<Seq<char>> {
        if self.has_blank_participant() {
            Some("participant instance_id must not be empty"@)
        } else {
            None
        }
    }

    pub fn validate(&self) -> (r: Result<(), String>)
        ensures
            verdict(r) == self.problem(),
    {
        if text::is_blank(self.run.run_id.as_str()) {
            return Err("experiment run.run_id must not be empty".to_owned());
        }
        if text::is_blank(self.run.workload.as_str()) {
            return Err("experiment run.workload must not be empty".to_owned());
        }
        if self.benchmark.operations == 0 {
            return Err("benchmark.operations must be greater than zero".to_owned());
        }
        if self.benchmark.concurrency == 0 {
            return Err("benchmark.concurrency must be greater than zero".to_owned());
        }
        if self.benchmark.repetitions == 0 {
            return Err("benchmark.repetitions must be greater than zero".to_owned());
        }
        if is_some_not_positive(self.benchmark.duration_seconds) {
            return Err("benchmark.duration_seconds must be a finite positive number".to_owned());
        }
        if is_some_at_most_zero(self.benchmark.offered_rate_per_s) {
            return Err("benchmark.offered_rate_per_s must be greater than zero".to_owned());
        }
        if let Err(e) = self.throughput_sweep.validate() {
            return Err(e);
        }
        if self.coordination.rpc_timeout_ms == 0 {
            return Err("coordination.rpc_timeout_ms must be greater than zero".to_owned());
        }
        if self.coordination.barrier_timeout_ms == 0 {
            return Err("coordination.barrier_timeout_ms must be greater than zero".to_owned());
        }
        if self.coordination.cleanup_timeout_ms == 0 {
            return Err("coordination.cleanup_timeout_ms must be greater than zero".to_owned());
        }
        if text::is_blank(self.lambda_channel.metadata_backend.as_str()) {
            return Err("lambda_channel.metadata_backend must not be empty".to_owned());
        }
        if text::is_blank(self.lambda_channel.channel_id_prefix.as_str()) {
            return Err("lambda_channel.channel_id_prefix must not be empty".to_owned());
        }
        if text::is_blank(self.lambda_channel.consume_mode.as_str()) {
            return Err("lambda_channel.consume_mode must not be empty".to_owned());
        }
        if text::is_blank(self.p2p.tracker_backend.as_str()) {
            return Err("p2p.tracker_backend must not be empty".to_owned());
        }
        if text::is_blank(self.p2p.chunk_server_bind_host.as_str()) {
            return Err("p2p.chunk_server_bind_host must not be empty".to_owned());
        }
        if self.p2p.chunk_server_runtime_worker_threads == 0 {
            return Err("p2p.chunk_server_runtime_worker_threads must be greater than zero".to_owned());
        }
        if self.p2p.non_abortable_task_workers == 0 {
            return Err("p2p.non_abortable_task_workers must be greater than zero".to_owned());
        }
        if is_some_outside_unit(self.p2p.accel_probability) {
            return Err("p2p.accel_probability must be between 0 and 1".to_owned());
        }
        let mut i: usize = 0;
        while i < self.participants.len()
            invariant
                i <= self.participants@.len(),
                self.problem() == self.participant_problem(),
                forall|j: int|
                    0 <= j < i ==> !text::is_blank_spec((#[trigger] self.participants@[j]).instance_id@),
            decreases self.participants.len() - i,
        {
            if text::is_blank(self.participants[i].instance_id.as_str()) {
                return Err("participant instance_id must not be empty".to_owned());
            }
            i = i + 1;
        }
        Ok(())
    }

    /// The first participant from `i` on that no instance answers to.
    pub open spec fn unknown_participant_from(
        self,
        instances: InstancesConfig,
        i: int,
    ) -> Option<Seq<char>>
        decreases self.participants@.len() - i,
    {
        if i >= self.participants@.len() {
            None
        } else if !instances.has_id(self.participants@[i].instance_id@) {
            Some(
                "participant references unknown instance id: "@
                    + self.participants@[i].instance_id@,
            )
        } else {
            self.unknown_participant_from(instances, i + 1)
        }
    }

    /// What is wrong with the experiment on the given instances.
    pub open spec fn problem_with(self, instances: InstancesConfig) -> Option<Seq<char>> {
        if self.problem() is Some {
            self.problem()
        } else if instances.problem() is Some {
            instances.problem()
        } else {
            self.unknown_participant_from(instances, 0)
        }
    }

    pub fn validate_with_instances(&self, instances: &InstancesConfig) -> (r: Result<(), String>)
        ensures
            verdict(r) == self.problem_with(*instances),
    {
        if let Err(e) = self.validate() {
            return Err(e);
        }
        if let Err(e) = instances.validate() {
            return Err(e);
        }
        let mut i: usize = 0;
        while i < self.participants.len()
            invariant
                i <= self.participants@.len(),
                self.unknown_participant_from(*instances, i as int) == self.problem_with(
                    *instances,
                ),
            decreases self.participants.len() - i,
        {
            let id = self.participants[i].instance_id.as_str();
            if instances.find_instance(id).is_none() {
                return Err(text::cat2("participant references unknown instance id: ", id));
            }
            i = i + 1;
        }
        Ok(())
    }

    /// On a valid pair of configurations every participant is found among the instances.
    pub proof fn lemma_valid_participants_are_known(self, instances: InstancesConfig)
        requires
            self.problem_with(instances) is None,
        ensures
            forall|i: int|
                0 <= i < self.participants@.len() ==> instances.has_id(
                    (#[trigger] self.participants@[i]).instance_id@,
                ),
    {
        assert forall|i: int| 0 <= i < self.participants@.len() implies instances.has_id(
            (#[trigger] self.participants@[i]).instance_id@,
        ) by {
            self.lemma_known(instances, 0, i);
        }
    }

    proof fn lemma_known(self, instances: InstancesConfig, from: int, i: int)
        requires
            0 <= from <= i < self.participants@.len(),
            self.unknown_participant_from(instances, from) is None,
        ensures
            instances.has_id(self.participants@[i].instance_id@),
        decreases i - from,
    {
        if from < i {
            self.lemma_known(instances, from + 1, i);
        }
    }
}

impl BenchmarkConfig {
    /// How many operations to run at `target`, where `product` is the rounded-up product of the
    /// target rate and the duration, and `shown_duration` and `shown_target` are how the two
    /// print.
    pub open spec fn operations_spec(
        self,
        target: Real,
        product: Real,
        shown_duration: Seq<char>,
        shown_target: Seq<char>,
    ) -> Result<u64, Seq<char>> {
        if self.duration_seconds is None {
            Ok(self.operations)
        } else if !target.is_positive_spec() {
            Err("target_ops_per_s must be a finite positive number"@)
        } else if !product.is_positive_spec() {
            Err("duration-based operations must be a finite positive number"@)
        } else if (Real { bits: TWO_POW_64 }).lt_spec(product) {
            Err(
                "duration_seconds="@ + shown_duration + " at target_ops_per_s="@ + shown_target
                    + " produces too many operations"@,
            )
        } else {
            Ok(product.to_u64_spec())
        }
    }

    pub fn operations_for_target(
        &self,
        target: Real,
        product: Real,
        shown_duration: &str,
        shown_target: &str,
    ) -> (r: Result<u64, String>)
        ensures
            match r {
                Ok(n) => self.operations_spec(target, product, shown_duration@, shown_target@)
                    == Ok::<u64, Seq<char>>(n),
                Err(e) => self.operations_spec(target, product, shown_duration@, shown_target@)
                    == Err::<u64, Seq<char>>(e@),
            },
    {
        if self.duration_seconds.is_none() {
            return Ok(self.operations);
        }
        if !target.is_positive() {
            return Err("target_ops_per_s must be a finite positive number".to_owned());
        }
        if !product.is_positive() {
            return Err("duration-based operations must be a finite positive number".to_owned());
        }
        let limit = Real { bits: TWO_POW_64 };
        if limit.lt(product) {
            let mut e = text::cat3("duration_seconds=", shown_duration, " at target_ops_per_s=");
            e.append(shown_target);
            e.append(" produces too many operations");
            return Err(e);
        }
        Ok(product.to_u64())
    }
}

// ---------------------------------------------------------------------------------------------
// Loading
// ---------------------------------------------------------------------------------------------
/// What became of a configuration file: it could not be read, its text could not be parsed, or it
/// holds the given value. The first two carry the reason.
pub enum Loaded<T> {
    Unreadable(String),
    Unparsable(String),
    Value(T),
}

impl<T> Loaded<T> {
    /// The value, or the message that names the file and the reason.
    pub open spec fn outcome(self, path: Seq<char>) -> Result<T, Seq<char>> {
        match self {
            Loaded::Unreadable(e) => Err("failed to read "@ + path + ": "@ + e@),
            Loaded::Unparsable(e) => Err("failed to parse "@ + path + ": "@ + e@),
            Loaded::Value(v) => Ok(v),
        }
    }
}

fn load_toml<T>(path: &str, loaded: Loaded<T>) -> (r: Result<T, String>)
    ensures
        match r {
            Ok(v) => loaded.outcome(path@) == Ok::<T, Seq<char>>(v),
            Err(e) => loaded.outcome(path@) == Err::<T, Seq<char>>(e@),
        },
{
    match loaded {
        Loaded::Unreadable(e) => {
            let mut m = text::cat3("failed to read ", path, ": ");
            m.append(e.as_str());
            Err(m)
        },
        Loaded::Unparsable(e) => {
            let mut m = text::cat3("failed to parse ", path, ": ");
            m.append(e.as_str());
            Err(m)
        },
        Loaded::Value(v) => Ok(v),
    }
}

/// `r` is the table of `given`: it has every key of `given` once, with its last value, and is as it
/// was given where that is a table already.
pub open spec fn is_table_of(r: Seq<Entry>, given: Seq<Entry>) -> bool {
    &&& table::is_table(r)
    &&& forall|k: Seq<char>| #[trigger]
        environment::lookup_spec(r, k) == table::latest_spec(given, k)
    &&& table::is_table(given) ==> environment::entry_views(r) == environment::entry_views(given)
}

impl ExperimentSpec {
    /// The environment of an experiment is a table.
    pub open spec fn wf(self) -> bool {
        table::is_table(self.env@)
    }

    /// The given experiment with its environment as a table.
    pub open spec fn is_tabled(self, given: ExperimentSpec) -> bool {
        &&& self == (ExperimentSpec { env: self.env, ..given })
        &&& is_table_of(self.env@, given.env@)
    }
}

impl InstanceConfig {
    /// The labels of an instance are a table.
    pub open spec fn wf(self) -> bool {
        table::is_table(self.labels@)
    }

    /// The given instance with its labels as a table.
    pub open spec fn is_tabled(self, given: InstanceConfig) -> bool {
        &&& self == (InstanceConfig { labels: self.labels, ..given })
        &&& is_table_of(self.labels@, given.labels@)
    }
}

impl InstancesConfig {
    pub open spec fn wf(self) -> bool {
        forall|i: int| 0 <= i < self.instances@.len() ==> (#[trigger] self.instances@[i]).wf()
    }

    /// The given inventory with the labels of every instance as a table.
    pub open spec fn is_tabled(self, given: InstancesConfig) -> bool {
        &&& self.registry == given.registry
        &&& self.instances@.len() == given.instances@.len()
        &&& forall|i: int|
            0 <= i < given.instances@.len() ==> (#[trigger] self.instances@[i]).is_tabled(
                given.instances@[i],
            )
    }
}

pub fn load_experiment(path: &str, loaded: Loaded<ExperimentSpec>) -> (r: Result<
    ExperimentSpec,
    String,
>)
    ensures
        match r {
            Ok(v) => v.wf() && loaded is Value && v.is_tabled(loaded->Value_0),
            Err(e) => loaded.outcome(path@) == Err::<ExperimentSpec, Seq<char>>(e@),
        },
{
    match load_toml(path, loaded) {
        Ok(given) => {
            let env = table::table_of(given.env);
            Ok(ExperimentSpec { env, ..given })
        },
        Err(e) => Err(e),
    }
}

pub fn load_instances(path: &str, loaded: Loaded<InstancesConfig>) -> (r: Result<
    InstancesConfig,
    String,
>)
    ensures
        match r {
            Ok(v) => v.wf() && loaded is Value && v.is_tabled(loaded->Value_0),
            Err(e) => loaded.outcome(path@) == Err::<InstancesConfig, Seq<char>>(e@),
        },
{
    match load_toml(path, loaded) {
        Ok(given) => {
            let ghost all = given.instances@;
            let mut rest = given.instances;
            let mut instances: Vec<InstanceConfig> = Vec::new();
            assert(rest@ =~= all.skip(0));
            while rest.len() > 0
                invariant
                    instances@.len() + rest@.len() == all.len(),
                    rest@ == all.skip(instances@.len() as int),
                    forall|i: int|
                        0 <= i < instances@.len() ==> (#[trigger] instances@[i]).is_tabled(all[i]),
                decreases rest.len(),
            {
                let instance = rest.remove(0);
                assert(instance == all[instances@.len() as int]);
                let labels = table::table_of(instance.labels);
                instances.push(InstanceConfig { labels, ..instance });
                assert(rest@ =~= all.skip(instances@.len() as int));
            }
            Ok(InstancesConfig { registry: given.registry, instances })
        },
        Err(e) => Err(e),
    }
}

// ---------------------------------------------------------------------------------------------
// Summaries
// ---------------------------------------------------------------------------------------------
pub open spec fn bool_text(b: bool) -> Seq<char> {
    if b {
        "true"@
    } else {
        "false"@
    }
}

/// How a truth value prints.
pub fn show_bool(b: bool) -> (r: String)
    ensures
        r@ == bool_text(b),
{
    if b {
        "true".to_owned()
    } else {
        "false".to_owned()
    }
}

/// How the optional rates of an experiment print; a text counts only where its value is present.
#[derive(Clone, Debug)]
pub struct ShownRates {
    pub duration_seconds: String,
    pub offered_rate_per_s: String,
    pub accel_probability: String,
}

/// `shown` where the value is present, else `none`.
pub open spec fn shown_or_none(value: Option<Real>, shown: Seq<char>) -> Seq<char> {
    if value is Some {
        shown
    } else {
        "none"@
    }
}

fn show_or_none(value: Option<Real>, shown: &str) -> (r: String)
    ensures
        r@ == shown_or_none(value, shown@),
{
    if value.is_some() {
        shown.to_owned()
    } else {
        "none".to_owned()
    }
}

/// A blank backend prints as `none`.
pub open spec fn backend_text(backend: Seq<char>) -> Seq<char> {
    if text::is_blank_spec(backend) {
        "none"@
    } else {
        backend
    }
}

fn show_backend(backend: &str) -> (r: String)
    ensures
        r@ == backend_text(backend@),
{
    if text::is_blank(backend) {
        "none".to_owned()
    } else {
        backend.to_owned()
    }
}

pub open spec fn threads_text(threads: Option<usize>) -> Seq<char> {
    match threads {
        Some(n) => text::dec(n as nat),
        None => "default"@,
    }
}

fn show_threads(threads: Option<usize>) -> (r: String)
    ensures
        r@ == threads_text(threads),
{
    match threads {
        Some(n) => text::decimal(n as u64),
        None => "default".to_owned(),
    }
}

pub open spec fn persist_text(backend: Option<String>) -> Seq<char> {
    match backend {
        Some(s) => s@,
        None => "none"@,
    }
}

fn show_persist(backend: &Option<String>) -> (r: String)
    ensures
        r@ == persist_text(*backend),
{
    match backend {
        Some(s) => s.clone(),
        None => "none".to_owned(),
    }
}

/// `so_far` followed by a label and its value.
pub open spec fn with_field(so_far: Seq<char>, label: Seq<char>, value: Seq<char>) -> Seq<char> {
    so_far + label + value
}

fn add_field(out: &mut String, label: &str, value: &str)
    ensures
        final(out)@ == with_field(old(out)@, label@, value@),
{
    out.append(label);
    out.append(value);
}

/// All settings of an experiment on one line.
pub open spec fn experiment_summary_spec(experiment: ExperimentSpec, shown: ShownRates) -> Seq<
    char,
> {
    let s = Seq::<char>::empty();
    let s = with_field(s, "run_id="@, experiment.run.run_id@);
    let s = with_field(s, ", workload="@, experiment.run.workload@);
    let s = with_field(s, ", description="@, experiment.run.description@);
    let s = with_field(s, ", output_dir="@, experiment.run.output_dir@);
    let s = with_field(s, ", seed="@, text::dec(experiment.run.seed as nat));
    let s = with_field(s, ", backend="@, backend_text(experiment.benchmark.backend@));
    let s = with_field(s, ", operations="@, text::dec(experiment.benchmark.operations as nat));
    let s = with_field(s, ", duration_seconds="@, shown_or_none(experiment.benchmark.duration_seconds, shown.duration_seconds@));
    let s = with_field(s, ", concurrency="@, text::dec(experiment.benchmark.concurrency as nat));
    let s = with_field(s, ", object_size_bytes="@, text::dec(experiment.benchmark.object_size_bytes as nat));
    let s = with_field(s, ", warmup_operations="@, text::dec(experiment.benchmark.warmup_operations as nat));
    let s = with_field(s, ", offered_rate_per_s="@, shown_or_none(experiment.benchmark.offered_rate_per_s, shown.offered_rate_per_s@));
    let s = with_field(s, ", repetitions="@, text::dec(experiment.benchmark.repetitions as nat));
    let s = with_field(s, ", force_reset_on_start="@, bool_text(experiment.coordination.force_reset_on_start));
    let s = with_field(s, ", participants="@, text::dec(experiment.participants@.len()));
    let s = with_field(s, ", metadata_backend="@, experiment.lambda_channel.metadata_backend@);
    let s = with_field(s, ", channel_id_prefix="@, experiment.lambda_channel.channel_id_prefix@);
    let s = with_field(s, ", consume_mode="@, experiment.lambda_channel.consume_mode@);
    let s = with_field(s, ", native_worker_threads="@, threads_text(experiment.lambda_channel.native_worker_threads));
    let s = with_field(s, ", p2p_tracker_backend="@, experiment.p2p.tracker_backend@);
    let s = with_field(s, ", p2p_cache_root="@, experiment.p2p.cache_root@);
    let s = with_field(s, ", p2p_bind_host="@, experiment.p2p.chunk_server_bind_host@);
    let s = with_field(s, ", p2p_port_base="@, text::dec(experiment.p2p.chunk_server_port_base as nat));
    let s = with_field(s, ", p2p_chunk_server_runtime_worker_threads="@, text::dec(experiment.p2p.chunk_server_runtime_worker_threads as nat));
    let s = with_field(s, ", p2p_enable_accel="@, bool_text(experiment.p2p.enable_accel));
    let s = with_field(s, ", p2p_accel_probability="@, shown_or_none(experiment.p2p.accel_probability, shown.accel_probability@));
    let s = with_field(s, ", p2p_persist_backend="@, persist_text(experiment.p2p.persist_backend));
    let s = with_field(s, ", p2p_non_abortable_task_workers="@, text::dec(experiment.p2p.non_abortable_task_workers as nat));
    let s = with_field(s, ", env_vars="@, text::dec(experiment.env@.len()));
    s
}

pub fn experiment_summary(experiment: &ExperimentSpec, shown: &ShownRates) -> (r: String)
    ensures
        r@ == experiment_summary_spec(*experiment, *shown),
{
    let mut out = String::new();
    add_field(&mut out, "run_id=", experiment.run.run_id.as_str());
    add_field(&mut out, ", workload=", experiment.run.workload.as_str());
    add_field(&mut out, ", description=", experiment.run.description.as_str());
    add_field(&mut out, ", output_dir=", experiment.run.output_dir.as_str());
    add_field(&mut out, ", seed=", text::decimal(experiment.run.seed).as_str());
    add_field(&mut out, ", backend=", show_backend(experiment.benchmark.backend.as_str()).as_str());
    add_field(&mut out, ", operations=", text::decimal(experiment.benchmark.operations).as_str());
    add_field(&mut out, ", duration_seconds=", show_or_none(experiment.benchmark.duration_seconds, shown.duration_seconds.as_str()).as_str());
    add_field(&mut out, ", concurrency=", text::decimal(experiment.benchmark.concurrency as u64).as_str());
    add_field(&mut out, ", object_size_bytes=", text::decimal(experiment.benchmark.object_size_bytes).as_str());
    add_field(&mut out, ", warmup_operations=", text::decimal(experiment.benchmark.warmup_operations).as_str());
    add_field(&mut out, ", offered_rate_per_s=", show_or_none(experiment.benchmark.offered_rate_per_s, shown.offered_rate_per_s.as_str()).as_str());
    add_field(&mut out, ", repetitions=", text::decimal(experiment.benchmark.repetitions).as_str());
    add_field(&mut out, ", force_reset_on_start=", show_bool(experiment.coordination.force_reset_on_start).as_str());
    add_field(&mut out, ", participants=", text::decimal(experiment.participants.len() as u64).as_str());
    add_field(&mut out, ", metadata_backend=", experiment.lambda_channel.metadata_backend.as_str());
    add_field(&mut out, ", channel_id_prefix=", experiment.lambda_channel.channel_id_prefix.as_str());
    add_field(&mut out, ", consume_mode=", experiment.lambda_channel.consume_mode.as_str());
    add_field(&mut out, ", native_worker_threads=", show_threads(experiment.lambda_channel.native_worker_threads).as_str());
    add_field(&mut out, ", p2p_tracker_backend=", experiment.p2p.tracker_backend.as_str());
    add_field(&mut out, ", p2p_cache_root=", experiment.p2p.cache_root.as_str());
    add_field(&mut out, ", p2p_bind_host=", experiment.p2p.chunk_server_bind_host.as_str());
    add_field(&mut out, ", p2p_port_base=", text::decimal(experiment.p2p.chunk_server_port_base as u64).as_str());
    add_field(&mut out, ", p2p_chunk_server_runtime_worker_threads=", text::decimal(experiment.p2p.chunk_server_runtime_worker_threads as u64).as_str());
    add_field(&mut out, ", p2p_enable_accel=", show_bool(experiment.p2p.enable_accel).as_str());
    add_field(&mut out, ", p2p_accel_probability=", show_or_none(experiment.p2p.accel_probability, shown.accel_probability.as_str()).as_str());
    add_field(&mut out, ", p2p_persist_backend=", show_persist(&experiment.p2p.persist_backend).as_str());
    add_field(&mut out, ", p2p_non_abortable_task_workers=", text::decimal(experiment.p2p.non_abortable_task_workers as u64).as_str());
    add_field(&mut out, ", env_vars=", text::decimal(experiment.env.len() as u64).as_str());
    out
}

/// The registry and the number of instances on one line.
pub open spec fn instances_summary_spec(instances: InstancesConfig) -> Seq<char> {
    let s = Seq::<char>::empty();
    let s = with_field(s, "registry="@, instances.registry.name@);
    let s = with_field(s, ", registry_description="@, instances.registry.description@);
    with_field(s, ", instances="@, text::dec(instances.instances@.len()))
}

pub fn instances_summary(instances: &InstancesConfig) -> (r: String)
    ensures
        r@ == instances_summary_spec(*instances),
{
    let mut out = String::new();
    add_field(&mut out, "registry=", instances.registry.name.as_str());
    add_field(&mut out, ", registry_description=", instances.registry.description.as_str());
    add_field(&mut out, ", instances=", text::decimal(instances.instances.len() as u64).as_str());
    out
}

// ---------------------------------------------------------------------------------------------
// What is a valid configuration, and what is said of one
// ---------------------------------------------------------------------------------------------
/// Whether a list of instances can be used: there is one, each has an id of its own, and an address
/// for requests and an endpoint for peers.
pub open spec fn usable(c: InstancesConfig) -> bool {
    &&& c.instances@.len() > 0
    &&& forall|i: int|
        0 <= i < c.instances@.len() ==> {
            &&& text::trim_spec((#[trigger] c.instances@[i]).id@).len() > 0
            &&& text::trim_spec(c.instances@[i].rpc_addr@).len() > 0
            &&& text::trim_spec(c.instances@[i].p2p_advertise_endpoint@).len() > 0
        }
    &&& forall|i: int, j: int|
        0 <= i < j < c.instances@.len() ==> (#[trigger] c.instances@[i]).id@ != (
        #[trigger] c.instances@[j]).id@
}

proof fn lemma_problem_from(c: InstancesConfig, i: int)
    requires
        0 <= i,
    ensures
        c.problem_from(i) is None <==> forall|k: int|
            i <= k < c.instances@.len() ==> #[trigger] c.problem_at(k) is None,
    decreases c.instances@.len() - i,
{
    if i < c.instances@.len() {
        lemma_problem_from(c, i + 1);
        if c.problem_from(i) is None {
            assert forall|k: int| i <= k < c.instances@.len() implies #[trigger] c.problem_at(
                k,
            ) is None by {}
        } else {
            if c.problem_at(i) is None {
                assert(!(forall|k: int|
                    i + 1 <= k < c.instances@.len() ==> #[trigger] c.problem_at(k) is None));
            }
        }
    }
}

/// A list of instances is taken just where it can be used.
pub proof fn lemma_instances_that_are_taken(c: InstancesConfig)
    ensures
        c.problem() is None <==> usable(c),
{
    lemma_problem_from(c, 0);
    if c.problem() is None {
        assert forall|i: int| 0 <= i < c.instances@.len() implies {
            &&& text::trim_spec((#[trigger] c.instances@[i]).id@).len() > 0
            &&& text::trim_spec(c.instances@[i].rpc_addr@).len() > 0
            &&& text::trim_spec(c.instances@[i].p2p_advertise_endpoint@).len() > 0
        } by {
            assert(c.problem_at(i) is None);
        }
        assert forall|i: int, j: int| 0 <= i < j < c.instances@.len() implies (
        #[trigger] c.instances@[i]).id@ != (#[trigger] c.instances@[j]).id@ by {
            assert(c.problem_at(j) is None);
        }
    }
    if usable(c) {
        assert forall|k: int| 0 <= k < c.instances@.len() implies #[trigger] c.problem_at(
            k,
        ) is None by {
            assert(text::trim_spec(c.instances@[k].id@).len() > 0);
        }
    }
}

/// Whether the settings of a sweep make sense, as far as they are there: rates are finite and above
/// zero, the multiplier is finite and above one, there is a point, and the ratio is above zero and
/// at most one.
pub open spec fn sweep_makes_sense(t: ThroughputSweepConfig) -> bool {
    &&& t.start_ops_per_s is Some ==> t.start_ops_per_s->0.is_positive_spec()
    &&& t.step_multiplier is Some ==> t.step_multiplier->0.is_finite_spec() && (Real {
        bits: 0x3ff0_0000_0000_0000,
    }).lt_spec(t.step_multiplier->0)
    &&& t.max_ops_per_s is Some ==> t.max_ops_per_s->0.is_positive_spec()
    &&& t.max_points is Some ==> t.max_points->0 >= 1
    &&& t.saturation_achieved_ratio is Some ==> {
        let ratio = t.saturation_achieved_ratio->0;
        &&& (Real { bits: 0 }).lt_spec(ratio)
        &&& ratio.le_spec(Real { bits: 0x3ff0_0000_0000_0000 })
    }
}

/// The settings of a sweep are taken just where they make sense.
pub proof fn lemma_sweeps_that_are_taken(t: ThroughputSweepConfig)
    ensures
        t.problem() is None <==> sweep_makes_sense(t),
{
}

/// Whether an experiment can be run: it has a name, a workload and work to do, its rates and times are
/// above zero, and what it says of the channel, of the peers and of those who take part is not blank.
pub open spec fn runnable(e: ExperimentSpec) -> bool {
    &&& text::trim_spec(e.run.run_id@).len() > 0
    &&& text::trim_spec(e.run.workload@).len() > 0
    &&& e.benchmark.operations >= 1
    &&& e.benchmark.concurrency >= 1
    &&& e.benchmark.repetitions >= 1
    &&& e.benchmark.duration_seconds is Some ==> e.benchmark.duration_seconds->0.is_positive_spec()
    &&& e.benchmark.offered_rate_per_s is Some ==> !e.benchmark.offered_rate_per_s->0.le_spec(
        Real { bits: 0 },
    )
    &&& sweep_makes_sense(e.throughput_sweep)
    &&& e.coordination.rpc_timeout_ms >= 1
    &&& e.coordination.barrier_timeout_ms >= 1
    &&& e.coordination.cleanup_timeout_ms >= 1
    &&& text::trim_spec(e.lambda_channel.metadata_backend@).len() > 0
    &&& text::trim_spec(e.lambda_channel.channel_id_prefix@).len() > 0
    &&& text::trim_spec(e.lambda_channel.consume_mode@).len() > 0
    &&& text::trim_spec(e.p2p.tracker_backend@).len() > 0
    &&& text::trim_spec(e.p2p.chunk_server_bind_host@).len() > 0
    &&& e.p2p.chunk_server_runtime_worker_threads >= 1
    &&& e.p2p.non_abortable_task_workers >= 1
    &&& e.p2p.accel_probability is Some ==> (Real { bits: 0 }).le_spec(e.p2p.accel_probability->0)
        && e.p2p.accel_probability->0.le_spec(Real { bits: 0x3ff0_0000_0000_0000 })
    &&& forall|i: int|
        0 <= i < e.participants@.len() ==> text::trim_spec(
            (#[trigger] e.participants@[i]).instance_id@,
        ).len() > 0
}

/// An experiment is taken just where it can be run.
pub proof fn lemma_experiments_that_are_taken(e: ExperimentSpec)
    ensures
        e.problem() is None <==> runnable(e),
{
    lemma_sweeps_that_are_taken(e.throughput_sweep);
    if e.has_blank_participant() {
        let i = choose|i: int|
            0 <= i < e.participants@.len() && text::is_blank_spec(
                (#[trigger] e.participants@[i]).instance_id@,
            );
        assert(!(text::trim_spec(e.participants@[i].instance_id@).len() > 0));
    } else {
        assert forall|i: int| 0 <= i < e.participants@.len() implies text::trim_spec(
            (#[trigger] e.participants@[i]).instance_id@,
        ).len() > 0 by {
            assert(!text::is_blank_spec(e.participants@[i].instance_id@));
        }
    }
}

proof fn lemma_unknown_from(e: ExperimentSpec, instances: InstancesConfig, i: int)
    requires
        0 <= i,
    ensures
        e.unknown_participant_from(instances, i) is None <==> forall|k: int|
            i <= k < e.participants@.len() ==> instances.has_id(
                (#[trigger] e.participants@[k]).instance_id@,
            ),
    decreases e.participants@.len() - i,
{
    if i < e.participants@.len() {
        lemma_unknown_from(e, instances, i + 1);
        if instances.has_id(e.participants@[i].instance_id@) {
            if e.unknown_participant_from(instances, i) is None {
                assert forall|k: int| i <= k < e.participants@.len() implies instances.has_id(
                    (#[trigger] e.participants@[k]).instance_id@,
                ) by {}
            }
        }
    }
}

/// An experiment is taken with a list of instances just where it can be run, the list can be used, and
/// everyone who takes part is on the list.
pub proof fn lemma_experiments_that_are_taken_with(e: ExperimentSpec, instances: InstancesConfig)
    ensures
        e.problem_with(instances) is None <==> runnable(e) && usable(instances) && forall|k: int|
            0 <= k < e.participants@.len() ==> instances.has_id(
                (#[trigger] e.participants@[k]).instance_id@,
            ),
        e.problem() is Some ==> e.problem_with(instances) == e.problem(),
{
    lemma_experiments_that_are_taken(e);
    lemma_instances_that_are_taken(instances);
    lemma_unknown_from(e, instances, 0);
}

impl BenchmarkConfig {
    /// Without a duration the number of operations is that of the experiment. With one it is the
    /// product of duration and rate, and an error where the rate or the product is not a finite
    /// number above zero or the product is above what 64 bits hold.
    pub proof fn lemma_operations_by_duration(
        self,
        target: Real,
        product: Real,
        shown_duration: Seq<char>,
        shown_target: Seq<char>,
    )
        ensures
            ({
                let r = self.operations_spec(target, product, shown_duration, shown_target);
                &&& self.duration_seconds is None ==> r == Ok::<u64, Seq<char>>(self.operations)
                &&& self.duration_seconds is Some ==> (r is Ok <==> target.is_positive_spec()
                    && product.is_positive_spec() && !(Real { bits: 0x43f0_0000_0000_0000 }).lt_spec(
                    product,
                ))
                &&& self.duration_seconds is Some && r is Ok ==> r->Ok_0 == product.to_u64_spec()
            }),
    {
    }
}

/// What is loaded is what was read; what was not read or not understood is told with its path.
pub proof fn lemma_loading_tells_the_path<T>(l: Loaded<T>, path: Seq<char>)
    ensures
        l matches Loaded::Value(v) ==> l.outcome(path) == Ok::<T, Seq<char>>(v),
        l matches Loaded::Unreadable(e) ==> l.outcome(path) == Err::<T, Seq<char>>(
            "failed to read "@ + path + ": "@ + e@,
        ),
        l matches Loaded::Unparsable(e) ==> l.outcome(path) == Err::<T, Seq<char>>(
            "failed to parse "@ + path + ": "@ + e@,
        ),
{
}

/// Putting the settings of an experiment, or the labels of an instance, in order changes nothing else,
/// and the last of several entries with one key counts.
pub proof fn lemma_ordering_keeps_the_rest(
    e: ExperimentSpec,
    given: ExperimentSpec,
    c: InstanceConfig,
    from: InstanceConfig,
    key: Seq<char>,
)
    requires
        e.is_tabled(given),
        c.is_tabled(from),
    ensures
        e.run == given.run && e.benchmark == given.benchmark && e.throughput_sweep
            == given.throughput_sweep && e.coordination == given.coordination && e.lambda_channel
            == given.lambda_channel && e.p2p == given.p2p && e.participants == given.participants,
        environment::lookup_spec(e.env@, key) == table::latest_spec(given.env@, key),
        c.id == from.id && c.rpc_addr == from.rpc_addr && c.p2p_advertise_endpoint
            == from.p2p_advertise_endpoint,
        environment::lookup_spec(c.labels@, key) == table::latest_spec(from.labels@, key),
        e.wf() && c.wf(),
{
}

proof fn lemma_one_more_field(
    l: Seq<Seq<char>>,
    so_far: Seq<char>,
    name: Seq<char>,
    label: Seq<char>,
    value: Seq<char>,
)
    requires
        l.len() > 0,
        text::join_spec(l, ", "@) == so_far,
        label == ", "@ + name,
    ensures
        text::join_spec(l.push(name + value), ", "@) == with_field(so_far, label, value),
        l.push(name + value).len() > 0,
{
    assert(l.push(name + value).drop_last() =~= l);
    assert(so_far + ", "@ + (name + value) =~= so_far + (", "@ + name) + value);
}

/// What is said of an experiment, name by name: each with the value of its own.
pub open spec fn said_of_experiment(experiment: ExperimentSpec, shown: ShownRates) -> Seq<
    Seq<char>,
> {
    seq![
        "run_id="@ + experiment.run.run_id@,
        "workload="@ + experiment.run.workload@,
        "description="@ + experiment.run.description@,
        "output_dir="@ + experiment.run.output_dir@,
        "seed="@ + text::dec(experiment.run.seed as nat),
        "backend="@ + backend_text(experiment.benchmark.backend@),
        "operations="@ + text::dec(experiment.benchmark.operations as nat),
        "duration_seconds="@ + shown_or_none(experiment.benchmark.duration_seconds, shown.duration_seconds@),
        "concurrency="@ + text::dec(experiment.benchmark.concurrency as nat),
        "object_size_bytes="@ + text::dec(experiment.benchmark.object_size_bytes as nat),
        "warmup_operations="@ + text::dec(experiment.benchmark.warmup_operations as nat),
        "offered_rate_per_s="@ + shown_or_none(experiment.benchmark.offered_rate_per_s, shown.offered_rate_per_s@),
        "repetitions="@ + text::dec(experiment.benchmark.repetitions as nat),
        "force_reset_on_start="@ + bool_text(experiment.coordination.force_reset_on_start),
        "participants="@ + text::dec(experiment.participants@.len()),
        "metadata_backend="@ + experiment.lambda_channel.metadata_backend@,
        "channel_id_prefix="@ + experiment.lambda_channel.channel_id_prefix@,
        "consume_mode="@ + experiment.lambda_channel.consume_mode@,
        "native_worker_threads="@ + threads_text(experiment.lambda_channel.native_worker_threads),
        "p2p_tracker_backend="@ + experiment.p2p.tracker_backend@,
        "p2p_cache_root="@ + experiment.p2p.cache_root@,
        "p2p_bind_host="@ + experiment.p2p.chunk_server_bind_host@,
        "p2p_port_base="@ + text::dec(experiment.p2p.chunk_server_port_base as nat),
        "p2p_chunk_server_runtime_worker_threads="@ + text::dec(experiment.p2p.chunk_server_runtime_worker_threads as nat),
        "p2p_enable_accel="@ + bool_text(experiment.p2p.enable_accel),
        "p2p_accel_probability="@ + shown_or_none(experiment.p2p.accel_probability, shown.accel_probability@),
        "p2p_persist_backend="@ + persist_text(experiment.p2p.persist_backend),
        "p2p_non_abortable_task_workers="@ + text::dec(experiment.p2p.non_abortable_task_workers as nat),
        "env_vars="@ + text::dec(experiment.env@.len()),
    ]
}

/// The summary of an experiment is all that is said of it, with commas between.
#[verifier::spinoff_prover]
#[verifier::rlimit(80)]
pub proof fn lemma_experiment_summary(experiment: ExperimentSpec, shown: ShownRates)
    ensures
        experiment_summary_spec(experiment, shown) == text::join_spec(
            said_of_experiment(experiment, shown),
            ", "@,
        ),
{
    assert(", workload="@ =~= ", "@ + "workload="@) by {
        reveal_strlit(", workload=");
        reveal_strlit("workload=");
        reveal_strlit(", ");
    }
    assert(", description="@ =~= ", "@ + "description="@) by {
        reveal_strlit(", description=");
        reveal_strlit("description=");
        reveal_strlit(", ");
    }
    assert(", output_dir="@ =~= ", "@ + "output_dir="@) by {
        reveal_strlit(", output_dir=");
        reveal_strlit("output_dir=");
        reveal_strlit(", ");
    }
    assert(", seed="@ =~= ", "@ + "seed="@) by {
        reveal_strlit(", seed=");
        reveal_strlit("seed=");
        reveal_strlit(", ");
    }
    assert(", backend="@ =~= ", "@ + "backend="@) by {
        reveal_strlit(", backend=");
        reveal_strlit("backend=");
        reveal_strlit(", ");
    }
    assert(", operations="@ =~= ", "@ + "operations="@) by {
        reveal_strlit(", operations=");
        reveal_strlit("operations=");
        reveal_strlit(", ");
    }
    assert(", duration_seconds="@ =~= ", "@ + "duration_seconds="@) by {
        reveal_strlit(", duration_seconds=");
        reveal_strlit("duration_seconds=");
        reveal_strlit(", ");
    }
    assert(", concurrency="@ =~= ", "@ + "concurrency="@) by {
        reveal_strlit(", concurrency=");
        reveal_strlit("concurrency=");
        reveal_strlit(", ");
    }
    assert(", object_size_bytes="@ =~= ", "@ + "object_size_bytes="@) by {
        reveal_strlit(", object_size_bytes=");
        reveal_strlit("object_size_bytes=");
        reveal_strlit(", ");
    }
    assert(", warmup_operations="@ =~= ", "@ + "warmup_operations="@) by {
        reveal_strlit(", warmup_operations=");
        reveal_strlit("warmup_operations=");
        reveal_strlit(", ");
    }
    assert(", offered_rate_per_s="@ =~= ", "@ + "offered_rate_per_s="@) by {
        reveal_strlit(", offered_rate_per_s=");
        reveal_strlit("offered_rate_per_s=");
        reveal_strlit(", ");
    }
    assert(", repetitions="@ =~= ", "@ + "repetitions="@) by {
        reveal_strlit(", repetitions=");
        reveal_strlit("repetitions=");
        reveal_strlit(", ");
    }
    assert(", force_reset_on_start="@ =~= ", "@ + "force_reset_on_start="@) by {
        reveal_strlit(", force_reset_on_start=");
        reveal_strlit("force_reset_on_start=");
        reveal_strlit(", ");
    }
    assert(", participants="@ =~= ", "@ + "participants="@) by {
        reveal_strlit(", participants=");
        reveal_strlit("participants=");
        reveal_strlit(", ");
    }
    assert(", metadata_backend="@ =~= ", "@ + "metadata_backend="@) by {
        reveal_strlit(", metadata_backend=");
        reveal_strlit("metadata_backend=");
        reveal_strlit(", ");
    }
    assert(", channel_id_prefix="@ =~= ", "@ + "channel_id_prefix="@) by {
        reveal_strlit(", channel_id_prefix=");
        reveal_strlit("channel_id_prefix=");
        reveal_strlit(", ");
    }
    assert(", consume_mode="@ =~= ", "@ + "consume_mode="@) by {
        reveal_strlit(", consume_mode=");
        reveal_strlit("consume_mode=");
        reveal_strlit(", ");
    }
    assert(", native_worker_threads="@ =~= ", "@ + "native_worker_threads="@) by {
        reveal_strlit(", native_worker_threads=");
        reveal_strlit("native_worker_threads=");
        reveal_strlit(", ");
    }
    assert(", p2p_tracker_backend="@ =~= ", "@ + "p2p_tracker_backend="@) by {
        reveal_strlit(", p2p_tracker_backend=");
        reveal_strlit("p2p_tracker_backend=");
        reveal_strlit(", ");
    }
    assert(", p2p_cache_root="@ =~= ", "@ + "p2p_cache_root="@) by {
        reveal_strlit(", p2p_cache_root=");
        reveal_strlit("p2p_cache_root=");
        reveal_strlit(", ");
    }
    assert(", p2p_bind_host="@ =~= ", "@ + "p2p_bind_host="@) by {
        reveal_strlit(", p2p_bind_host=");
        reveal_strlit("p2p_bind_host=");
        reveal_strlit(", ");
    }
    assert(", p2p_port_base="@ =~= ", "@ + "p2p_port_base="@) by {
        reveal_strlit(", p2p_port_base=");
        reveal_strlit("p2p_port_base=");
        reveal_strlit(", ");
    }
    assert(", p2p_chunk_server_runtime_worker_threads="@ =~= ", "@ + "p2p_chunk_server_runtime_worker_threads="@) by {
        reveal_strlit(", p2p_chunk_server_runtime_worker_threads=");
        reveal_strlit("p2p_chunk_server_runtime_worker_threads=");
        reveal_strlit(", ");
    }
    assert(", p2p_enable_accel="@ =~= ", "@ + "p2p_enable_accel="@) by {
        reveal_strlit(", p2p_enable_accel=");
        reveal_strlit("p2p_enable_accel=");
        reveal_strlit(", ");
    }
    assert(", p2p_accel_probability="@ =~= ", "@ + "p2p_accel_probability="@) by {
        reveal_strlit(", p2p_accel_probability=");
        reveal_strlit("p2p_accel_probability=");
        reveal_strlit(", ");
    }
    assert(", p2p_persist_backend="@ =~= ", "@ + "p2p_persist_backend="@) by {
        reveal_strlit(", p2p_persist_backend=");
        reveal_strlit("p2p_persist_backend=");
        reveal_strlit(", ");
    }
    assert(", p2p_non_abortable_task_workers="@ =~= ", "@ + "p2p_non_abortable_task_workers="@) by {
        reveal_strlit(", p2p_non_abortable_task_workers=");
        reveal_strlit("p2p_non_abortable_task_workers=");
        reveal_strlit(", ");
    }
    assert(", env_vars="@ =~= ", "@ + "env_vars="@) by {
        reveal_strlit(", env_vars=");
        reveal_strlit("env_vars=");
        reveal_strlit(", ");
    }
    let p0 = "run_id="@ + experiment.run.run_id@;
    let p1 = "workload="@ + experiment.run.workload@;
    let p2 = "description="@ + experiment.run.description@;
    let p3 = "output_dir="@ + experiment.run.output_dir@;
    let p4 = "seed="@ + text::dec(experiment.run.seed as nat);
    let p5 = "backend="@ + backend_text(experiment.benchmark.backend@);
    let p6 = "operations="@ + text::dec(experiment.benchmark.operations as nat);
    let p7 = "duration_seconds="@ + shown_or_none(experiment.benchmark.duration_seconds, shown.duration_seconds@);
    let p8 = "concurrency="@ + text::dec(experiment.benchmark.concurrency as nat);
    let p9 = "object_size_bytes="@ + text::dec(experiment.benchmark.object_size_bytes as nat);
    let p10 = "warmup_operations="@ + text::dec(experiment.benchmark.warmup_operations as nat);
    let p11 = "offered_rate_per_s="@ + shown_or_none(experiment.benchmark.offered_rate_per_s, shown.offered_rate_per_s@);
    let p12 = "repetitions="@ + text::dec(experiment.benchmark.repetitions as nat);
    let p13 = "force_reset_on_start="@ + bool_text(experiment.coordination.force_reset_on_start);
    let p14 = "participants="@ + text::dec(experiment.participants@.len());
    let p15 = "metadata_backend="@ + experiment.lambda_channel.metadata_backend@;
    let p16 = "channel_id_prefix="@ + experiment.lambda_channel.channel_id_prefix@;
    let p17 = "consume_mode="@ + experiment.lambda_channel.consume_mode@;
    let p18 = "native_worker_threads="@ + threads_text(experiment.lambda_channel.native_worker_threads);
    let p19 = "p2p_tracker_backend="@ + experiment.p2p.tracker_backend@;
    let p20 = "p2p_cache_root="@ + experiment.p2p.cache_root@;
    let p21 = "p2p_bind_host="@ + experiment.p2p.chunk_server_bind_host@;
    let p22 = "p2p_port_base="@ + text::dec(experiment.p2p.chunk_server_port_base as nat);
    let p23 = "p2p_chunk_server_runtime_worker_threads="@ + text::dec(experiment.p2p.chunk_server_runtime_worker_threads as nat);
    let p24 = "p2p_enable_accel="@ + bool_text(experiment.p2p.enable_accel);
    let p25 = "p2p_accel_probability="@ + shown_or_none(experiment.p2p.accel_probability, shown.accel_probability@);
    let p26 = "p2p_persist_backend="@ + persist_text(experiment.p2p.persist_backend);
    let p27 = "p2p_non_abortable_task_workers="@ + text::dec(experiment.p2p.non_abortable_task_workers as nat);
    let p28 = "env_vars="@ + text::dec(experiment.env@.len());
    assert(with_field(Seq::<char>::empty(), "run_id="@, experiment.run.run_id@) =~= p0);
    let s0 = p0;
    let l0 = seq![p0];
    assert(text::join_spec(l0, ", "@) == s0);
    lemma_one_more_field(l0, s0, "workload="@, ", workload="@, experiment.run.workload@);
    let l1 = l0.push(p1);
    let s1 = with_field(s0, ", workload="@, experiment.run.workload@);
    lemma_one_more_field(l1, s1, "description="@, ", description="@, experiment.run.description@);
    let l2 = l1.push(p2);
    let s2 = with_field(s1, ", description="@, experiment.run.description@);
    lemma_one_more_field(l2, s2, "output_dir="@, ", output_dir="@, experiment.run.output_dir@);
    let l3 = l2.push(p3);
    let s3 = with_field(s2, ", output_dir="@, experiment.run.output_dir@);
    lemma_one_more_field(l3, s3, "seed="@, ", seed="@, text::dec(experiment.run.seed as nat));
    let l4 = l3.push(p4);
    let s4 = with_field(s3, ", seed="@, text::dec(experiment.run.seed as nat));
    lemma_one_more_field(l4, s4, "backend="@, ", backend="@, backend_text(experiment.benchmark.backend@));
    let l5 = l4.push(p5);
    let s5 = with_field(s4, ", backend="@, backend_text(experiment.benchmark.backend@));
    lemma_one_more_field(l5, s5, "operations="@, ", operations="@, text::dec(experiment.benchmark.operations as nat));
    let l6 = l5.push(p6);
    let s6 = with_field(s5, ", operations="@, text::dec(experiment.benchmark.operations as nat));
    lemma_one_more_field(l6, s6, "duration_seconds="@, ", duration_seconds="@, shown_or_none(experiment.benchmark.duration_seconds, shown.duration_seconds@));
    let l7 = l6.push(p7);
    let s7 = with_field(s6, ", duration_seconds="@, shown_or_none(experiment.benchmark.duration_seconds, shown.duration_seconds@));
    lemma_one_more_field(l7, s7, "concurrency="@, ", concurrency="@, text::dec(experiment.benchmark.concurrency as nat));
    let l8 = l7.push(p8);
    let s8 = with_field(s7, ", concurrency="@, text::dec(experiment.benchmark.concurrency as nat));
    lemma_one_more_field(l8, s8, "object_size_bytes="@, ", object_size_bytes="@, text::dec(experiment.benchmark.object_size_bytes as nat));
    let l9 = l8.push(p9);
    let s9 = with_field(s8, ", object_size_bytes="@, text::dec(experiment.benchmark.object_size_bytes as nat));
    lemma_one_more_field(l9, s9, "warmup_operations="@, ", warmup_operations="@, text::dec(experiment.benchmark.warmup_operations as nat));
    let l10 = l9.push(p10);
    let s10 = with_field(s9, ", warmup_operations="@, text::dec(experiment.benchmark.warmup_operations as nat));
    lemma_one_more_field(l10, s10, "offered_rate_per_s="@, ", offered_rate_per_s="@, shown_or_none(experiment.benchmark.offered_rate_per_s, shown.offered_rate_per_s@));
    let l11 = l10.push(p11);
    let s11 = with_field(s10, ", offered_rate_per_s="@, shown_or_none(experiment.benchmark.offered_rate_per_s, shown.offered_rate_per_s@));
    lemma_one_more_field(l11, s11, "repetitions="@, ", repetitions="@, text::dec(experiment.benchmark.repetitions as nat));
    let l12 = l11.push(p12);
    let s12 = with_field(s11, ", repetitions="@, text::dec(experiment.benchmark.repetitions as nat));
    lemma_one_more_field(l12, s12, "force_reset_on_start="@, ", force_reset_on_start="@, bool_text(experiment.coordination.force_reset_on_start));
    let l13 = l12.push(p13);
    let s13 = with_field(s12, ", force_reset_on_start="@, bool_text(experiment.coordination.force_reset_on_start));
    lemma_one_more_field(l13, s13, "participants="@, ", participants="@, text::dec(experiment.participants@.len()));
    let l14 = l13.push(p14);
    let s14 = with_field(s13, ", participants="@, text::dec(experiment.participants@.len()));
    lemma_one_more_field(l14, s14, "metadata_backend="@, ", metadata_backend="@, experiment.lambda_channel.metadata_backend@);
    let l15 = l14.push(p15);
    let s15 = with_field(s14, ", metadata_backend="@, experiment.lambda_channel.metadata_backend@);
    lemma_one_more_field(l15, s15, "channel_id_prefix="@, ", channel_id_prefix="@, experiment.lambda_channel.channel_id_prefix@);
    let l16 = l15.push(p16);
    let s16 = with_field(s15, ", channel_id_prefix="@, experiment.lambda_channel.channel_id_prefix@);
    lemma_one_more_field(l16, s16, "consume_mode="@, ", consume_mode="@, experiment.lambda_channel.consume_mode@);
    let l17 = l16.push(p17);
    let s17 = with_field(s16, ", consume_mode="@, experiment.lambda_channel.consume_mode@);
    lemma_one_more_field(l17, s17, "native_worker_threads="@, ", native_worker_threads="@, threads_text(experiment.lambda_channel.native_worker_threads));
    let l18 = l17.push(p18);
    let s18 = with_field(s17, ", native_worker_threads="@, threads_text(experiment.lambda_channel.native_worker_threads));
    lemma_one_more_field(l18, s18, "p2p_tracker_backend="@, ", p2p_tracker_backend="@, experiment.p2p.tracker_backend@);
    let l19 = l18.push(p19);
    let s19 = with_field(s18, ", p2p_tracker_backend="@, experiment.p2p.tracker_backend@);
    lemma_one_more_field(l19, s19, "p2p_cache_root="@, ", p2p_cache_root="@, experiment.p2p.cache_root@);
    let l20 = l19.push(p20);
    let s20 = with_field(s19, ", p2p_cache_root="@, experiment.p2p.cache_root@);
    lemma_one_more_field(l20, s20, "p2p_bind_host="@, ", p2p_bind_host="@, experiment.p2p.chunk_server_bind_host@);
    let l21 = l20.push(p21);
    let s21 = with_field(s20, ", p2p_bind_host="@, experiment.p2p.chunk_server_bind_host@);
    lemma_one_more_field(l21, s21, "p2p_port_base="@, ", p2p_port_base="@, text::dec(experiment.p2p.chunk_server_port_base as nat));
    let l22 = l21.push(p22);
    let s22 = with_field(s21, ", p2p_port_base="@, text::dec(experiment.p2p.chunk_server_port_base as nat));
    lemma_one_more_field(l22, s22, "p2p_chunk_server_runtime_worker_threads="@, ", p2p_chunk_server_runtime_worker_threads="@, text::dec(experiment.p2p.chunk_server_runtime_worker_threads as nat));
    let l23 = l22.push(p23);
    let s23 = with_field(s22, ", p2p_chunk_server_runtime_worker_threads="@, text::dec(experiment.p2p.chunk_server_runtime_worker_threads as nat));
    lemma_one_more_field(l23, s23, "p2p_enable_accel="@, ", p2p_enable_accel="@, bool_text(experiment.p2p.enable_accel));
    let l24 = l23.push(p24);
    let s24 = with_field(s23, ", p2p_enable_accel="@, bool_text(experiment.p2p.enable_accel));
    lemma_one_more_field(l24, s24, "p2p_accel_probability="@, ", p2p_accel_probability="@, shown_or_none(experiment.p2p.accel_probability, shown.accel_probability@));
    let l25 = l24.push(p25);
    let s25 = with_field(s24, ", p2p_accel_probability="@, shown_or_none(experiment.p2p.accel_probability, shown.accel_probability@));
    lemma_one_more_field(l25, s25, "p2p_persist_backend="@, ", p2p_persist_backend="@, persist_text(experiment.p2p.persist_backend));
    let l26 = l25.push(p26);
    let s26 = with_field(s25, ", p2p_persist_backend="@, persist_text(experiment.p2p.persist_backend));
    lemma_one_more_field(l26, s26, "p2p_non_abortable_task_workers="@, ", p2p_non_abortable_task_workers="@, text::dec(experiment.p2p.non_abortable_task_workers as nat));
    let l27 = l26.push(p27);
    let s27 = with_field(s26, ", p2p_non_abortable_task_workers="@, text::dec(experiment.p2p.non_abortable_task_workers as nat));
    lemma_one_more_field(l27, s27, "env_vars="@, ", env_vars="@, text::dec(experiment.env@.len()));
    let l28 = l27.push(p28);
    let s28 = with_field(s27, ", env_vars="@, text::dec(experiment.env@.len()));
    assert(said_of_experiment(experiment, shown) =~= l28);
}

/// The summary of the instances names their registry and counts them.
pub proof fn lemma_instances_summary(instances: InstancesConfig)
    ensures
        instances_summary_spec(instances) == "registry="@ + instances.registry.name@
            + ", registry_description="@ + instances.registry.description@ + ", instances="@
            + text::dec(instances.instances@.len()),
{
    assert(Seq::<char>::empty() + "registry="@ =~= "registry="@);
}

/// How values are shown: a yes or no by its word, a blank backend and a rate that is not there as
/// `none`, and a number of threads that is not there as `default`.
pub proof fn lemma_values_are_shown(
    b: bool,
    value: Option<Real>,
    shown: Seq<char>,
    backend: Seq<char>,
    threads: Option<usize>,
    persist: Option<String>,
)
    ensures
        b ==> bool_text(b) == "true"@,
        !b ==> bool_text(b) == "false"@,
        value is Some ==> shown_or_none(value, shown) == shown,
        value is None ==> shown_or_none(value, shown) == "none"@,
        text::trim_spec(backend).len() > 0 ==> backend_text(backend) == backend,
        text::trim_spec(backend).len() == 0 ==> backend_text(backend) == "none"@,
        threads is Some ==> threads_text(threads) == text::dec(threads->0 as nat),
        threads is None ==> threads_text(threads) == "default"@,
        persist is Some ==> persist_text(persist) == persist->0@,
        persist is None ==> persist_text(persist) == "none"@,
{
}

impl InstanceConfig {
    /// Where just one thing is wrong with an instance, it is told.
    pub proof fn lemma_instance_problems(self)
        ensures
            ({
                let a = text::is_blank_spec(self.rpc_addr@);
                let b = text::is_blank_spec(self.p2p_advertise_endpoint@);
                &&& a && !b ==> self.problem() == Some("instance "@ + self.id@ + " has empty rpc_addr"@)
                &&& b && !a ==> self.problem() == Some("instance "@ + self.id@ + " has empty p2p_advertise_endpoint"@)
            }),
    {
    }
}

impl ThroughputSweepConfig {
    /// Where just one thing is wrong with the settings of a sweep, it is told.
    pub proof fn lemma_sweep_problems(self)
        ensures
            ({
                let a = some_not_positive(self.start_ops_per_s);
                let b = some_not_above_one(self.step_multiplier);
                let c = some_not_positive(self.max_ops_per_s);
                let d = self.max_points == Some(0usize);
                let e = some_no_ratio(self.saturation_achieved_ratio);
                &&& a && !b && !c && !d && !e ==> self.problem() == Some("throughput_sweep.start_ops_per_s must be a finite positive number"@)
                &&& b && !a && !c && !d && !e ==> self.problem() == Some("throughput_sweep.step_multiplier must be a finite number greater than 1"@)
                &&& c && !a && !b && !d && !e ==> self.problem() == Some("throughput_sweep.max_ops_per_s must be a finite positive number"@)
                &&& d && !a && !b && !c && !e ==> self.problem() == Some("throughput_sweep.max_points must be greater than zero"@)
                &&& e && !a && !b && !c && !d ==> self.problem() == Some("throughput_sweep.saturation_achieved_ratio must be in the range (0, 1]"@)
            }),
    {
    }
}

/// What can be wrong with an experiment, each with what is told of it.
pub open spec fn experiment_faults(e: ExperimentSpec) -> Seq<(bool, Seq<char>)> {
    seq![
        (text::is_blank_spec(e.run.run_id@), "experiment run.run_id must not be empty"@),
        (text::is_blank_spec(e.run.workload@), "experiment run.workload must not be empty"@),
        (e.benchmark.operations == 0, "benchmark.operations must be greater than zero"@),
        (e.benchmark.concurrency == 0, "benchmark.concurrency must be greater than zero"@),
        (e.benchmark.repetitions == 0, "benchmark.repetitions must be greater than zero"@),
        (some_not_positive(e.benchmark.duration_seconds), "benchmark.duration_seconds must be a finite positive number"@),
        (some_at_most_zero(e.benchmark.offered_rate_per_s), "benchmark.offered_rate_per_s must be greater than zero"@),
        (e.throughput_sweep.problem() is Some, e.throughput_sweep.problem()->0),
        (e.coordination.rpc_timeout_ms == 0, "coordination.rpc_timeout_ms must be greater than zero"@),
        (e.coordination.barrier_timeout_ms == 0, "coordination.barrier_timeout_ms must be greater than zero"@),
        (e.coordination.cleanup_timeout_ms == 0, "coordination.cleanup_timeout_ms must be greater than zero"@),
        (text::is_blank_spec(e.lambda_channel.metadata_backend@), "lambda_channel.metadata_backend must not be empty"@),
        (text::is_blank_spec(e.lambda_channel.channel_id_prefix@), "lambda_channel.channel_id_prefix must not be empty"@),
        (text::is_blank_spec(e.lambda_channel.consume_mode@), "lambda_channel.consume_mode must not be empty"@),
        (text::is_blank_spec(e.p2p.tracker_backend@), "p2p.tracker_backend must not be empty"@),
        (text::is_blank_spec(e.p2p.chunk_server_bind_host@), "p2p.chunk_server_bind_host must not be empty"@),
        (e.p2p.chunk_server_runtime_worker_threads == 0, "p2p.chunk_server_runtime_worker_threads must be greater than zero"@),
        (e.p2p.non_abortable_task_workers == 0, "p2p.non_abortable_task_workers must be greater than zero"@),
        (some_outside_unit(e.p2p.accel_probability), "p2p.accel_probability must be between 0 and 1"@),
        (e.has_blank_participant(), "participant instance_id must not be empty"@),
    ]
}

/// Whether just one of several things is wrong, the one at `k`.
pub open spec fn only_fault(faults: Seq<(bool, Seq<char>)>, k: int) -> bool {
    &&& 0 <= k < faults.len()
    &&& faults[k].0
    &&& forall|j: int| 0 <= j < faults.len() && j != k ==> !(#[trigger] faults[j]).0
}

/// Where just one thing is wrong with an experiment, it is told.
#[verifier::rlimit(50)]
pub proof fn lemma_experiment_problems(e: ExperimentSpec, k: int)
    requires
        only_fault(experiment_faults(e), k),
    ensures
        e.problem() == Some(experiment_faults(e)[k].1),
{
    let f = experiment_faults(e);
    assert forall|j: int| 0 <= j < f.len() && j != k implies !(#[trigger] f[j]).0 by {}
    assert(k != 0 ==> !f[0].0);
    assert(k != 1 ==> !f[1].0);
    assert(k != 2 ==> !f[2].0);
    assert(k != 3 ==> !f[3].0);
    assert(k != 4 ==> !f[4].0);
    assert(k != 5 ==> !f[5].0);
    assert(k != 6 ==> !f[6].0);
    assert(k != 7 ==> !f[7].0);
    assert(k != 8 ==> !f[8].0);
    assert(k != 9 ==> !f[9].0);
    assert(k != 10 ==> !f[10].0);
    assert(k != 11 ==> !f[11].0);
    assert(k != 12 ==> !f[12].0);
    assert(k != 13 ==> !f[13].0);
    assert(k != 14 ==> !f[14].0);
    assert(k != 15 ==> !f[15].0);
    assert(k != 16 ==> !f[16].0);
    assert(k != 17 ==> !f[17].0);
    assert(k != 18 ==> !f[18].0);
    assert(k != 19 ==> !f[19].0);
}

impl InstancesConfig {
    /// What is wrong with an instance of a list is told: a blank id, an id that another before it has,
    /// or what is wrong with the instance itself.
    pub proof fn lemma_problems_of_a_list(self, i: int)
        requires
            0 <= i < self.instances@.len(),
        ensures
            self.instances@.len() > 0,
            text::trim_spec(self.instances@[i].id@).len() == 0 ==> self.problem_at(i) == Some(
                "instance id must not be empty"@,
            ),
            text::trim_spec(self.instances@[i].id@).len() > 0 && (exists|j: int|
                0 <= j < i && (#[trigger] self.instances@[j]).id@ == self.instances@[i].id@)
                ==> self.problem_at(i) == Some("duplicate instance id: "@ + self.instances@[i].id@),
            text::trim_spec(self.instances@[i].id@).len() > 0 && !(exists|j: int|
                0 <= j < i && (#[trigger] self.instances@[j]).id@ == self.instances@[i].id@)
                ==> self.problem_at(i) == self.instances@[i].problem(),
    {
    }

    /// An id that is on the list is found at its first place, and what is found bears it.
    pub proof fn lemma_instances_are_found(self, id: Seq<char>, i: int, k: int)
        requires
            0 <= k < self.instances@.len(),
            self.instances@[k].id@ == id,
        ensures
            self.has_id(id),
            exists|j: int| self.first_with_id(id, j),
            self.first_with_id(id, i) ==> 0 <= i <= k && self.instances@[i].id@ == id,
            self.first_with_id(id, i) && self.first_with_id(id, k) ==> i == k,
        decreases k,
    {
        if exists|j: int| 0 <= j < k && (#[trigger] self.instances@[j]).id@ == id {
            let j = choose|j: int| 0 <= j < k && (#[trigger] self.instances@[j]).id@ == id;
            self.lemma_instances_are_found(id, i, j);
        } else {
            assert(self.first_with_id(id, k));
        }
    }
}

/// A list without instances is told as such, and one who takes part without being on the list by the
/// id.
pub proof fn lemma_lists_that_are_refused(e: ExperimentSpec, instances: InstancesConfig, i: int)
    ensures
        instances.instances@.len() == 0 ==> instances.problem() == Some(
            "instances list must contain at least one instance"@,
        ),
        0 <= i < e.participants@.len() && !instances.has_id(e.participants@[i].instance_id@)
            ==> e.unknown_participant_from(instances, i) == Some(
            "participant references unknown instance id: "@ + e.participants@[i].instance_id@,
        ),
{
}

} // verus!
