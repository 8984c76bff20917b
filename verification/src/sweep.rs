//! Throughput sweeps: which target rates are measured, and when a sweep stops.
use crate::binary64::{Real, TWO_POW_64};
use crate::config;
use crate::config::ExperimentSpec;
use crate::paced::PacedTaskRunReport;
use vstd::prelude::*;

verus! {

/// 0.5
pub const HALF: u64 = 0x3fe0_0000_0000_0000;

/// 2.0
pub const TWO: u64 = 0x4000_0000_0000_0000;

/// 100.0
pub const HUNDRED: u64 = 0x4059_0000_0000_0000;

/// 1000000.0
pub const MILLION: u64 = 0x412e_8480_0000_0000;

/// 4294967295.0
pub const U32_MAX: u64 = 0x41ef_ffff_ffe0_0000;

#[derive(Clone, Copy, Debug, PartialEq, Eq, Structural)]
pub struct ThroughputSweepPolicy {
    pub start_ops_per_s: Real,
    pub step_multiplier: Real,
    pub max_ops_per_s: Real,
    pub max_points: usize,
    pub saturation_achieved_ratio: Real,
    pub stop_on_failure: bool,
}

#[derive(Clone, Copy, Debug, PartialEq, Eq, Structural)]
pub enum SweepStopReason {
    Saturated,
    FailedTasks,
    MaxPoints,
    MaxOpsPerS,
}

#[derive(Clone, Copy, Debug, PartialEq, Eq, Structural)]
pub enum SweepDecision {
    Continue { next_ops_per_s: Real },
    Stop { reason: SweepStopReason },
}

/// What a finished point says about the next one: the target rate it ran at, the successful rate
/// divided by the target, the target times the step multiplier, and the failures.
#[derive(Clone, Copy, Debug, PartialEq, Eq, Structural)]
pub struct PointMetrics {
    pub target_ops_per_s: Real,
    pub successful_ratio: Real,
    pub next_ops_per_s: Real,
    pub failed_tasks: usize,
}

pub open spec fn real_or(value: Option<Real>, fallback: Real) -> Real {
    match value {
        Some(x) => x,
        None => fallback,
    }
}

fn or_real(value: Option<Real>, fallback: Real) -> (r: Real)
    ensures
        r == real_or(value, fallback),
{
    match value {
        Some(x) => x,
        None => fallback,
    }
}

impl ThroughputSweepPolicy {
    pub open spec fn paper_default_spec(start: Option<Real>) -> ThroughputSweepPolicy {
        ThroughputSweepPolicy {
            start_ops_per_s: real_or(start, (Real { bits: HUNDRED })),
            step_multiplier: Real { bits: TWO },
            max_ops_per_s: Real { bits: MILLION },
            max_points: 12,
            saturation_achieved_ratio: Real { bits: HALF },
            stop_on_failure: false,
        }
    }

    pub fn paper_default(start_ops_per_s: Option<Real>) -> (r: ThroughputSweepPolicy)
        ensures
            r == ThroughputSweepPolicy::paper_default_spec(start_ops_per_s),
    {
        ThroughputSweepPolicy {
            start_ops_per_s: or_real(start_ops_per_s, Real { bits: HUNDRED }),
            step_multiplier: Real { bits: TWO },
            max_ops_per_s: Real { bits: MILLION },
            max_points: 12,
            saturation_achieved_ratio: Real { bits: HALF },
            stop_on_failure: false,
        }
    }

    /// The first rule that the policy breaks.
    pub open spec fn problem(self) -> Option<Seq<char>> {
        if !self.start_ops_per_s.is_positive_spec() {
            Some("throughput sweep start_ops_per_s must be a finite positive number"@)
        } else if !config::above_one(self.step_multiplier) {
            Some("throughput sweep step_multiplier must be a finite number greater than 1"@)
        } else if !self.max_ops_per_s.is_positive_spec() {
            Some("throughput sweep max_ops_per_s must be a finite positive number"@)
        } else if self.max_points == 0 {
            Some("throughput sweep max_points must be greater than zero"@)
        } else if !config::is_ratio(self.saturation_achieved_ratio) {
            Some("throughput sweep saturation_achieved_ratio must be in the range (0, 1]"@)
        } else {
            None
        }
    }

    pub fn validate(&self) -> (r: Result<(), String>)
        ensures
            config::verdict(r) == self.problem(),
    {
        if !self.start_ops_per_s.is_positive() {
            return Err(
                "throughput sweep start_ops_per_s must be a finite positive number".to_owned(),
            );
        }
        if !config::is_above_one(self.step_multiplier) {
            return Err(
                "throughput sweep step_multiplier must be a finite number greater than 1".to_owned(),
            );
        }
        if !self.max_ops_per_s.is_positive() {
            return Err(
                "throughput sweep max_ops_per_s must be a finite positive number".to_owned(),
            );
        }
        if self.max_points == 0 {
            return Err("throughput sweep max_points must be greater than zero".to_owned());
        }
        if !config::is_a_ratio(self.saturation_achieved_ratio) {
            return Err(
                "throughput sweep saturation_achieved_ratio must be in the range (0, 1]".to_owned(),
            );
        }
        Ok(())
    }

    /// The decision after `completed_points` points, the last of which measured `m`.
    pub open spec fn decision(self, completed_points: nat, m: PointMetrics) -> SweepDecision {
        if self.stop_on_failure && m.failed_tasks > 0 {
            SweepDecision::Stop { reason: SweepStopReason::FailedTasks }
        } else if m.target_ops_per_s.le_spec(Real::zero_spec()) || m.successful_ratio.lt_spec(
            self.saturation_achieved_ratio,
        ) {
            SweepDecision::Stop { reason: SweepStopReason::Saturated }
        } else if completed_points >= self.max_points {
            SweepDecision::Stop { reason: SweepStopReason::MaxPoints }
        } else if self.max_ops_per_s.lt_spec(m.next_ops_per_s) {
            SweepDecision::Stop { reason: SweepStopReason::MaxOpsPerS }
        } else {
            SweepDecision::Continue { next_ops_per_s: m.next_ops_per_s }
        }
    }

    pub fn decide_after_metrics(&self, completed_points: usize, m: PointMetrics) -> (r:
        SweepDecision)
        ensures
            r == self.decision(completed_points as nat, m),
    {
        if self.stop_on_failure && m.failed_tasks > 0 {
            return SweepDecision::Stop { reason: SweepStopReason::FailedTasks };
        }
        if m.target_ops_per_s.le(Real::zero()) || m.successful_ratio.lt(
            self.saturation_achieved_ratio,
        ) {
            return SweepDecision::Stop { reason: SweepStopReason::Saturated };
        }
        if completed_points >= self.max_points {
            return SweepDecision::Stop { reason: SweepStopReason::MaxPoints };
        }
        if self.max_ops_per_s.lt(m.next_ops_per_s) {
            return SweepDecision::Stop { reason: SweepStopReason::MaxOpsPerS };
        }
        SweepDecision::Continue { next_ops_per_s: m.next_ops_per_s }
    }

    /// The decision after a run whose successful rate is `successful_ratio` of its target, and whose
    /// target times the step multiplier is `next_ops_per_s`.
    pub fn decide_after(
        &self,
        completed_points: usize,
        report: &PacedTaskRunReport,
        successful_ratio: Real,
        next_ops_per_s: Real,
    ) -> (r: SweepDecision)
        ensures
            r == self.decision(
                completed_points as nat,
                (PointMetrics {
                    target_ops_per_s: report.target_ops_per_s,
                    successful_ratio,
                    next_ops_per_s,
                    failed_tasks: report.failed_tasks,
                }),
            ),
    {
        self.decide_after_metrics(
            completed_points,
            PointMetrics {
                target_ops_per_s: report.target_ops_per_s,
                successful_ratio,
                next_ops_per_s,
                failed_tasks: report.failed_tasks,
            },
        )
    }

    /// A sweep goes on only below its number of points and to a rate not above its limit.
    pub proof fn lemma_continue_is_bounded(self, completed_points: nat, m: PointMetrics)
        requires
            self.decision(completed_points, m) is Continue,
        ensures
            completed_points < self.max_points,
            self.decision(completed_points, m)->next_ops_per_s == m.next_ops_per_s,
            !self.max_ops_per_s.lt_spec(m.next_ops_per_s),
            !m.successful_ratio.lt_spec(self.saturation_achieved_ratio),
    {
    }

    /// Failed tasks alone never stop a sweep that does not ask for it.
    pub proof fn lemma_failures_are_ignored_by_default(
        self,
        completed_points: nat,
        m: PointMetrics,
        other_failures: usize,
    )
        requires
            !self.stop_on_failure,
        ensures
            self.decision(completed_points, m) == self.decision(
                completed_points,
                PointMetrics { failed_tasks: other_failures, ..m },
            ),
    {
    }

    /// A successful rate below the saturation ratio of the target stops every sweep.
    pub proof fn lemma_saturation_stops(self, completed_points: nat, m: PointMetrics)
        requires
            m.successful_ratio.lt_spec(self.saturation_achieved_ratio),
        ensures
            self.decision(completed_points, m) is Stop,
    {
    }

    /// The points that a sweep runs when point `k` measures `ms[k]`: all up to the first after
    /// which it stops.
    pub open spec fn points_run(self, ms: Seq<PointMetrics>, done: nat) -> nat
        decreases ms.len() - done,
    {
        if done >= ms.len() {
            done
        } else if self.decision(done + 1, ms[done as int]) is Continue {
            self.points_run(ms, done + 1)
        } else {
            done + 1
        }
    }

    /// Whatever the points measure, a sweep runs at most `max_points` of them.
    pub proof fn lemma_points_bounded(self, ms: Seq<PointMetrics>, done: nat)
        requires
            done < self.max_points,
        ensures
            self.points_run(ms, done) <= self.max_points,
        decreases ms.len() - done,
    {
        if done < ms.len() && self.decision(done + 1, ms[done as int]) is Continue {
            self.lemma_points_bounded(ms, done + 1);
        }
    }
}

/// The policy that an experiment asks for: the defaults, each replaced where the experiment sets it.
pub open spec fn policy_of(experiment: ExperimentSpec) -> ThroughputSweepPolicy {
    let base = ThroughputSweepPolicy::paper_default_spec(experiment.benchmark.offered_rate_per_s);
    let sweep = experiment.throughput_sweep;
    ThroughputSweepPolicy {
        start_ops_per_s: real_or(sweep.start_ops_per_s, base.start_ops_per_s),
        step_multiplier: real_or(sweep.step_multiplier, base.step_multiplier),
        max_ops_per_s: real_or(sweep.max_ops_per_s, base.max_ops_per_s),
        max_points: if sweep.max_points is Some {
            sweep.max_points->0
        } else {
            base.max_points
        },
        saturation_achieved_ratio: real_or(
            sweep.saturation_achieved_ratio,
            base.saturation_achieved_ratio,
        ),
        stop_on_failure: if sweep.stop_on_failure is Some {
            sweep.stop_on_failure->0
        } else {
            base.stop_on_failure
        },
    }
}

pub fn sweep_policy(experiment: &ExperimentSpec) -> (r: Result<ThroughputSweepPolicy, String>)
    ensures
        match r {
            Ok(policy) => policy == policy_of(*experiment) && policy.problem() is None,
            Err(e) => policy_of(*experiment).problem() == Some(e@),
        },
{
    let mut policy = ThroughputSweepPolicy::paper_default(experiment.benchmark.offered_rate_per_s);
    let sweep = &experiment.throughput_sweep;
    policy.start_ops_per_s = or_real(sweep.start_ops_per_s, policy.start_ops_per_s);
    policy.step_multiplier = or_real(sweep.step_multiplier, policy.step_multiplier);
    policy.max_ops_per_s = or_real(sweep.max_ops_per_s, policy.max_ops_per_s);
    if let Some(value) = sweep.max_points {
        policy.max_points = value;
    }
    policy.saturation_achieved_ratio =
    or_real(sweep.saturation_achieved_ratio, policy.saturation_achieved_ratio);
    if let Some(value) = sweep.stop_on_failure {
        policy.stop_on_failure = value;
    }
    match policy.validate() {
        Ok(_) => Ok(policy),
        Err(e) => Err(e),
    }
}

// ---------------------------------------------------------------------------------------------
// Target rates
// ---------------------------------------------------------------------------------------------
/// The longest prefix of `ladder`, of at most `max_points` rates, without a rate above the limit.
pub open spec fn ladder_prefix(
    ladder: Seq<Real>,
    policy: ThroughputSweepPolicy,
    n: nat,
) -> Seq<Real>
    decreases ladder.len() - n,
{
    if n >= ladder.len() || n >= policy.max_points || policy.max_ops_per_s.lt_spec(
        ladder[n as int],
    ) {
        ladder.take(n as int)
    } else {
        ladder_prefix(ladder, policy, n + 1)
    }
}

/// The rates to measure. `ladder` holds the successive rates from the policy's start, each the
/// one before times the step multiplier. The listed points go first, then the offered rate.
pub open spec fn target_rates_spec(
    experiment: ExperimentSpec,
    policy: ThroughputSweepPolicy,
    ladder: Seq<Real>,
) -> Seq<Real> {
    if experiment.throughput_sweep.points_ops_per_s@.len() > 0 {
        experiment.throughput_sweep.points_ops_per_s@
    } else if experiment.benchmark.offered_rate_per_s is Some {
        seq![experiment.benchmark.offered_rate_per_s->0]
    } else {
        ladder_prefix(ladder, policy, 0)
    }
}

fn copy_rates(rates: &Vec<Real>, n: usize) -> (r: Vec<Real>)
    requires
        n <= rates@.len(),
    ensures
        r@ == rates@.take(n as int),
{
    let mut out: Vec<Real> = Vec::new();
    let mut i: usize = 0;
    while i < n
        invariant
            i <= n <= rates@.len(),
            out@ == rates@.take(i as int),
        decreases n - i,
    {
        out.push(rates[i]);
        assert(rates@.take(i + 1) =~= rates@.take(i as int).push(rates@[i as int]));
        i = i + 1;
    }
    out
}

/// The rates to measure; `none_message` is the error where there is none.
pub fn target_rates(
    experiment: &ExperimentSpec,
    policy: &ThroughputSweepPolicy,
    ladder: &Vec<Real>,
    none_message: &str,
) -> (r: Result<Vec<Real>, String>)
    ensures
        match r {
            Ok(rates) => rates@ == target_rates_spec(*experiment, *policy, ladder@) && rates@.len()
                > 0,
            Err(e) => target_rates_spec(*experiment, *policy, ladder@).len() == 0 && e@
                == none_message@,
        },
{
    let points = &experiment.throughput_sweep.points_ops_per_s;
    if points.len() > 0 {
        assert(points@.take(points@.len() as int) =~= points@);
        return Ok(copy_rates(points, points.len()));
    }
    if let Some(rate) = experiment.benchmark.offered_rate_per_s {
        let mut one: Vec<Real> = Vec::new();
        one.push(rate);
        assert(one@ =~= seq![rate]);
        return Ok(one);
    }
    let mut n: usize = 0;
    while n < ladder.len() && n < policy.max_points && !policy.max_ops_per_s.lt(ladder[n])
        invariant
            n <= ladder@.len(),
            ladder_prefix(ladder@, *policy, n as nat) == ladder_prefix(ladder@, *policy, 0),
        decreases ladder.len() - n,
    {
        n = n + 1;
    }
    if n == 0 {
        Err(none_message.to_owned())
    } else {
        Ok(copy_rates(ladder, n))
    }
}

/// No rate of a ladder that is measured lies above the policy's limit.
pub proof fn lemma_ladder_within_limit(ladder: Seq<Real>, policy: ThroughputSweepPolicy, n: nat)
    requires
        n <= ladder.len(),
        n <= policy.max_points,
        forall|i: int| 0 <= i < n ==> !policy.max_ops_per_s.lt_spec(#[trigger] ladder[i]),
    ensures
        ladder_prefix(ladder, policy, n).len() <= policy.max_points,
        forall|i: int|
            0 <= i < ladder_prefix(ladder, policy, n).len() ==> !policy.max_ops_per_s.lt_spec(
                #[trigger] ladder_prefix(ladder, policy, n)[i],
            ),
    decreases ladder.len() - n,
{
    if !(n >= ladder.len() || n >= policy.max_points || policy.max_ops_per_s.lt_spec(
        ladder[n as int],
    )) {
        lemma_ladder_within_limit(ladder, policy, n + 1);
    }
}

/// The largest `usize` as a binary64 value.
pub open spec fn usize_limit() -> Real {
    if usize::MAX == u64::MAX {
        Real { bits: TWO_POW_64 }
    } else {
        Real { bits: U32_MAX }
    }
}

/// The larger of two values, where what is not a number gives way.
pub open spec fn larger(a: Real, b: Real) -> Real {
    if a.is_nan_spec() || a.lt_spec(b) {
        b
    } else {
        a
    }
}

/// The smaller of two values, where what is not a number gives way.
pub open spec fn smaller(a: Real, b: Real) -> Real {
    if a.is_nan_spec() || b.lt_spec(a) {
        b
    } else {
        a
    }
}

pub(crate) fn max_real(a: Real, b: Real) -> (r: Real)
    ensures
        r == larger(a, b),
{
    if a.is_nan() || a.lt(b) {
        b
    } else {
        a
    }
}

pub(crate) fn min_real(a: Real, b: Real) -> (r: Real)
    ensures
        r == smaller(a, b),
{
    if a.is_nan() || b.lt(a) {
        b
    } else {
        a
    }
}

pub open spec fn to_usize_spec(x: Real) -> usize {
    if x.to_u64_spec() > usize::MAX {
        usize::MAX
    } else {
        x.to_u64_spec() as usize
    }
}

fn to_usize(x: Real) -> (r: usize)
    ensures
        r == to_usize_spec(x),
{
    let n: u64 = x.to_u64();
    if n > usize::MAX as u64 {
        usize::MAX
    } else {
        n as usize
    }
}

/// How many operations fit a rate, where `product` is the rounded-up product of the rate and the
/// duration: at least one.
pub open spec fn operations_for_rate_spec(rate: Real, product: Real) -> Result<usize, Seq<char>> {
    if !rate.is_positive_spec() {
        Err("target rate must be a finite positive number"@)
    } else if usize_limit().lt_spec(larger(product, Real::one_spec())) {
        Err("rate * duration is too large for this platform"@)
    } else {
        Ok(to_usize_spec(larger(product, Real::one_spec())))
    }
}

fn usize_limit_real() -> (r: Real)
    ensures
        r == usize_limit(),
{
    if usize::MAX as u64 == u64::MAX {
        Real { bits: TWO_POW_64 }
    } else {
        Real { bits: U32_MAX }
    }
}

pub fn operations_for_rate(rate: Real, product: Real) -> (r: Result<usize, String>)
    ensures
        match r {
            Ok(n) => operations_for_rate_spec(rate, product) == Ok::<usize, Seq<char>>(n),
            Err(e) => operations_for_rate_spec(rate, product) == Err::<usize, Seq<char>>(e@),
        },
{
    if !rate.is_positive() {
        return Err("target rate must be a finite positive number".to_owned());
    }
    let operations = max_real(product, Real::one());
    if usize_limit_real().lt(operations) {
        return Err("rate * duration is too large for this platform".to_owned());
    }
    Ok(to_usize(operations))
}

/// How many elements a sender pushes at a rate: the rounded-up product of rate and duration, kept
/// between the bounds `low` and `high`.
pub open spec fn elements_for_rate_spec(rate: Real, product: Real, low: Real, high: Real) -> Result<
    usize,
    Seq<char>,
> {
    let n = smaller(larger(product, low), high);
    if !rate.is_positive_spec() {
        Err("target sender rate must be a finite positive number"@)
    } else if usize_limit().lt_spec(n) {
        Err("rate * duration is too large for this platform"@)
    } else {
        Ok(to_usize_spec(n))
    }
}

pub fn elements_for_rate(rate: Real, product: Real, low: Real, high: Real) -> (r: Result<
    usize,
    String,
>)
    ensures
        match r {
            Ok(n) => elements_for_rate_spec(rate, product, low, high) == Ok::<usize, Seq<char>>(n),
            Err(e) => elements_for_rate_spec(rate, product, low, high) == Err::<usize, Seq<char>>(
                e@,
            ),
        },
{
    if !rate.is_positive() {
        return Err("target sender rate must be a finite positive number".to_owned());
    }
    let operations = min_real(max_real(product, low), high);
    if usize_limit_real().lt(operations) {
        return Err("rate * duration is too large for this platform".to_owned());
    }
    Ok(to_usize(operations))
}

// ---------------------------------------------------------------------------------------------
// Running a sweep
// ---------------------------------------------------------------------------------------------
/// What a sweep does next.
#[derive(Clone, Copy, Debug, PartialEq, Eq, Structural)]
pub enum SweepAction {
    RunPoint { index: usize, ops_per_s: Real },
    Finish { reason: SweepStopReason },
}

/// After a point of a sweep whose rates follow from the decisions: run the next, or finish.
pub open spec fn step_of(decision: SweepDecision, completed_points: usize) -> SweepAction {
    match decision {
        SweepDecision::Continue { next_ops_per_s } => SweepAction::RunPoint {
            index: completed_points,
            ops_per_s: next_ops_per_s,
        },
        SweepDecision::Stop { reason } => SweepAction::Finish { reason },
    }
}

/// The next action of a sweep that starts at the policy's rate and climbs by its decisions.
pub fn next_climbing(policy: &ThroughputSweepPolicy, completed_points: usize, m: PointMetrics) -> (r:
    SweepAction)
    ensures
        r == step_of(policy.decision(completed_points as nat, m), completed_points),
{
    match policy.decide_after_metrics(completed_points, m) {
        SweepDecision::Continue { next_ops_per_s } => SweepAction::RunPoint {
            index: completed_points,
            ops_per_s: next_ops_per_s,
        },
        SweepDecision::Stop { reason } => SweepAction::Finish { reason },
    }
}

/// After `completed` listed rates: the listed rate decides what runs next, and running out of
/// rates counts as having run all points. `forced` stops the sweep as saturated before the policy
/// is asked.
pub open spec fn listed_step(
    policy: ThroughputSweepPolicy,
    rates: Seq<Real>,
    completed: usize,
    m: PointMetrics,
    forced: bool,
) -> SweepAction {
    if forced {
        SweepAction::Finish { reason: SweepStopReason::Saturated }
    } else if policy.decision(completed as nat, m) is Stop {
        SweepAction::Finish { reason: policy.decision(completed as nat, m)->reason }
    } else if completed < rates.len() {
        SweepAction::RunPoint { index: completed, ops_per_s: rates[completed as int] }
    } else {
        SweepAction::Finish { reason: SweepStopReason::MaxPoints }
    }
}

/// The first action of a sweep over listed rates.
pub fn first_listed(rates: &Vec<Real>) -> (r: SweepAction)
    ensures
        r == (if rates@.len() > 0 {
            SweepAction::RunPoint { index: 0, ops_per_s: rates@[0] }
        } else {
            SweepAction::Finish { reason: SweepStopReason::MaxPoints }
        }),
{
    if rates.len() > 0 {
        SweepAction::RunPoint { index: 0, ops_per_s: rates[0] }
    } else {
        SweepAction::Finish { reason: SweepStopReason::MaxPoints }
    }
}

/// The next action of a sweep over listed rates, after `completed` of them.
pub fn next_listed(
    policy: &ThroughputSweepPolicy,
    rates: &Vec<Real>,
    completed: usize,
    m: PointMetrics,
    forced: bool,
) -> (r: SweepAction)
    ensures
        r == listed_step(*policy, rates@, completed, m, forced),
{
    if forced {
        return SweepAction::Finish { reason: SweepStopReason::Saturated };
    }
    if let SweepDecision::Stop { reason } = policy.decide_after_metrics(completed, m) {
        return SweepAction::Finish { reason };
    }
    if completed < rates.len() {
        SweepAction::RunPoint { index: completed, ops_per_s: rates[completed] }
    } else {
        SweepAction::Finish { reason: SweepStopReason::MaxPoints }
    }
}

// ---------------------------------------------------------------------------------------------
// What an experiment asks of its sweep
// ---------------------------------------------------------------------------------------------
/// The policy of a sweep is what the experiment sets: every field that it sets counts as it is, and
/// the others are those of the paper, which start at the offered rate where there is one.
pub proof fn lemma_policy_is_the_experiments(e: ExperimentSpec)
    ensures
        ({
            let p = policy_of(e);
            let t = e.throughput_sweep;
            &&& t.start_ops_per_s matches Some(v) ==> p.start_ops_per_s == v
            &&& t.start_ops_per_s is None && e.benchmark.offered_rate_per_s is Some
                ==> p.start_ops_per_s == e.benchmark.offered_rate_per_s->0
            &&& t.start_ops_per_s is None && e.benchmark.offered_rate_per_s is None
                ==> p.start_ops_per_s.bits == 0x4059_0000_0000_0000
            &&& t.step_multiplier matches Some(v) ==> p.step_multiplier == v
            &&& t.step_multiplier is None ==> p.step_multiplier.bits == 0x4000_0000_0000_0000
            &&& t.max_ops_per_s matches Some(v) ==> p.max_ops_per_s == v
            &&& t.max_ops_per_s is None ==> p.max_ops_per_s.bits == 0x412e_8480_0000_0000
            &&& t.max_points matches Some(v) ==> p.max_points == v
            &&& t.max_points is None ==> p.max_points == 12
            &&& t.saturation_achieved_ratio matches Some(v) ==> p.saturation_achieved_ratio == v
            &&& t.saturation_achieved_ratio is None ==> p.saturation_achieved_ratio.bits
                == 0x3fe0_0000_0000_0000
            &&& t.stop_on_failure matches Some(v) ==> p.stop_on_failure == v
            &&& t.stop_on_failure is None ==> !p.stop_on_failure
        }),
{
}

/// No rate that a sweep goes on to lies above the limit in the experiment, no sweep goes on past the
/// points that the experiment allows, and none goes on after a point that failed where the experiment
/// says so, or that fell below the ratio of the experiment.
pub proof fn lemma_sweep_stays_within_the_experiment(
    e: ExperimentSpec,
    completed: nat,
    m: PointMetrics,
)
    requires
        policy_of(e).decision(completed, m) is Continue,
    ensures
        policy_of(e).decision(completed, m)->next_ops_per_s == m.next_ops_per_s,
        e.throughput_sweep.max_ops_per_s matches Some(v) ==> !v.lt_spec(m.next_ops_per_s),
        e.throughput_sweep.max_points matches Some(n) ==> completed < n,
        e.throughput_sweep.stop_on_failure == Some(true) ==> m.failed_tasks == 0,
        e.throughput_sweep.saturation_achieved_ratio matches Some(r) ==> !m.successful_ratio.lt_spec(
            r,
        ),
{
}

/// Why a sweep stops: failures come first where they count, then saturation, then the number of
/// points, then the limit of the rate; where none of them holds it goes on.
pub proof fn lemma_reasons_to_stop(p: ThroughputSweepPolicy, completed: nat, m: PointMetrics)
    ensures
        ({
            let d = p.decision(completed, m);
            let failed = p.stop_on_failure && m.failed_tasks > 0;
            let saturated = m.successful_ratio.lt_spec(p.saturation_achieved_ratio)
                || m.target_ops_per_s.le_spec(Real { bits: 0 });
            let all_run = p.max_points <= completed;
            let too_fast = p.max_ops_per_s.lt_spec(m.next_ops_per_s);
            &&& d == (SweepDecision::Stop { reason: SweepStopReason::FailedTasks }) <==> failed
            &&& d == (SweepDecision::Stop { reason: SweepStopReason::Saturated }) <==> !failed
                && saturated
            &&& d == (SweepDecision::Stop { reason: SweepStopReason::MaxPoints }) <==> !failed
                && !saturated && all_run
            &&& d == (SweepDecision::Stop { reason: SweepStopReason::MaxOpsPerS }) <==> !failed
                && !saturated && !all_run && too_fast
            &&& d is Continue <==> !failed && !saturated && !all_run && !too_fast
        }),
{
}

proof fn lemma_ladder_prefix(ladder: Seq<Real>, p: ThroughputSweepPolicy, n: nat)
    requires
        n <= ladder.len(),
        n <= p.max_points,
        forall|i: int| 0 <= i < n ==> !p.max_ops_per_s.lt_spec(#[trigger] ladder[i]),
    ensures
        ({
            let r = ladder_prefix(ladder, p, n);
            &&& r.len() <= ladder.len() && r == ladder.take(r.len() as int)
            &&& r.len() <= p.max_points
            &&& forall|i: int| 0 <= i < r.len() ==> !p.max_ops_per_s.lt_spec(#[trigger] r[i])
            &&& r.len() == ladder.len() || r.len() == p.max_points || p.max_ops_per_s.lt_spec(
                ladder[r.len() as int],
            )
        }),
    decreases ladder.len() - n,
{
    if !(n >= ladder.len() || n >= p.max_points || p.max_ops_per_s.lt_spec(ladder[n as int])) {
        lemma_ladder_prefix(ladder, p, n + 1);
    }
}

/// The rates that a sweep measures: those that the experiment lists, as they are; else its offered
/// rate alone; else as much of the ladder as the points allow and the limit, and no less.
pub proof fn lemma_rates_of_an_experiment(e: ExperimentSpec, ladder: Seq<Real>)
    ensures
        ({
            let r = target_rates_spec(e, policy_of(e), ladder);
            let listed = e.throughput_sweep.points_ops_per_s@;
            let p = policy_of(e);
            &&& listed.len() > 0 ==> r == listed
            &&& listed.len() == 0 && e.benchmark.offered_rate_per_s is Some ==> r.len() == 1 && r[0]
                == e.benchmark.offered_rate_per_s->0
            &&& listed.len() == 0 && e.benchmark.offered_rate_per_s is None ==> {
                &&& r.len() <= ladder.len() && r == ladder.take(r.len() as int)
                &&& e.throughput_sweep.max_ops_per_s matches Some(v) ==> forall|i: int|
                    0 <= i < r.len() ==> !v.lt_spec(#[trigger] r[i])
                &&& e.throughput_sweep.max_points matches Some(n) ==> r.len() <= n
                &&& r.len() == ladder.len() || r.len() == p.max_points || p.max_ops_per_s.lt_spec(
                    ladder[r.len() as int],
                )
            }
        }),
{
    lemma_ladder_prefix(ladder, policy_of(e), 0);
}

/// A policy is taken exactly where it starts and ends at a rate, climbs, runs a point, and calls a
/// share of the target saturated.
pub proof fn lemma_policies_that_are_taken(p: ThroughputSweepPolicy)
    ensures
        p.problem() is None <==> {
            &&& p.start_ops_per_s.is_positive_spec()
            &&& p.step_multiplier.is_finite_spec() && (Real { bits: 0x3ff0_0000_0000_0000 }).lt_spec(
                p.step_multiplier,
            )
            &&& p.max_ops_per_s.is_positive_spec()
            &&& p.max_points > 0
            &&& p.saturation_achieved_ratio.is_positive_spec()
                && p.saturation_achieved_ratio.le_spec(Real { bits: 0x3ff0_0000_0000_0000 })
        },
{
}

/// The larger and the smaller of two numbers are among them, and none of the two lies beyond.
pub proof fn lemma_larger_and_smaller(a: Real, b: Real)
    requires
        !a.is_nan_spec(),
        !b.is_nan_spec(),
    ensures
        larger(a, b) == a || larger(a, b) == b,
        smaller(a, b) == a || smaller(a, b) == b,
        a.le_spec(larger(a, b)) && b.le_spec(larger(a, b)),
        smaller(a, b).le_spec(a) && smaller(a, b).le_spec(b),
{
}

/// A datapoint has as many operations as its rate gives over its duration, rounded down, and at least
/// one; it is refused without a rate, and where there would be more than can be counted.
pub proof fn lemma_operations_of_a_rate(rate: Real, product: Real)
    requires
        !product.is_nan_spec(),
    ensures
        ({
            let r = operations_for_rate_spec(rate, product);
            let one = Real { bits: 0x3ff0_0000_0000_0000 };
            let at_least = if product.lt_spec(one) {
                one
            } else {
                product
            };
            &&& r is Ok <==> rate.is_positive_spec() && !usize_limit().lt_spec(at_least)
            &&& r is Ok && at_least.to_u64_spec() <= usize::MAX ==> r->Ok_0
                == at_least.to_u64_spec()
            &&& r is Ok && at_least.to_u64_spec() > usize::MAX ==> r->Ok_0 == usize::MAX
        }),
{
}

/// A channel datapoint has as many elements as its rate gives over its duration, kept within its
/// bounds.
pub proof fn lemma_elements_of_a_rate(rate: Real, product: Real, low: Real, high: Real)
    requires
        !product.is_nan_spec(),
        low.le_spec(high),
    ensures
        ({
            let r = elements_for_rate_spec(rate, product, low, high);
            let kept = if product.lt_spec(low) {
                low
            } else if high.lt_spec(product) {
                high
            } else {
                product
            };
            &&& r is Ok <==> rate.is_positive_spec() && !usize_limit().lt_spec(kept)
            &&& r is Ok && kept.to_u64_spec() <= usize::MAX ==> r->Ok_0 == kept.to_u64_spec()
            &&& r is Ok && kept.to_u64_spec() > usize::MAX ==> r->Ok_0 == usize::MAX
        }),
{
}

/// What a sweep does next, by its decision: the point that it runs is the one behind those completed.
pub proof fn lemma_next_points(
    p: ThroughputSweepPolicy,
    rates: Seq<Real>,
    completed: usize,
    m: PointMetrics,
    forced: bool,
)
    ensures
        step_of(p.decision(completed as nat, m), completed) matches SweepAction::RunPoint {
            index,
            ops_per_s,
        } ==> index == completed && ops_per_s == m.next_ops_per_s,
        step_of(p.decision(completed as nat, m), completed) is RunPoint <==> p.decision(
            completed as nat,
            m,
        ) is Continue,
        step_of(p.decision(completed as nat, m), completed) matches SweepAction::Finish { reason }
            ==> p.decision(completed as nat, m) == (SweepDecision::Stop { reason }),
        listed_step(p, rates, completed, m, forced) is RunPoint <==> !forced && completed
            < rates.len() && p.decision(completed as nat, m) is Continue,
        listed_step(p, rates, completed, m, forced) matches SweepAction::RunPoint {
            index,
            ops_per_s,
        } ==> index == completed && ops_per_s == rates[completed as int],
        forced ==> listed_step(p, rates, completed, m, forced) == (SweepAction::Finish {
            reason: SweepStopReason::Saturated,
        }),
        !forced && p.decision(completed as nat, m) is Continue && completed >= rates.len()
            ==> listed_step(p, rates, completed, m, forced) == (SweepAction::Finish {
            reason: SweepStopReason::MaxPoints,
        }),
        !forced && p.decision(completed as nat, m) is Stop ==> listed_step(
            p,
            rates,
            completed,
            m,
            forced,
        ) == (SweepAction::Finish { reason: p.decision(completed as nat, m)->reason }),
{
}

impl ThroughputSweepPolicy {
    /// Where just one thing is wrong with a policy, it is told.
    pub proof fn lemma_policy_problems(self)
        ensures
            ({
                let a = !self.start_ops_per_s.is_positive_spec();
                let b = !config::above_one(self.step_multiplier);
                let c = !self.max_ops_per_s.is_positive_spec();
                let d = self.max_points == 0;
                let e = !config::is_ratio(self.saturation_achieved_ratio);
                &&& a && !b && !c && !d && !e ==> self.problem() == Some("throughput sweep start_ops_per_s must be a finite positive number"@)
                &&& b && !a && !c && !d && !e ==> self.problem() == Some("throughput sweep step_multiplier must be a finite number greater than 1"@)
                &&& c && !a && !b && !d && !e ==> self.problem() == Some("throughput sweep max_ops_per_s must be a finite positive number"@)
                &&& d && !a && !b && !c && !e ==> self.problem() == Some("throughput sweep max_points must be greater than zero"@)
                &&& e && !a && !b && !c && !d ==> self.problem() == Some("throughput sweep saturation_achieved_ratio must be in the range (0, 1]"@)
            }),
    {
    }
}

/// Where just one thing is wrong with a rate, it is told.
pub proof fn lemma_rate_problems(rate: Real, product: Real)
    ensures
        ({
            let a = !rate.is_positive_spec();
            let b = usize_limit().lt_spec(larger(product, Real::one_spec()));
            &&& a && !b ==> operations_for_rate_spec(rate, product) == Err::<usize, Seq<char>>("target rate must be a finite positive number"@)
            &&& b && !a ==> operations_for_rate_spec(rate, product) == Err::<usize, Seq<char>>("rate * duration is too large for this platform"@)
            &&& !a && !b ==> operations_for_rate_spec(rate, product) == Ok::<usize, Seq<char>>(to_usize_spec(larger(product, Real::one_spec())))
        }),
{
}

/// What `sweep_policy` returns of an experiment holds each thing that the experiment sets, and what it
/// sets makes sense.
pub proof fn lemma_sweep_policy_returns(
    experiment: &ExperimentSpec,
    r: Result<ThroughputSweepPolicy, String>,
)
    requires
        call_ensures(sweep_policy, (experiment,), r),
        r is Ok,
    ensures
        experiment.throughput_sweep.start_ops_per_s is Some ==> r->Ok_0.start_ops_per_s
            == experiment.throughput_sweep.start_ops_per_s->0,
        experiment.throughput_sweep.step_multiplier is Some ==> r->Ok_0.step_multiplier
            == experiment.throughput_sweep.step_multiplier->0,
        experiment.throughput_sweep.max_ops_per_s is Some ==> r->Ok_0.max_ops_per_s
            == experiment.throughput_sweep.max_ops_per_s->0,
        experiment.throughput_sweep.max_points is Some ==> r->Ok_0.max_points
            == experiment.throughput_sweep.max_points->0,
        experiment.throughput_sweep.saturation_achieved_ratio is Some
            ==> r->Ok_0.saturation_achieved_ratio
            == experiment.throughput_sweep.saturation_achieved_ratio->0,
        experiment.throughput_sweep.stop_on_failure is Some ==> r->Ok_0.stop_on_failure
            == experiment.throughput_sweep.stop_on_failure->0,
        r->Ok_0.start_ops_per_s.is_positive_spec() && r->Ok_0.max_ops_per_s.is_positive_spec(),
        r->Ok_0.max_points >= 1,
{
    lemma_policy_is_the_experiments(*experiment);
}

} // verus!
