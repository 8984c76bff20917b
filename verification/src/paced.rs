//! Open-loop runs: tasks sent at a fixed rate with a bounded number in flight.
use crate::binary64::Real;
use crate::config;
use crate::latency::LatencySummary;
use crate::order;
use crate::text;
use vstd::prelude::*;
use vstd::string::*;

verus! {

/// How a run is paced.
#[derive(Clone, Copy, Debug, PartialEq, Eq, Structural)]
pub struct PacedTaskRunConfig {
    pub target_ops_per_s: Real,
    pub max_in_flight: usize,
    pub pacer_core_id: Option<usize>,
}

/// What a run measured.
#[derive(Debug)]
pub struct PacedTaskRunReport {
    pub target_ops_per_s: Real,
    pub achieved_ops_per_s: Real,
    pub successful_ops_per_s: Real,
    pub total_tasks: usize,
    pub completed_tasks: usize,
    pub failed_tasks: usize,
    pub wall_time_ms: Real,
    pub offered_latency: LatencySummary,
    pub service_latency: LatencySummary,
    pub schedule_lag: LatencySummary,
    pub samples: Vec<PacedTaskSample>,
    pub failures: Vec<PacedTaskFailure>,
}

impl PacedTaskRunReport {
    /// The same figures, samples and failures.
    pub open spec fn same(self, other: PacedTaskRunReport) -> bool {
        &&& self.target_ops_per_s == other.target_ops_per_s
        &&& self.achieved_ops_per_s == other.achieved_ops_per_s
        &&& self.successful_ops_per_s == other.successful_ops_per_s
        &&& self.total_tasks == other.total_tasks
        &&& self.completed_tasks == other.completed_tasks
        &&& self.failed_tasks == other.failed_tasks
        &&& self.wall_time_ms == other.wall_time_ms
        &&& self.offered_latency == other.offered_latency
        &&& self.service_latency == other.service_latency
        &&& self.schedule_lag == other.schedule_lag
        &&& self.samples@ == other.samples@
        &&& self.failures@ == other.failures@
    }
}

impl Clone for PacedTaskRunReport {
    fn clone(&self) -> (r: Self)
        ensures
            r.same(*self),
    {
        let mut failures: Vec<PacedTaskFailure> = Vec::new();
        let mut i: usize = 0;
        while i < self.failures.len()
            invariant
                i <= self.failures@.len(),
                failures@ == self.failures@.take(i as int),
            decreases self.failures.len() - i,
        {
            failures.push(self.failures[i].clone());
            assert(failures@ =~= self.failures@.take(i + 1));
            i = i + 1;
        }
        assert(failures@ =~= self.failures@);
        PacedTaskRunReport {
            target_ops_per_s: self.target_ops_per_s,
            achieved_ops_per_s: self.achieved_ops_per_s,
            successful_ops_per_s: self.successful_ops_per_s,
            total_tasks: self.total_tasks,
            completed_tasks: self.completed_tasks,
            failed_tasks: self.failed_tasks,
            wall_time_ms: self.wall_time_ms,
            offered_latency: self.offered_latency,
            service_latency: self.service_latency,
            schedule_lag: self.schedule_lag,
            samples: copy_range(&self.samples, 0, self.samples.len()),
            failures,
        }
    }
}

/// A copy of `values[from..to]`.
pub fn copy_range<T: Copy>(values: &Vec<T>, from: usize, to: usize) -> (r: Vec<T>)
    requires
        from <= to <= values@.len(),
    ensures
        r@ == values@.subrange(from as int, to as int),
        from == 0 && to == values@.len() ==> r@ == values@,
{
    let mut out: Vec<T> = Vec::new();
    let mut i: usize = from;
    while i < to
        invariant
            from <= i <= to <= values@.len(),
            out@ == values@.subrange(from as int, i as int),
        decreases to - i,
    {
        out.push(values[i]);
        assert(out@ =~= values@.subrange(from as int, i + 1));
        i = i + 1;
    }
    assert(values@.subrange(0, values@.len() as int) =~= values@);
    out
}

/// The latencies of one task in milliseconds.
#[derive(Clone, Copy, Debug, PartialEq, Eq, Structural)]
pub struct PacedTaskSample {
    pub index: usize,
    pub ok: bool,
    pub offered_latency_ms: Real,
    pub service_latency_ms: Real,
    pub schedule_lag_ms: Real,
}

#[derive(Debug)]
pub struct PacedTaskFailure {
    pub index: usize,
    pub message: String,
}

impl Clone for PacedTaskFailure {
    fn clone(&self) -> (r: Self)
        ensures
            r == *self,
    {
        PacedTaskFailure { index: self.index, message: self.message.clone() }
    }
}

/// The rule that a pacing configuration breaks.
pub open spec fn config_problem(config: PacedTaskRunConfig) -> Option<Seq<char>> {
    if !config.target_ops_per_s.is_positive_spec() {
        Some("target_ops_per_s must be a finite positive number"@)
    } else if config.max_in_flight == 0 {
        Some("max_in_flight must be greater than zero"@)
    } else {
        None
    }
}

pub fn validate_config(config: &PacedTaskRunConfig) -> (r: Result<(), String>)
    ensures
        config::verdict(r) == config_problem(*config),
{
    if !config.target_ops_per_s.is_positive() {
        return Err("target_ops_per_s must be a finite positive number".to_owned());
    }
    if config.max_in_flight == 0 {
        return Err("max_in_flight must be greater than zero".to_owned());
    }
    Ok(())
}

// ---------------------------------------------------------------------------------------------
// Slots
// ---------------------------------------------------------------------------------------------
/// The places for tasks in flight. A task is sent only when a place is free, and gives it back
/// when it completes, so that never more are in flight than the limit allows.
#[derive(Debug)]
pub struct Slots {
    limit: usize,
    free: usize,
}

impl Slots {
    pub closed spec fn limit(self) -> nat {
        self.limit as nat
    }

    /// How many tasks are in flight.
    pub closed spec fn in_flight(self) -> nat {
        (self.limit - self.free) as nat
    }

    #[verifier::type_invariant]
    spec fn inv(self) -> bool {
        self.free <= self.limit
    }

    pub fn new(max_in_flight: usize) -> (r: Slots)
        ensures
            r.limit() == max_in_flight,
            r.in_flight() == 0,
    {
        Slots { limit: max_in_flight, free: max_in_flight }
    }

    /// Takes a place if one is free; says whether it did.
    pub fn try_acquire(&mut self) -> (r: bool)
        ensures
            final(self).limit() == old(self).limit(),
            r == (old(self).in_flight() < old(self).limit()),
            final(self).in_flight() == old(self).in_flight() + (if r {
                1nat
            } else {
                0nat
            }),
            final(self).in_flight() <= final(self).limit(),
    {
        proof {
            use_type_invariant(&*self);
        }
        if self.free > 0 {
            self.free = self.free - 1;
            true
        } else {
            false
        }
    }

    /// Whether no place is free.
    pub fn is_full(&self) -> (r: bool)
        ensures
            r == (self.in_flight() >= self.limit()),
    {
        proof {
            use_type_invariant(self);
        }
        self.free == 0
    }

    /// Gives a place back; says whether one was taken.
    pub fn release(&mut self) -> (r: bool)
        ensures
            final(self).limit() == old(self).limit(),
            r == (old(self).in_flight() > 0),
            final(self).in_flight() == old(self).in_flight() - (if r {
                1int
            } else {
                0int
            }),
            final(self).in_flight() <= final(self).limit(),
    {
        proof {
            use_type_invariant(&*self);
        }
        if self.free < self.limit {
            self.free = self.free + 1;
            true
        } else {
            false
        }
    }
}

// ---------------------------------------------------------------------------------------------
// Executions
// ---------------------------------------------------------------------------------------------
/// One executed task: when it was due, when it started and when it completed, in nanoseconds since
/// the run began, and why it failed, if it did.
#[derive(Debug)]
pub struct TaskExecution {
    pub index: usize,
    pub scheduled_at_ns: u64,
    pub started_at_ns: u64,
    pub completed_at_ns: u64,
    pub failure: Option<String>,
}

/// The durations of one task in nanoseconds.
#[derive(Clone, Copy, Debug, PartialEq, Eq, Structural)]
pub struct TaskTimes {
    pub index: usize,
    pub ok: bool,
    pub offered_ns: u64,
    pub service_ns: u64,
    pub lag_ns: u64,
}

/// The time from `earlier` to `later`, none where they are the wrong way round.
pub open spec fn since(later: u64, earlier: u64) -> u64 {
    if later >= earlier {
        (later - earlier) as u64
    } else {
        0
    }
}

pub fn duration_since(later: u64, earlier: u64) -> (r: u64)
    ensures
        r == since(later, earlier),
{
    if later >= earlier {
        later - earlier
    } else {
        0
    }
}

pub open spec fn times_of(e: TaskExecution) -> TaskTimes {
    TaskTimes {
        index: e.index,
        ok: e.failure is None,
        offered_ns: since(e.completed_at_ns, e.scheduled_at_ns),
        service_ns: since(e.completed_at_ns, e.started_at_ns),
        lag_ns: since(e.started_at_ns, e.scheduled_at_ns),
    }
}

pub open spec fn index_keys(executions: Seq<TaskExecution>) -> Seq<u64> {
    executions.map_values(|e: TaskExecution| e.index as u64)
}

/// The executions by task index.
pub open spec fn by_index(executions: Seq<TaskExecution>) -> Seq<TaskExecution> {
    order::sort_order_spec(index_keys(executions)).map_values(|i: usize| executions[i as int])
}

/// The failures among executions, in their order.
pub open spec fn failures_of(executions: Seq<TaskExecution>) -> Seq<(usize, Seq<char>)>
    decreases executions.len(),
{
    if executions.len() == 0 {
        Seq::empty()
    } else {
        let init = failures_of(executions.drop_last());
        match executions.last().failure {
            Some(message) => init.push((executions.last().index, message@)),
            None => init,
        }
    }
}

pub open spec fn failure_views(failures: Seq<PacedTaskFailure>) -> Seq<(usize, Seq<char>)> {
    failures.map_values(|f: PacedTaskFailure| (f.index, f.message@))
}

/// The times and failures of a run, by task index.
#[derive(Debug)]
pub struct RunTimes {
    pub times: Vec<TaskTimes>,
    pub failures: Vec<PacedTaskFailure>,
}

/// Orders the executions of a run by task index and takes their durations and failures.
pub fn run_times(executions: &Vec<TaskExecution>) -> (r: RunTimes)
    ensures
        r.times@ == by_index(executions@).map_values(|e: TaskExecution| times_of(e)),
        failure_views(r.failures@) == failures_of(by_index(executions@)),
        r.times@.len() == executions@.len(),
        r.failures@.len() <= r.times@.len(),
{
    let mut keys: Vec<u64> = Vec::new();
    let mut i: usize = 0;
    while i < executions.len()
        invariant
            i <= executions@.len(),
            keys@ == index_keys(executions@).take(i as int),
        decreases executions.len() - i,
    {
        keys.push(executions[i].index as u64);
        assert(keys@ =~= index_keys(executions@).take(i + 1));
        i = i + 1;
    }
    assert(keys@ =~= index_keys(executions@));
    let places = order::sort_order(&keys);
    let ghost ordered = by_index(executions@);
    let mut times: Vec<TaskTimes> = Vec::new();
    let mut failures: Vec<PacedTaskFailure> = Vec::new();
    let mut k: usize = 0;
    assert(failure_views(failures@) =~= failures_of(ordered.take(0)));
    while k < places.len()
        invariant
            k <= places@.len(),
            order::is_sort_order(keys@, places@),
            places@ == order::sort_order_spec(keys@),
            keys@ == index_keys(executions@),
            ordered == by_index(executions@),
            times@.len() == k,
            forall|j: int| 0 <= j < k ==> #[trigger] times@[j] == times_of(ordered[j]),
            failure_views(failures@) == failures_of(ordered.take(k as int)),
            failures@.len() <= k,
        decreases places.len() - k,
    {
        let e = &executions[places[k]];
        assert(ordered[k as int] == *e);
        assert(ordered.take(k + 1).drop_last() =~= ordered.take(k as int));
        times.push(
            TaskTimes {
                index: e.index,
                ok: e.failure.is_none(),
                offered_ns: duration_since(e.completed_at_ns, e.scheduled_at_ns),
                service_ns: duration_since(e.completed_at_ns, e.started_at_ns),
                lag_ns: duration_since(e.started_at_ns, e.scheduled_at_ns),
            },
        );
        if let Some(message) = &e.failure {
            let ghost before = failures@;
            failures.push(PacedTaskFailure { index: e.index, message: message.clone() });
            assert(failure_views(failures@) =~= failure_views(before).push((e.index, message@)));
        }
        k = k + 1;
    }
    assert(ordered.take(ordered.len() as int) =~= ordered);
    assert(times@ =~= ordered.map_values(|e: TaskExecution| times_of(e)));
    RunTimes { times, failures }
}

// ---------------------------------------------------------------------------------------------
// The pacer
// ---------------------------------------------------------------------------------------------
/// What a pacer has come to: how many tasks it is to send, at what period, with how many in flight
/// at most; how many it has sent; and the executions that have been reported.
pub struct PacerModel {
    pub total: nat,
    pub period_ns: nat,
    pub limit: nat,
    pub sent: nat,
    pub done: Seq<TaskExecution>,
}

impl PacerModel {
    /// When task `index` is due, in nanoseconds since the run began.
    pub open spec fn due(self, index: nat) -> nat {
        index * self.period_ns
    }

    pub open spec fn in_flight(self) -> int {
        self.sent - self.done.len()
    }

    pub open spec fn wf(self) -> bool {
        &&& self.sent <= self.total <= usize::MAX
        &&& 0 <= self.in_flight() <= self.limit
        &&& self.total * self.period_ns <= u64::MAX
    }

    /// What a pacer does at a time. It waits for a place first, then for the time.
    pub open spec fn step_at(self, now_ns: u64) -> PacerStep {
        if self.sent >= self.total {
            PacerStep::AllSent
        } else if self.in_flight() >= self.limit {
            PacerStep::AwaitPlace
        } else if now_ns < self.due(self.sent) {
            PacerStep::AwaitTime { until_ns: self.due(self.sent) as u64 }
        } else {
            PacerStep::Send {
                index: self.sent as usize,
                scheduled_at_ns: self.due(self.sent) as u64,
            }
        }
    }

    pub open spec fn after(self, step: PacerStep) -> PacerModel {
        if step is Send {
            PacerModel { sent: self.sent + 1, ..self }
        } else {
            self
        }
    }
}

#[derive(Clone, Copy, Debug, PartialEq, Eq, Structural)]
pub enum PacerStep {
    /// Every task is sent.
    AllSent,
    /// As many tasks are in flight as may be.
    AwaitPlace,
    /// The next task is not due yet.
    AwaitTime { until_ns: u64 },
    /// The next task is to be sent now.
    Send { index: usize, scheduled_at_ns: u64 },
}

/// Sends tasks at a steady period, whatever becomes of those before, as long as places are free.
#[derive(Debug)]
pub struct Pacer {
    total: usize,
    period_ns: u64,
    sent: usize,
    due_ns: u64,
    slots: Slots,
    done: Vec<TaskExecution>,
}

impl Pacer {
    pub closed spec fn model(self) -> PacerModel {
        PacerModel {
            total: self.total as nat,
            period_ns: self.period_ns as nat,
            limit: self.slots.limit(),
            sent: self.sent as nat,
            done: self.done@,
        }
    }

    pub closed spec fn wf(self) -> bool {
        &&& self.model().wf()
        &&& self.slots.in_flight() == self.model().in_flight()
        &&& self.due_ns == self.model().due(self.sent as nat)
    }

    /// A pacer for `total` tasks, of which the last is due within the range of the clock.
    pub fn new(total: usize, period_ns: u64, max_in_flight: usize) -> (r: Pacer)
        requires
            total * period_ns <= u64::MAX,
        ensures
            r.wf(),
            r.model() == (PacerModel {
                total: total as nat,
                period_ns: period_ns as nat,
                limit: max_in_flight as nat,
                sent: 0,
                done: Seq::empty(),
            }),
    {
        let done: Vec<TaskExecution> = Vec::new();
        assert(done@ =~= Seq::<TaskExecution>::empty());
        Pacer { total, period_ns, sent: 0, due_ns: 0, slots: Slots::new(max_in_flight), done }
    }

    /// Looks at the clock and says what to do; a task that is to be sent counts as sent.
    pub fn step(&mut self, now_ns: u64) -> (r: PacerStep)
        requires
            old(self).wf(),
        ensures
            final(self).wf(),
            r == old(self).model().step_at(now_ns),
            final(self).model() == old(self).model().after(r),
    {
        if self.sent >= self.total {
            return PacerStep::AllSent;
        }
        if self.slots.is_full() {
            return PacerStep::AwaitPlace;
        }
        if now_ns < self.due_ns {
            return PacerStep::AwaitTime { until_ns: self.due_ns };
        }
        let index: usize = self.sent;
        let scheduled_at_ns: u64 = self.due_ns;
        proof {
            assert((index + 1) * self.period_ns == index * self.period_ns + self.period_ns)
                by (nonlinear_arith);
            assert((index + 1) * self.period_ns <= self.total * self.period_ns)
                by (nonlinear_arith)
                requires
                    index + 1 <= self.total,
            ;
        }
        let _taken = self.slots.try_acquire();
        self.sent = index + 1;
        self.due_ns = scheduled_at_ns + self.period_ns;
        PacerStep::Send { index, scheduled_at_ns }
    }

    /// Takes in what became of a task in flight, whose place is free again; says whether a task was
    /// in flight at all.
    pub fn complete(&mut self, execution: TaskExecution) -> (r: bool)
        requires
            old(self).wf(),
        ensures
            final(self).wf(),
            r == (old(self).model().in_flight() > 0),
            final(self).model() == if r {
                PacerModel { done: old(self).model().done.push(execution), ..old(self).model() }
            } else {
                old(self).model()
            },
    {
        if self.slots.release() {
            self.done.push(execution);
            true
        } else {
            false
        }
    }

    /// The executions of a run in which every task has reported.
    pub fn finish(self) -> (r: Result<Vec<TaskExecution>, String>)
        requires
            self.wf(),
        ensures
            match r {
                Ok(done) => done@ == self.model().done && done@.len() == self.model().total,
                Err(m) => self.model().done.len() != self.model().total && m@
                    == "paced run collected "@ + text::dec(self.model().done.len()) + " of "@
                    + text::dec(self.model().total) + " task results"@,
            },
    {
        match check_collected(self.done.len(), self.total) {
            Ok(_) => Ok(self.done),
            Err(m) => Err(m),
        }
    }
}

/// A task is sent neither before it is due nor while the limit is reached, and tasks go out one by
/// one in their order, each due one period after the one before.
pub proof fn lemma_pace_is_kept(m: PacerModel, now_ns: u64)
    requires
        m.wf(),
    ensures
        m.step_at(now_ns) matches PacerStep::Send { index, scheduled_at_ns } ==> {
            &&& index == m.sent
            &&& now_ns >= scheduled_at_ns
            &&& scheduled_at_ns == index * m.period_ns
            &&& m.in_flight() < m.limit
            &&& m.after(m.step_at(now_ns)).in_flight() <= m.limit
            &&& m.due(m.sent + 1) == scheduled_at_ns + m.period_ns
        },
        m.after(m.step_at(now_ns)).wf(),
{
    if m.sent < m.total {
        assert((m.sent + 1) * m.period_ns == m.sent * m.period_ns + m.period_ns)
            by (nonlinear_arith);
        assert((m.sent + 1) * m.period_ns <= m.total * m.period_ns) by (nonlinear_arith)
            requires
                m.sent + 1 <= m.total,
        ;
    }
}

/// Where a place is free and time passes, a pacer that has tasks left sends one: it never stops short.
pub proof fn lemma_pacer_goes_on(m: PacerModel)
    requires
        m.wf(),
        m.sent < m.total,
        m.in_flight() < m.limit,
    ensures
        m.step_at(u64::MAX) is Send,
{
    assert(m.sent * m.period_ns <= m.total * m.period_ns) by (nonlinear_arith)
        requires
            m.sent < m.total,
    ;
}

/// The latest completion, or zero.
pub open spec fn last_completion_spec(executions: Seq<TaskExecution>) -> u64
    decreases executions.len(),
{
    if executions.len() == 0 {
        0
    } else {
        let before = last_completion_spec(executions.drop_last());
        if executions.last().completed_at_ns > before {
            executions.last().completed_at_ns
        } else {
            before
        }
    }
}

/// How long a run took, in nanoseconds since it began.
pub fn last_completion(executions: &Vec<TaskExecution>) -> (r: u64)
    ensures
        r == last_completion_spec(executions@),
        forall|i: int|
            0 <= i < executions@.len() ==> (#[trigger] executions@[i]).completed_at_ns <= r,
{
    let mut last: u64 = 0;
    let mut i: usize = 0;
    while i < executions.len()
        invariant
            i <= executions@.len(),
            last == last_completion_spec(executions@.take(i as int)),
            forall|j: int| 0 <= j < i ==> (#[trigger] executions@[j]).completed_at_ns <= last,
        decreases executions.len() - i,
    {
        assert(executions@.take(i + 1).drop_last() =~= executions@.take(i as int));
        if executions[i].completed_at_ns > last {
            last = executions[i].completed_at_ns;
        }
        i = i + 1;
    }
    assert(executions@.take(executions@.len() as int) =~= executions@);
    last
}

/// A run is complete when every task has reported.
pub fn check_collected(collected: usize, total_tasks: usize) -> (r: Result<(), String>)
    ensures
        config::verdict(r) == (if collected == total_tasks {
            None
        } else {
            Some(
                "paced run collected "@ + text::dec(collected as nat) + " of "@ + text::dec(
                    total_tasks as nat,
                ) + " task results"@,
            )
        }),
{
    if collected == total_tasks {
        Ok(())
    } else {
        Err(
            text::cat5(
                "paced run collected ",
                text::decimal(collected as u64).as_str(),
                " of ",
                text::decimal(total_tasks as u64).as_str(),
                " task results",
            ),
        )
    }
}

/// A task that panicked failed, with its panic message where that is text.
pub fn panicked(who: &str, message: &Option<String>) -> (r: String)
    ensures
        r@ == who@ + " panicked: "@ + (match *message {
            Some(m) => m@,
            None => "unknown panic payload"@,
        }),
{
    match message {
        Some(m) => text::cat3(who, " panicked: ", m.as_str()),
        None => text::cat3(who, " panicked: ", "unknown panic payload"),
    }
}

// ---------------------------------------------------------------------------------------------
// Reports
// ---------------------------------------------------------------------------------------------
/// The rates and means of a run.
#[derive(Clone, Copy, Debug, PartialEq, Eq, Structural)]
pub struct RunFigures {
    pub target_ops_per_s: Real,
    pub achieved_ops_per_s: Real,
    pub successful_ops_per_s: Real,
    pub wall_time_ms: Real,
    pub offered_mean_ms: Real,
    pub service_mean_ms: Real,
    pub lag_mean_ms: Real,
}

pub open spec fn offered_of(samples: Seq<PacedTaskSample>) -> Seq<Real> {
    samples.map_values(|s: PacedTaskSample| s.offered_latency_ms)
}

pub open spec fn service_of(samples: Seq<PacedTaskSample>) -> Seq<Real> {
    samples.map_values(|s: PacedTaskSample| s.service_latency_ms)
}

pub open spec fn lag_of(samples: Seq<PacedTaskSample>) -> Seq<Real> {
    samples.map_values(|s: PacedTaskSample| s.schedule_lag_ms)
}

/// The offered latencies of a list of samples.
pub fn offered_latencies(samples: &Vec<PacedTaskSample>) -> (r: Vec<Real>)
    ensures
        r@ == offered_of(samples@),
{
    let mut out: Vec<Real> = Vec::new();
    let mut i: usize = 0;
    while i < samples.len()
        invariant
            i <= samples@.len(),
            out@ == offered_of(samples@).take(i as int),
        decreases samples.len() - i,
    {
        out.push(samples[i].offered_latency_ms);
        assert(out@ =~= offered_of(samples@).take(i + 1));
        i = i + 1;
    }
    assert(out@ =~= offered_of(samples@));
    out
}

/// The service latencies of a list of samples.
pub fn service_latencies(samples: &Vec<PacedTaskSample>) -> (r: Vec<Real>)
    ensures
        r@ == service_of(samples@),
{
    let mut out: Vec<Real> = Vec::new();
    let mut i: usize = 0;
    while i < samples.len()
        invariant
            i <= samples@.len(),
            out@ == service_of(samples@).take(i as int),
        decreases samples.len() - i,
    {
        out.push(samples[i].service_latency_ms);
        assert(out@ =~= service_of(samples@).take(i + 1));
        i = i + 1;
    }
    assert(out@ =~= service_of(samples@));
    out
}

/// The schedule lags of a list of samples.
pub fn schedule_lags(samples: &Vec<PacedTaskSample>) -> (r: Vec<Real>)
    ensures
        r@ == lag_of(samples@),
{
    let mut out: Vec<Real> = Vec::new();
    let mut i: usize = 0;
    while i < samples.len()
        invariant
            i <= samples@.len(),
            out@ == lag_of(samples@).take(i as int),
        decreases samples.len() - i,
    {
        out.push(samples[i].schedule_lag_ms);
        assert(out@ =~= lag_of(samples@).take(i + 1));
        i = i + 1;
    }
    assert(out@ =~= lag_of(samples@));
    out
}

/// The report of a run with the given samples and failures.
pub fn build_report(
    total_tasks: usize,
    figures: RunFigures,
    samples: Vec<PacedTaskSample>,
    failures: Vec<PacedTaskFailure>,
) -> (r: PacedTaskRunReport)
    ensures
        r.total_tasks == total_tasks,
        r.completed_tasks == samples@.len(),
        r.failed_tasks == failures@.len(),
        r.samples == samples,
        r.failures == failures,
        r.target_ops_per_s == figures.target_ops_per_s,
        r.achieved_ops_per_s == figures.achieved_ops_per_s,
        r.successful_ops_per_s == figures.successful_ops_per_s,
        r.wall_time_ms == figures.wall_time_ms,
        r.offered_latency == LatencySummary::of(offered_of(samples@), figures.offered_mean_ms),
        r.service_latency == LatencySummary::of(service_of(samples@), figures.service_mean_ms),
        r.schedule_lag == LatencySummary::of(lag_of(samples@), figures.lag_mean_ms),
{
    PacedTaskRunReport {
        target_ops_per_s: figures.target_ops_per_s,
        achieved_ops_per_s: figures.achieved_ops_per_s,
        successful_ops_per_s: figures.successful_ops_per_s,
        total_tasks,
        completed_tasks: samples.len(),
        failed_tasks: failures.len(),
        wall_time_ms: figures.wall_time_ms,
        offered_latency: LatencySummary::from_samples(
            &offered_latencies(&samples),
            figures.offered_mean_ms,
        ),
        service_latency: LatencySummary::from_samples(
            &service_latencies(&samples),
            figures.service_mean_ms,
        ),
        schedule_lag: LatencySummary::from_samples(&schedule_lags(&samples), figures.lag_mean_ms),
        samples,
        failures,
    }
}

impl PacedTaskRunReport {
    pub fn has_failures(&self) -> (r: bool)
        ensures
            r == (self.failed_tasks > 0 || self.failures@.len() > 0),
    {
        self.failed_tasks > 0 || self.failures.len() > 0
    }

    /// Drops the samples of the single tasks and keeps everything else.
    pub fn without_samples(self) -> (r: PacedTaskRunReport)
        ensures
            r == (PacedTaskRunReport { samples: r.samples, ..self }),
            r.samples@.len() == 0,
    {
        let mut report = self;
        report.samples = Vec::new();
        report
    }
}

/// Whether a rate of `actual` on a target of `target` has a ratio; else the ratio counts as zero.
pub open spec fn has_ratio(actual: Real, target: Real) -> bool {
    actual.is_finite_spec() && target.is_positive_spec()
}

/// The ratio of two rates, where `quotient` is their quotient.
pub fn rate_ratio(actual: Real, target: Real, quotient: Real) -> (r: Real)
    ensures
        r == (if has_ratio(actual, target) {
            quotient
        } else {
            Real::zero_spec()
        }),
{
    if !actual.is_finite() || !target.is_positive() {
        Real::zero()
    } else {
        quotient
    }
}

/// How many failures a summary names.
pub const SHOWN_FAILURES: usize = 16;

/// `index=<index>: <message>`
pub open spec fn failure_line(f: PacedTaskFailure) -> Seq<char> {
    "index="@ + text::dec(f.index as nat) + ": "@ + f.message@
}

/// The first failures of a run, one line each.
pub open spec fn failure_lines_spec(failures: Seq<PacedTaskFailure>) -> Seq<Seq<char>> {
    failures.take(text::min_int(SHOWN_FAILURES as int, failures.len() as int)).map_values(
        |f: PacedTaskFailure| failure_line(f),
    )
}

pub fn failure_lines(failures: &Vec<PacedTaskFailure>) -> (r: Vec<String>)
    ensures
        text::views(r@) == failure_lines_spec(failures@),
{
    let mut out: Vec<String> = Vec::new();
    let mut i: usize = 0;
    while i < failures.len() && i < SHOWN_FAILURES
        invariant
            i <= failures@.len(),
            i <= SHOWN_FAILURES,
            out@.len() == i,
            forall|j: int| 0 <= j < i ==> (#[trigger] out@[j])@ == failure_line(failures@[j]),
        decreases failures.len() - i,
    {
        out.push(
            text::cat4(
                "index=",
                text::decimal(failures[i].index as u64).as_str(),
                ": ",
                failures[i].message.as_str(),
            ),
        );
        i = i + 1;
    }
    assert(text::views(out@) =~= failure_lines_spec(failures@));
    out
}

// ---------------------------------------------------------------------------------------------
// The pacer's core
// ---------------------------------------------------------------------------------------------
/// The last core of one part of a CPU list: a number, or the end of a range.
pub open spec fn part_end(part: Seq<char>) -> Option<nat> {
    let trimmed = text::trim_spec(part);
    let last = match text::after_first_spec(trimmed, '-') {
        Some(end) => text::trim_spec(end),
        None => trimmed,
    };
    if trimmed.len() == 0 {
        None
    } else {
        match text::number_spec(last, usize::MAX as nat) {
            Ok(n) => Some(n),
            Err(_) => None,
        }
    }
}

/// The highest core among the first `n` parts.
pub open spec fn highest_among(parts: Seq<Seq<char>>) -> Option<nat>
    decreases parts.len(),
{
    if parts.len() == 0 {
        None
    } else {
        match (highest_among(parts.drop_last()), part_end(parts.last())) {
            (Some(a), Some(b)) => Some(
                if a > b {
                    a
                } else {
                    b
                },
            ),
            (Some(a), None) => Some(a),
            (None, b) => b,
        }
    }
}

fn end_of_part(part: &str) -> (r: Option<usize>)
    ensures
        match r {
            Some(n) => part_end(part@) == Some(n as nat),
            None => part_end(part@) is None,
        },
{
    let trimmed = text::trim(part);
    if trimmed.as_str().is_empty() {
        return None;
    }
    let last = match text::after_first(trimmed.as_str(), '-') {
        Some(end) => text::trim(end.as_str()),
        None => trimmed,
    };
    match text::number_usize(last.as_str()) {
        Ok(n) => Some(n),
        Err(_) => None,
    }
}

/// The highest core that a CPU list such as `0-3,8-11` names.
pub fn highest_cpu_in_cpulist(cpulist: &str) -> (r: Option<usize>)
    ensures
        match r {
            Some(n) => highest_among(text::split_spec(cpulist@, ',')) == Some(n as nat),
            None => highest_among(text::split_spec(cpulist@, ',')) is None,
        },
{
    let parts = text::split(cpulist, ',');
    let ghost all = text::views(parts@);
    let mut best: Option<usize> = None;
    let mut i: usize = 0;
    assert(all.take(0) =~= Seq::<Seq<char>>::empty());
    while i < parts.len()
        invariant
            i <= parts@.len(),
            all == text::views(parts@),
            match best {
                Some(n) => highest_among(all.take(i as int)) == Some(n as nat),
                None => highest_among(all.take(i as int)) is None,
            },
        decreases parts.len() - i,
    {
        assert(all.take(i + 1).drop_last() =~= all.take(i as int));
        assert(all.take(i + 1).last() == parts@[i as int]@);
        if let Some(n) = end_of_part(parts[i].as_str()) {
            best = match best {
                Some(m) => if m > n {
                    Some(m)
                } else {
                    Some(n)
                },
                None => Some(n),
            };
        }
        i = i + 1;
    }
    assert(all.take(all.len() as int) =~= all);
    best
}

/// The core that the pacer is pinned to: the configured one, else the one that the process
/// environment names, else the highest of the first NUMA node's CPU list.
pub open spec fn pacer_core_spec(
    configured: Option<usize>,
    from_env: Option<Seq<char>>,
    cpulist: Option<Seq<char>>,
) -> Option<nat> {
    match configured {
        Some(core) => Some(core as nat),
        None => match from_env {
            Some(v) if text::number_spec(v, usize::MAX as nat) is Ok => Some(
                text::number_spec(v, usize::MAX as nat)->Ok_0,
            ),
            _ => match cpulist {
                Some(list) => highest_among(text::split_spec(text::trim_spec(list), ',')),
                None => None,
            },
        },
    }
}

pub fn pacer_core(
    configured: Option<usize>,
    from_env: &Option<String>,
    cpulist: &Option<String>,
) -> (r: Option<usize>)
    ensures
        match r {
            Some(core) => pacer_core_spec(
                configured,
                text::option_view(*from_env),
                text::option_view(*cpulist),
            ) == Some(core as nat),
            None => pacer_core_spec(
                configured,
                text::option_view(*from_env),
                text::option_view(*cpulist),
            ) is None,
        },
{
    if let Some(core) = configured {
        return Some(core);
    }
    if let Some(v) = from_env {
        if let Ok(core) = text::number_usize(v.as_str()) {
            return Some(core);
        }
    }
    match cpulist {
        Some(list) => highest_cpu_in_cpulist(text::trim(list.as_str()).as_str()),
        None => None,
    }
}

/// The number of cores that an affinity mask can hold bounds the core that it can be set to.
pub fn check_core(core_id: usize, set_size: usize) -> (r: Result<(), String>)
    ensures
        config::verdict(r) == (if core_id < set_size {
            None
        } else {
            Some(
                "core id "@ + text::dec(core_id as nat) + " is outside CPU_SETSIZE="@ + text::dec(
                    set_size as nat,
                ),
            )
        }),
{
    if core_id >= set_size {
        return Err(
            text::cat4(
                "core id ",
                text::decimal(core_id as u64).as_str(),
                " is outside CPU_SETSIZE=",
                text::decimal(set_size as u64).as_str(),
            ),
        );
    }
    Ok(())
}

// ---------------------------------------------------------------------------------------------
// What a run tells of its tasks
// ---------------------------------------------------------------------------------------------
/// How many executions ended with an error.
pub open spec fn failed_count(executions: Seq<TaskExecution>) -> nat
    decreases executions.len(),
{
    if executions.len() == 0 {
        0
    } else {
        failed_count(executions.drop_last()) + if executions.last().failure is Some {
            1nat
        } else {
            0nat
        }
    }
}

/// One of the executions failed with this index and message.
pub open spec fn has_failed(executions: Seq<TaskExecution>, f: (usize, Seq<char>)) -> bool {
    exists|i: int|
        0 <= i < executions.len() && (#[trigger] executions[i]).failure is Some && (
        executions[i].index,
        executions[i].failure->0@,
        ) == f
}

/// The executions by task index are those of the run, each once, and their indexes do not fall.
pub proof fn lemma_by_index_is_the_run(executions: Seq<TaskExecution>)
    requires
        executions.len() <= usize::MAX,
    ensures
        by_index(executions).len() == executions.len(),
        by_index(executions).to_multiset() == executions.to_multiset(),
        forall|i: int, j: int|
            0 <= i < j < executions.len() ==> (#[trigger] by_index(executions)[i]).index <= (
            #[trigger] by_index(executions)[j]).index,
{
    let keys = index_keys(executions);
    let places = order::sort_order_spec(keys);
    let s = by_index(executions);
    order::lemma_sort_order_permutes(keys, executions);
    assert forall|i: int, j: int| 0 <= i < j < executions.len() implies (#[trigger] s[i]).index <= (
    #[trigger] s[j]).index by {
        assert(order::comes_before(keys, places[i] as int, places[j] as int));
        assert(keys[places[i] as int] == s[i].index as u64);
        assert(keys[places[j] as int] == s[j].index as u64);
    }
}

/// The number of failed executions does not hang on their order.
proof fn lemma_failed_count_multiset(a: Seq<TaskExecution>, b: Seq<TaskExecution>)
    requires
        a.to_multiset() == b.to_multiset(),
    ensures
        failed_count(a) == failed_count(b),
    decreases a.len(),
{
    vstd::seq_lib::to_multiset_len(a);
    vstd::seq_lib::to_multiset_len(b);
    if a.len() > 0 {
        let x = a.last();
        assert(a[a.len() - 1] == x);
        vstd::seq_lib::to_multiset_contains(a, x);
        vstd::seq_lib::to_multiset_contains(b, x);
        let k = choose|k: int| 0 <= k < b.len() && b[k] == x;
        vstd::seq_lib::to_multiset_remove(b, k);
        vstd::seq_lib::to_multiset_remove(a, a.len() - 1);
        assert(a.remove(a.len() - 1) =~= a.drop_last());
        lemma_failed_count_multiset(a.drop_last(), b.remove(k));
        lemma_failed_count_remove(b, k);
    }
}

proof fn lemma_failed_count_remove(b: Seq<TaskExecution>, k: int)
    requires
        0 <= k < b.len(),
    ensures
        failed_count(b) == failed_count(b.remove(k)) + if b[k].failure is Some {
            1nat
        } else {
            0nat
        },
    decreases b.len(),
{
    if k == b.len() - 1 {
        assert(b.remove(k) =~= b.drop_last());
    } else {
        lemma_failed_count_remove(b.drop_last(), k);
        assert(b.remove(k).drop_last() =~= b.drop_last().remove(k));
        assert(b.remove(k).last() == b.last());
    }
}

proof fn lemma_failures_in_order(s: Seq<TaskExecution>)
    ensures
        failures_of(s).len() == failed_count(s),
        forall|i: int|
            0 <= i < s.len() && (#[trigger] s[i]).failure is Some ==> failures_of(s).contains(
                (s[i].index, s[i].failure->0@),
            ),
        forall|k: int|
            0 <= k < failures_of(s).len() ==> has_failed(s, #[trigger] failures_of(s)[k]),
    decreases s.len(),
{
    if s.len() > 0 {
        let init = s.drop_last();
        lemma_failures_in_order(init);
        let f = failures_of(s);
        let g = failures_of(init);
        assert forall|i: int|
            0 <= i < s.len() && (#[trigger] s[i]).failure is Some implies f.contains(
            (s[i].index, s[i].failure->0@),
        ) by {
            if i < init.len() {
                assert(init[i] == s[i]);
                let k = choose|k: int| 0 <= k < g.len() && g[k] == (s[i].index, s[i].failure->0@);
                assert(f[k] == g[k]);
            } else {
                assert(f[f.len() - 1] == (s[i].index, s[i].failure->0@));
            }
        }
        assert forall|k: int| 0 <= k < f.len() implies has_failed(s, #[trigger] f[k]) by {
            if k < g.len() {
                assert(f[k] == g[k]);
                let i = choose|i: int|
                    0 <= i < init.len() && (#[trigger] init[i]).failure is Some && (
                    init[i].index,
                    init[i].failure->0@,
                    ) == g[k];
                assert(s[i] == init[i]);
            } else {
                assert(s[s.len() - 1].failure is Some);
            }
        }
    }
}

proof fn lemma_failures_ascend(s: Seq<TaskExecution>)
    requires
        forall|i: int, j: int| 0 <= i < j < s.len() ==> (#[trigger] s[i]).index <= (#[trigger] s[j]).index,
    ensures
        forall|a: int, b: int|
            0 <= a < b < failures_of(s).len() ==> (#[trigger] failures_of(s)[a]).0 <= (
            #[trigger] failures_of(s)[b]).0,
    decreases s.len(),
{
    if s.len() > 0 {
        let init = s.drop_last();
        assert forall|i: int, j: int| 0 <= i < j < init.len() implies (#[trigger] init[i]).index <= (
        #[trigger] init[j]).index by {
            assert(s[i].index <= s[j].index);
        }
        lemma_failures_ascend(init);
        lemma_failures_in_order(init);
        let f = failures_of(s);
        let g = failures_of(init);
        assert forall|a: int, b: int| 0 <= a < b < f.len() implies (#[trigger] f[a]).0 <= (
        #[trigger] f[b]).0 by {
            assert(f[a] == g[a]);
            if b < g.len() {
                assert(f[b] == g[b]);
            } else {
                let i = choose|i: int|
                    0 <= i < init.len() && (#[trigger] init[i]).failure is Some && (
                    init[i].index,
                    init[i].failure->0@,
                    ) == g[a];
                assert(s[i].index <= s[s.len() - 1].index);
            }
        }
    }
}

/// The failures of a run are, by task index, exactly the executions that ended with an error: as many
/// as there are, each with its index and message, and nothing else.
pub proof fn lemma_failures_are_the_failed(executions: Seq<TaskExecution>)
    requires
        executions.len() <= usize::MAX,
    ensures
        ({
            let f = failures_of(by_index(executions));
            &&& f.len() == failed_count(executions)
            &&& forall|i: int|
                0 <= i < executions.len() && (#[trigger] executions[i]).failure is Some
                    ==> f.contains((executions[i].index, executions[i].failure->0@))
            &&& forall|k: int|
                0 <= k < f.len() ==> has_failed(executions, #[trigger] f[k])
            &&& forall|a: int, b: int|
                0 <= a < b < f.len() ==> (#[trigger] f[a]).0 <= (#[trigger] f[b]).0
        }),
{
    let s = by_index(executions);
    let f = failures_of(s);
    lemma_by_index_is_the_run(executions);
    lemma_failed_count_multiset(executions, s);
    lemma_failures_in_order(s);
    lemma_failures_ascend(s);
    assert forall|i: int|
        0 <= i < executions.len() && (#[trigger] executions[i]).failure is Some implies f.contains(
        (executions[i].index, executions[i].failure->0@),
    ) by {
        vstd::seq_lib::to_multiset_contains(executions, executions[i]);
        vstd::seq_lib::to_multiset_contains(s, executions[i]);
        let j = choose|j: int| 0 <= j < s.len() && s[j] == executions[i];
        assert(s[j].failure is Some);
    }
    assert forall|k: int| 0 <= k < f.len() implies has_failed(executions, #[trigger] f[k]) by {
        let j = choose|j: int|
            0 <= j < s.len() && (#[trigger] s[j]).failure is Some && (s[j].index, s[j].failure->0@)
                == f[k];
        vstd::seq_lib::to_multiset_contains(executions, s[j]);
        vstd::seq_lib::to_multiset_contains(s, s[j]);
        let i = choose|i: int| 0 <= i < executions.len() && executions[i] == s[j];
        assert(executions[i].failure is Some);
    }
}

/// How many of the times are those of a failed task.
pub open spec fn not_ok_count(times: Seq<TaskTimes>) -> nat
    decreases times.len(),
{
    if times.len() == 0 {
        0
    } else {
        not_ok_count(times.drop_last()) + if times.last().ok {
            0nat
        } else {
            1nat
        }
    }
}

proof fn lemma_not_ok_count(s: Seq<TaskExecution>)
    ensures
        not_ok_count(s.map_values(|e: TaskExecution| times_of(e))) == failed_count(s),
    decreases s.len(),
{
    if s.len() > 0 {
        lemma_not_ok_count(s.drop_last());
        assert(s.map_values(|e: TaskExecution| times_of(e)).drop_last()
            =~= s.drop_last().map_values(|e: TaskExecution| times_of(e)));
    }
}

/// A run names as many failures as it has times of tasks that are not in order.
pub proof fn lemma_failures_and_times_agree(executions: Seq<TaskExecution>)
    requires
        executions.len() <= usize::MAX,
    ensures
        failures_of(by_index(executions)).len() == not_ok_count(
            by_index(executions).map_values(|e: TaskExecution| times_of(e)),
        ),
{
    lemma_not_ok_count(by_index(executions));
    lemma_failures_in_order(by_index(executions));
}

/// The times of a task add up: it waited from when it was due until it started, worked until it
/// completed, and was offered for both together.
pub proof fn lemma_times_add_up(e: TaskExecution)
    requires
        e.scheduled_at_ns <= e.started_at_ns <= e.completed_at_ns,
    ensures
        times_of(e).index == e.index,
        times_of(e).ok <==> e.failure is None,
        e.scheduled_at_ns + times_of(e).lag_ns == e.started_at_ns,
        e.started_at_ns + times_of(e).service_ns == e.completed_at_ns,
        times_of(e).offered_ns == times_of(e).lag_ns + times_of(e).service_ns,
{
}

/// Times that are the wrong way round count as none.
pub proof fn lemma_no_negative_times(e: TaskExecution)
    ensures
        e.completed_at_ns <= e.scheduled_at_ns ==> times_of(e).offered_ns == 0,
        e.completed_at_ns <= e.started_at_ns ==> times_of(e).service_ns == 0,
        e.started_at_ns <= e.scheduled_at_ns ==> times_of(e).lag_ns == 0,
        e.completed_at_ns >= e.scheduled_at_ns ==> e.scheduled_at_ns + times_of(e).offered_ns
            == e.completed_at_ns,
        times_of(e).ok <==> e.failure is None,
{
}

/// A run ends with the last completion of its tasks: one of them ended then, and none later.
pub proof fn lemma_run_ends_with_the_last(executions: Seq<TaskExecution>)
    ensures
        forall|i: int|
            0 <= i < executions.len() ==> (#[trigger] executions[i]).completed_at_ns
                <= last_completion_spec(executions),
        executions.len() > 0 ==> exists|i: int|
            0 <= i < executions.len() && (#[trigger] executions[i]).completed_at_ns
                == last_completion_spec(executions),
        executions.len() == 0 ==> last_completion_spec(executions) == 0,
    decreases executions.len(),
{
    if executions.len() > 0 {
        let init = executions.drop_last();
        lemma_run_ends_with_the_last(init);
        assert forall|i: int| 0 <= i < executions.len() implies (
        #[trigger] executions[i]).completed_at_ns <= last_completion_spec(executions) by {
            if i < init.len() {
                assert(init[i].completed_at_ns <= last_completion_spec(init));
            }
        }
        if executions.last().completed_at_ns >= last_completion_spec(init) {
            assert(executions[executions.len() - 1].completed_at_ns == last_completion_spec(
                executions,
            ));
        } else {
            let i = choose|i: int|
                0 <= i < init.len() && (#[trigger] init[i]).completed_at_ns == last_completion_spec(
                    init,
                );
            assert(executions[i].completed_at_ns == last_completion_spec(executions));
        }
    }
}

/// The three lists of latencies have one entry for each sample, taken from its own field.
pub proof fn lemma_latencies_by_field(samples: Seq<PacedTaskSample>)
    ensures
        offered_of(samples).len() == samples.len(),
        service_of(samples).len() == samples.len(),
        lag_of(samples).len() == samples.len(),
        forall|i: int|
            0 <= i < samples.len() ==> #[trigger] offered_of(samples)[i]
                == samples[i].offered_latency_ms,
        forall|i: int|
            0 <= i < samples.len() ==> #[trigger] service_of(samples)[i]
                == samples[i].service_latency_ms,
        forall|i: int|
            0 <= i < samples.len() ==> #[trigger] lag_of(samples)[i] == samples[i].schedule_lag_ms,
{
}

/// What a pacer answers at a time: it is done once all tasks are out, waits for a place while the
/// limit is reached, waits for the moment at which the next task is due while that lies ahead, and
/// sends it otherwise.
pub proof fn lemma_pacer_answers(m: PacerModel, now_ns: u64)
    requires
        m.wf(),
    ensures
        m.step_at(now_ns) is AllSent <==> m.sent == m.total,
        m.step_at(now_ns) is AwaitPlace <==> m.sent < m.total && m.sent - m.done.len() == m.limit,
        m.step_at(now_ns) is AwaitTime <==> m.sent < m.total && m.sent - m.done.len() < m.limit
            && now_ns < m.sent * m.period_ns,
        m.step_at(now_ns) matches PacerStep::AwaitTime { until_ns } ==> until_ns == m.sent
            * m.period_ns,
        m.step_at(now_ns) is Send <==> m.sent < m.total && m.sent - m.done.len() < m.limit
            && now_ns >= m.sent * m.period_ns,
        m.after(m.step_at(now_ns)).sent == m.sent + (if m.step_at(now_ns) is Send {
            1nat
        } else {
            0nat
        }),
        m.after(m.step_at(now_ns)).done == m.done,
{
    assert(m.sent * m.period_ns <= m.total * m.period_ns) by (nonlinear_arith)
        requires
            m.sent <= m.total,
    ;
}

/// A run is taken exactly where it has a rate and a place.
pub proof fn lemma_runs_that_are_taken(config: PacedTaskRunConfig)
    ensures
        config_problem(config) is None <==> config.target_ops_per_s.is_positive_spec()
            && config.max_in_flight > 0,
{
}

/// A summary names the first sixteen failures in order.
pub proof fn lemma_first_failures_are_shown(failures: Seq<PacedTaskFailure>)
    ensures
        failure_lines_spec(failures).len() == if failures.len() < 16 {
            failures.len()
        } else {
            16
        },
        forall|i: int|
            0 <= i < failures.len() && i < 16 ==> #[trigger] failure_lines_spec(failures)[i]
                == "index="@ + text::dec(failures[i].index as nat) + ": "@ + failures[i].message@,
{
}

/// The highest core of a list is the end of one of its parts, and no part ends higher.
pub proof fn lemma_highest_core(parts: Seq<Seq<char>>)
    ensures
        match highest_among(parts) {
            Some(n) => {
                &&& exists|i: int| 0 <= i < parts.len() && part_end(#[trigger] parts[i]) == Some(n)
                &&& forall|i: int|
                    0 <= i < parts.len() && part_end(#[trigger] parts[i]) is Some ==> part_end(
                        parts[i],
                    )->0 <= n
            },
            None => forall|i: int| 0 <= i < parts.len() ==> part_end(#[trigger] parts[i]) is None,
        },
    decreases parts.len(),
{
    if parts.len() > 0 {
        let init = parts.drop_last();
        lemma_highest_core(init);
        assert(parts[parts.len() - 1] == parts.last());
        assert forall|i: int|
            0 <= i < parts.len() && part_end(#[trigger] parts[i]) is Some implies highest_among(
            parts,
        ) is Some && part_end(parts[i])->0 <= highest_among(parts)->0 by {
            if i < init.len() {
                assert(init[i] == parts[i]);
            }
        }
        if highest_among(init) is Some {
            let i = choose|i: int|
                0 <= i < init.len() && part_end(#[trigger] init[i]) == highest_among(init);
            assert(parts[i] == init[i]);
        }
        assert forall|i: int| 0 <= i < parts.len() && highest_among(parts) is None implies part_end(
            #[trigger] parts[i],
        ) is None by {
            if i < init.len() {
                assert(init[i] == parts[i]);
            }
        }
    }
}

/// The pacer goes to the configured core, whatever else names one; to the one of the environment only
/// where none is configured; and to one of the list only where neither names one.
pub proof fn lemma_core_is_chosen(
    configured: Option<usize>,
    from_env: Option<Seq<char>>,
    cpulist: Option<Seq<char>>,
)
    ensures
        configured is Some ==> pacer_core_spec(configured, from_env, cpulist) == Some(
            configured->0 as nat,
        ),
        configured is None && from_env is Some && text::number_spec(from_env->0, usize::MAX as nat)
            is Ok ==> pacer_core_spec(configured, from_env, cpulist) == Some(
            text::number_spec(from_env->0, usize::MAX as nat)->Ok_0,
        ),
        configured is None && from_env is None && cpulist is None ==> pacer_core_spec(
            configured,
            from_env,
            cpulist,
        ) is None,
        configured is None && from_env is None && cpulist is Some ==> pacer_core_spec(
            configured,
            from_env,
            cpulist,
        ) == highest_among(text::split_spec(text::trim_spec(cpulist->0), ',')),
{
}

/// A copy of a report differs from it in no figure, sample or failure.
pub proof fn lemma_a_copy_of_a_report(copy: PacedTaskRunReport, report: PacedTaskRunReport)
    requires
        copy.same(report),
    ensures
        copy == (PacedTaskRunReport { samples: copy.samples, failures: copy.failures, ..report }),
        copy.samples@ == report.samples@,
        copy.failures@ == report.failures@,
{
}

/// Where just one thing is wrong with a run, it is told.
pub proof fn lemma_config_problems(config: PacedTaskRunConfig)
    ensures
        ({
            let a = !config.target_ops_per_s.is_positive_spec();
            let b = config.max_in_flight == 0;
            &&& a && !b ==> config_problem(config) == Some("target_ops_per_s must be a finite positive number"@)
            &&& b && !a ==> config_problem(config) == Some("max_in_flight must be greater than zero"@)
        }),
{
}

// ---------------------------------------------------------------------------------------------
// What the functions themselves return
// ---------------------------------------------------------------------------------------------
/// What `run_times` returns of a run: a failure for each execution that failed and none for another, in
/// the order of the tasks, and the times of every execution, as many of them not in order as failed.
pub proof fn lemma_run_times_returns(executions: &Vec<TaskExecution>, r: RunTimes)
    requires
        call_ensures(run_times, (executions,), r),
        executions@.len() <= usize::MAX,
    ensures
        r.failures@.len() == failed_count(executions@),
        forall|i: int|
            0 <= i < executions@.len() && (#[trigger] executions@[i]).failure is Some
                ==> failure_views(r.failures@).contains(
                (executions@[i].index, executions@[i].failure->0@),
            ),
        forall|k: int|
            0 <= k < r.failures@.len() ==> has_failed(
                executions@,
                #[trigger] failure_views(r.failures@)[k],
            ),
        r.times@.len() == executions@.len(),
        not_ok_count(r.times@) == r.failures@.len(),
{
    lemma_failures_are_the_failed(executions@);
    lemma_failures_and_times_agree(executions@);
    assert(failure_views(r.failures@).len() == r.failures@.len());
}

/// What `build_report` returns of a run: the samples and failures that it is given, counted, with the
/// figures of each latency taken from the samples of that latency.
pub proof fn lemma_build_report_returns(
    total_tasks: usize,
    figures: RunFigures,
    samples: Vec<PacedTaskSample>,
    failures: Vec<PacedTaskFailure>,
    r: PacedTaskRunReport,
)
    requires
        call_ensures(build_report, (total_tasks, figures, samples, failures), r),
        0 < samples@.len() <= usize::MAX,
    ensures
        r.total_tasks == total_tasks,
        r.completed_tasks == samples@.len() && r.failed_tasks == failures@.len(),
        r.samples == samples && r.failures == failures,
        r.achieved_ops_per_s == figures.achieved_ops_per_s,
        r.successful_ops_per_s == figures.successful_ops_per_s,
        exists|i: int|
            0 <= i < samples@.len() && (#[trigger] samples@[i]).offered_latency_ms
                == r.offered_latency.max_ms,
        exists|i: int|
            0 <= i < samples@.len() && (#[trigger] samples@[i]).service_latency_ms
                == r.service_latency.max_ms,
        exists|i: int|
            0 <= i < samples@.len() && (#[trigger] samples@[i]).schedule_lag_ms
                == r.schedule_lag.max_ms,
        r.offered_latency.mean_ms == figures.offered_mean_ms,
        r.service_latency.mean_ms == figures.service_mean_ms,
        r.schedule_lag.mean_ms == figures.lag_mean_ms,
{
    crate::latency::lemma_summary_is_of_samples(offered_of(samples@), figures.offered_mean_ms);
    crate::latency::lemma_summary_is_of_samples(service_of(samples@), figures.service_mean_ms);
    crate::latency::lemma_summary_is_of_samples(lag_of(samples@), figures.lag_mean_ms);
    let a = offered_of(samples@);
    let i = choose|i: int| 0 <= i < a.len() && a[i] == r.offered_latency.max_ms;
    assert(samples@[i].offered_latency_ms == r.offered_latency.max_ms);
    let b = service_of(samples@);
    let j = choose|j: int| 0 <= j < b.len() && b[j] == r.service_latency.max_ms;
    assert(samples@[j].service_latency_ms == r.service_latency.max_ms);
    let c = lag_of(samples@);
    let k = choose|k: int| 0 <= k < c.len() && c[k] == r.schedule_lag.max_ms;
    assert(samples@[k].schedule_lag_ms == r.schedule_lag.max_ms);
}

} // verus!
