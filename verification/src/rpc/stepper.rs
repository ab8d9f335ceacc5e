//! One run of an interactive test as a state machine. It is handed the
//! server's answer to the last request and says which request comes next, or
//! that the run is over. Sending the requests is left to the caller.
use crate::clock::no_time;
use crate::driver::Driver;
use crate::driver::State;
use crate::driver::Step;
use crate::driver::StepView;
use crate::driver::check_step;
use crate::driver::shows_mismatch;
use crate::driver::step_allows;
use crate::driver::take_step;
use crate::error::Error;
use crate::error::ErrorView;
use crate::error::RpcError;
use crate::error::RpcErrorView;
use crate::error::StepContext;
use crate::json::Json;
use crate::json::JsonView;
use crate::json::itf_from_json;
use crate::json::itf_of_json;
use crate::json::json_member;
use crate::rpc::config::InteractiveConfig;
use crate::rpc::types::AssumeStateParams;
use crate::rpc::types::AssumeStateResult;
use crate::rpc::types::AssumeTransitionParams;
use crate::rpc::types::AssumeTransitionResult;
use crate::rpc::types::DisposeSpecParams;
use crate::rpc::types::DisposeSpecResult;
use crate::rpc::types::LoadSpecParams;
use crate::rpc::types::LoadSpecResult;
use crate::rpc::types::NextStepParams;
use crate::rpc::types::NextStepResult;
use crate::rpc::types::QueryParams;
use crate::rpc::types::QueryResult;
use crate::rpc::types::RollbackParams;
use crate::rpc::types::RollbackResult;
use crate::rpc::types::Transition;
use crate::rpc::types::TransitionStatus;
use crate::text::add_capped;
use crate::text::capped;
use crate::text::texts_of;
use crate::value::ItfValue;
use crate::value::ItfView;
use crate::value::record_field;
use rand::seq::SliceRandom;
use rand::SeedableRng;
use vstd::prelude::*;
use vstd::std_specs::cmp::PartialEqSpec;

verus! {

/// What an interactive test has done.
#[derive(Debug, Clone)]
pub struct InteractiveStats {
    /// How many runs came to their end without a failure.
    pub runs_completed: usize,
    /// How many steps the drivers took in all runs together.
    pub total_steps: usize,
    /// How many runs ended because no transition was enabled.
    pub deadlocks_hit: usize,
    /// How long the test took.
    pub duration: core::time::Duration,
}

/// What is told to the progress callback before each step.
#[derive(Debug, Clone)]
pub struct InteractiveProgress {
    /// The run, counted from 0.
    pub run_index: usize,
    /// How many runs the test makes.
    pub total_runs: usize,
    /// The step within the run, counted from 0.
    pub step_index: usize,
    /// The action of the step.
    pub action: String,
}

/// Whether the callback, if there is one, may be called with any progress.
pub open spec fn always_callable<P: Fn(InteractiveProgress)>(progress: Option<P>) -> bool {
    match progress {
        Some(f) => forall|p: InteractiveProgress| call_requires(f, (p,)),
        None => true,
    }
}

impl Default for InteractiveStats {
    /// The statistics of a test that has not begun.
    fn default() -> (r: Self)
        ensures
            r.runs_completed == 0,
            r.total_steps == 0,
            r.deadlocks_hit == 0,
    {
        InteractiveStats { runs_completed: 0, total_steps: 0, deadlocks_hit: 0, duration: no_time() }
    }
}

impl InteractiveStats {
    /// Adds a run that has ended to the statistics: its steps, its deadlock
    /// if it ended in one, and the run itself if it did not fail. A run that
    /// failed hands its failure back. Every count goes as far as the machine
    /// counts.
    pub fn record<D>(&mut self, report: RunReport<D>) -> (r: Result<(), Error>)
        ensures
            (*final(self), r is Ok) == recorded(
                *old(self),
                report.steps,
                report.deadlocked,
                report.failure is Some,
            ),
            final(self).total_steps == capped(old(self).total_steps + report.steps),
            final(self).deadlocks_hit == capped(
                old(self).deadlocks_hit + (if report.deadlocked {
                    1int
                } else {
                    0int
                }),
            ),
            final(self).duration == old(self).duration,
            match report.failure {
                Some(e) => r == Err::<(), Error>(e) && final(self).runs_completed == old(
                    self,
                ).runs_completed,
                None => r is Ok && final(self).runs_completed == capped(
                    old(self).runs_completed + 1,
                ),
            },
    {
        self.total_steps = add_capped(self.total_steps, report.steps);
        if report.deadlocked {
            self.deadlocks_hit = add_capped(self.deadlocks_hit, 1);
        }
        match report.failure {
            Some(e) => Err(e),
            None => {
                self.runs_completed = add_capped(self.runs_completed, 1);
                Ok(())
            },
        }
    }
}

/// What the test does after a run.
#[derive(Debug)]
pub enum AfterRun {
    /// The run with this number is made next.
    NextRun(usize),
    /// Every run was made, and none failed: the test has passed.
    Passed,
    /// A run failed, which ends the test with the failure of that run.
    Failed(Error),
}

/// The number of the first run of a test with `num_runs` runs, if it has a
/// run at all.
pub fn first_run(num_runs: usize) -> (run: Option<usize>)
    ensures
        run == (if num_runs > 0 {
            Some(0usize)
        } else {
            None
        }),
{
    if num_runs > 0 {
        Some(0)
    } else {
        None
    }
}

/// Adds the run with number `run`, which has ended, to the statistics, and
/// says what the test does next: a run that failed ends the test with its
/// failure, and after a run that did not, the next run is made until
/// `num_runs` runs were made.
pub fn after_run<D>(
    stats: &mut InteractiveStats,
    report: RunReport<D>,
    run: usize,
    num_runs: usize,
) -> (next: AfterRun)
    ensures
        (*final(stats), report.failure is None) == recorded(
            *old(stats),
            report.steps,
            report.deadlocked,
            report.failure is Some,
        ),
        match report.failure {
            Some(e) => next == AfterRun::Failed(e),
            None => if run < usize::MAX && run + 1 < num_runs {
                next == AfterRun::NextRun((run + 1) as usize)
            } else {
                next is Passed
            },
        },
{
    match stats.record(report) {
        Err(e) => AfterRun::Failed(e),
        Ok(_) => {
            if run < usize::MAX && run + 1 < num_runs {
                AfterRun::NextRun(run + 1)
            } else {
                AfterRun::Passed
            }
        },
    }
}

/// The statistics after a run was recorded that took `steps` steps, and
/// whether the run counts as completed.
pub open spec fn recorded(stats: InteractiveStats, steps: usize, deadlocked: bool, failed: bool) -> (
    InteractiveStats,
    bool,
) {
    (
        InteractiveStats {
            runs_completed: if failed {
                stats.runs_completed
            } else {
                capped(stats.runs_completed + 1)
            },
            total_steps: capped(stats.total_steps + steps),
            deadlocks_hit: if deadlocked {
                capped(stats.deadlocks_hit + 1)
            } else {
                stats.deadlocks_hit
            },
            duration: stats.duration,
        },
        !failed,
    )
}

/// The statistics after the runs `runs` were recorded in order, none of
/// which failed; each run is its number of steps and whether it ended in a
/// deadlock.
pub open spec fn recorded_all(stats: InteractiveStats, runs: Seq<(usize, bool)>) -> InteractiveStats
    decreases runs.len(),
{
    if runs.len() == 0 {
        stats
    } else {
        recorded(recorded_all(stats, runs.drop_last()), runs.last().0, runs.last().1, false).0
    }
}

/// The steps of all of `runs` together.
pub open spec fn steps_of(runs: Seq<(usize, bool)>) -> nat
    decreases runs.len(),
{
    if runs.len() == 0 {
        0
    } else {
        steps_of(runs.drop_last()) + runs.last().0 as nat
    }
}

/// How many of `runs` ended in a deadlock.
pub open spec fn deadlocks_of(runs: Seq<(usize, bool)>) -> nat
    decreases runs.len(),
{
    if runs.len() == 0 {
        0
    } else if runs.last().1 {
        deadlocks_of(runs.drop_last()) + 1
    } else {
        deadlocks_of(runs.drop_last())
    }
}

/// A test whose runs all end without a failure, by a deadlock or at the
/// step limit, counts every run as completed, every deadlock, and the steps
/// of all runs, as far as the machine counts.
pub proof fn lemma_statistics_are_sums(stats: InteractiveStats, runs: Seq<(usize, bool)>)
    ensures
        recorded_all(stats, runs).runs_completed == capped(stats.runs_completed + runs.len()),
        recorded_all(stats, runs).deadlocks_hit == capped(stats.deadlocks_hit + deadlocks_of(runs)),
        recorded_all(stats, runs).total_steps == capped(stats.total_steps + steps_of(runs)),
        recorded_all(stats, runs).duration == stats.duration,
    decreases runs.len(),
{
    if runs.len() > 0 {
        lemma_statistics_are_sums(stats, runs.drop_last());
    }
}

/// Whether the constants have to be assumed before the initial transition:
/// they are an object with at least one member.
pub open spec fn constants_needed(constants: JsonView) -> bool {
    constants matches JsonView::Object(members) && members.len() > 0
}

/// The last state of a queried trace: the last element of the array under
/// `states`.
pub open spec fn last_state_of(trace: JsonView) -> Result<JsonView, ErrorView> {
    match json_member(trace, "states"@) {
        Some(JsonView::Array(states)) => if states.len() == 0 {
            Err(ErrorView::Rpc(RpcErrorView::EmptyTrace))
        } else {
            Ok(states.last())
        },
        _ => Err(ErrorView::Rpc(RpcErrorView::MissingStates)),
    }
}

/// The action that a queried state names under `action_taken`; `unknown`
/// where it names none.
pub open spec fn action_of(state: JsonView) -> Seq<char> {
    match json_member(state, "action_taken"@) {
        Some(JsonView::String(action)) => action,
        _ => "unknown"@,
    }
}

/// The nondeterministic picks that a state holds under `nondet_picks`; the
/// empty tuple where it holds none.
pub open spec fn picks_of(state: ItfView) -> ItfView {
    match record_field(state, "nondet_picks"@) {
        Some(picks) => picks,
        None => ItfView::Tuple(Seq::empty()),
    }
}

/// Takes the last state out of a queried trace.
pub fn extract_last_state(trace: &Json) -> (r: Result<Json, Error>)
    ensures
        match r {
            Ok(state) => last_state_of(trace@) == Ok::<JsonView, ErrorView>(state@),
            Err(e) => last_state_of(trace@) == Err::<JsonView, ErrorView>(e@),
        },
{
    let states = match trace.get("states") {
        Some(states) => states,
        None => {
            return Err(Error::Rpc(RpcError::MissingStates));
        },
    };
    match states.as_array() {
        None => Err(Error::Rpc(RpcError::MissingStates)),
        Some(items) => {
            if items.len() == 0 {
                Err(Error::Rpc(RpcError::EmptyTrace))
            } else {
                Ok(items[items.len() - 1].clone())
            }
        },
    }
}

/// Reads a queried state as a value of the trace format.
pub fn json_state_to_itf(state: &Json) -> (r: Result<ItfValue, Error>)
    ensures
        match r {
            Ok(value) => itf_of_json(state@) == Ok::<ItfView, Seq<char>>(value@),
            Err(e) => itf_of_json(state@) is Err && e@ == ErrorView::Rpc(
                RpcErrorView::StateConversion(itf_of_json(state@)->Err_0),
            ),
        },
{
    match itf_from_json(state) {
        Ok(value) => Ok(value),
        Err(reason) => Err(Error::Rpc(RpcError::StateConversion(reason))),
    }
}

/// The action that a queried state names.
pub fn extract_action(state: &Json) -> (action: String)
    ensures
        action@ == action_of(state@),
{
    match state.get("action_taken") {
        Some(value) => match value.as_str() {
            Some(action) => action.to_owned(),
            None => "unknown".to_owned(),
        },
        None => "unknown".to_owned(),
    }
}

/// The nondeterministic picks that a state holds.
pub fn extract_nondet(state: &ItfValue) -> (picks: ItfValue)
    ensures
        picks@ == picks_of(state@),
{
    match state.field("nondet_picks") {
        Some(picks) => picks.clone(),
        None => ItfValue::unit(),
    }
}

/// `rand`'s standard generator, which is carried through and never looked
/// into.
#[verifier::external_type_specification]
#[verifier::external_body]
pub struct ExStdRng(rand::rngs::StdRng);

/// The generator that `StdRng::seed_from_u64` makes of `seed`.
pub uninterp spec fn rng_of_seed(seed: u64) -> rand::rngs::StdRng;

/// The order into which a generator in the state `rng` brings `items`.
pub uninterp spec fn shuffled_by(rng: rand::rngs::StdRng, items: Seq<u32>) -> Seq<u32>;

/// The state in which a generator is after it has brought `items` into a
/// random order from the state `rng`.
pub uninterp spec fn rng_after_shuffle(
    rng: rand::rngs::StdRng,
    items: Seq<u32>,
) -> rand::rngs::StdRng;

/// A generator from `StdRng::seed_from_u64`, which makes it of the seed
/// alone: equal seeds give generators that choose alike.
#[verifier::external_body]
fn seeded_rng(seed: u64) -> (rng: rand::rngs::StdRng)
    ensures
        rng == rng_of_seed(seed),
{
    rand::rngs::StdRng::seed_from_u64(seed)
}

/// A generator that is seeded from the thread's own generator, and so
/// chooses differently from run to run.
#[verifier::external_body]
fn entropy_rng() -> rand::rngs::StdRng {
    rand::rngs::StdRng::from_rng(&mut rand::rng())
}

/// Brings `items` into a random order with `SliceRandom::shuffle`, which
/// only swaps them: the same items, each as often as before. The order and
/// the state in which the generator is left depend on the state of the
/// generator and on the items alone.
#[verifier::external_body]
fn shuffle(items: &mut Vec<u32>, rng: &mut rand::rngs::StdRng)
    ensures
        final(items)@.to_multiset() == old(items)@.to_multiset(),
        final(items)@ == shuffled_by(*old(rng), old(items)@),
        *final(rng) == rng_after_shuffle(*old(rng), old(items)@),
{
    items.shuffle(rng)
}

/// The source of the random choices of a test. With a seed it is the
/// generator of that seed, so that a test with the same seed chooses as it
/// chose before; without one it is seeded from the entropy of the machine.
pub fn make_rng(seed: Option<u64>) -> (rng: rand::rngs::StdRng)
    ensures
        seed matches Some(s) ==> rng == rng_of_seed(s),
{
    match seed {
        Some(seed) => seeded_rng(seed),
        None => entropy_rng(),
    }
}

/// A request to the server.
#[derive(Debug)]
pub enum Request {
    LoadSpec(LoadSpecParams),
    AssumeState(AssumeStateParams),
    AssumeTransition(AssumeTransitionParams),
    NextStep(NextStepParams),
    Rollback(RollbackParams),
    Query(QueryParams),
    DisposeSpec(DisposeSpecParams),
}

/// What a [`Request`] asks for.
pub enum RequestView {
    LoadSpec { sources: Seq<Seq<char>>, init: Seq<char>, next: Seq<char>, invariants: Seq<Seq<char>> },
    AssumeState { session_id: Seq<char>, equalities: JsonView, check_enabled: bool },
    AssumeTransition { session_id: Seq<char>, transition_id: u32, check_enabled: bool },
    NextStep { session_id: Seq<char> },
    Rollback { session_id: Seq<char>, snapshot_id: u64 },
    Query { session_id: Seq<char>, kinds: Seq<Seq<char>> },
    DisposeSpec { session_id: Seq<char> },
}

impl View for Request {
    type V = RequestView;

    open spec fn view(&self) -> RequestView {
        match self {
            Request::LoadSpec(p) => RequestView::LoadSpec {
                sources: texts_of(p.sources@),
                init: p.init@,
                next: p.next@,
                invariants: texts_of(p.invariants@),
            },
            Request::AssumeState(p) => RequestView::AssumeState {
                session_id: p.session_id@,
                equalities: p.equalities@,
                check_enabled: p.check_enabled,
            },
            Request::AssumeTransition(p) => RequestView::AssumeTransition {
                session_id: p.session_id@,
                transition_id: p.transition_id,
                check_enabled: p.check_enabled,
            },
            Request::NextStep(p) => RequestView::NextStep { session_id: p.session_id@ },
            Request::Rollback(p) => RequestView::Rollback {
                session_id: p.session_id@,
                snapshot_id: p.snapshot_id,
            },
            Request::Query(p) => RequestView::Query {
                session_id: p.session_id@,
                kinds: texts_of(p.kinds@),
            },
            Request::DisposeSpec(p) => RequestView::DisposeSpec { session_id: p.session_id@ },
        }
    }
}

impl RequestView {
    /// The name of the remote method that serves the request.
    pub open spec fn method(self) -> Seq<char> {
        match self {
            RequestView::LoadSpec { .. } => "loadSpec"@,
            RequestView::AssumeState { .. } => "assumeState"@,
            RequestView::AssumeTransition { .. } => "assumeTransition"@,
            RequestView::NextStep { .. } => "nextStep"@,
            RequestView::Rollback { .. } => "rollback"@,
            RequestView::Query { .. } => "query"@,
            RequestView::DisposeSpec { .. } => "disposeSpec"@,
        }
    }
}

impl Request {
    /// The name of the remote method that serves the request.
    pub fn method(&self) -> (name: &'static str)
        ensures
            name@ == self@.method(),
    {
        match self {
            Request::LoadSpec(_) => "loadSpec",
            Request::AssumeState(_) => "assumeState",
            Request::AssumeTransition(_) => "assumeTransition",
            Request::NextStep(_) => "nextStep",
            Request::Rollback(_) => "rollback",
            Request::Query(_) => "query",
            Request::DisposeSpec(_) => "disposeSpec",
        }
    }
}

/// An answer of the server.
#[derive(Debug)]
pub enum Response {
    SpecLoaded(LoadSpecResult),
    StateAssumed(AssumeStateResult),
    TransitionAssumed(AssumeTransitionResult),
    StepAdvanced(NextStepResult),
    RolledBack(RollbackResult),
    Queried(QueryResult),
    Disposed(DisposeSpecResult),
}

/// What a run reads from the outcome of a request.
pub enum EventView {
    /// The request failed.
    Failed(ErrorView),
    SpecLoaded { session_id: Seq<char>, init_indices: Seq<u32>, next_indices: Seq<u32> },
    StateAssumed { status: TransitionStatus },
    TransitionAssumed { status: TransitionStatus },
    StepAdvanced { snapshot_id: u64 },
    RolledBack,
    Queried { trace: Option<JsonView> },
    Disposed,
}

/// The numbers of a sequence of transitions.
pub open spec fn indices_of(transitions: Seq<Transition>) -> Seq<u32> {
    Seq::new(transitions.len(), |i: int| transitions[i].index)
}

/// The view of a JSON value that may be absent.
pub open spec fn optional_json(value: Option<Json>) -> Option<JsonView> {
    match value {
        Some(v) => Some(v@),
        None => None,
    }
}

/// What a run reads from the outcome of a request.
pub open spec fn event_view(event: Result<Response, Error>) -> EventView {
    match event {
        Err(e) => EventView::Failed(e@),
        Ok(Response::SpecLoaded(r)) => EventView::SpecLoaded {
            session_id: r.session_id@,
            init_indices: indices_of(r.spec_parameters.init_transitions@),
            next_indices: indices_of(r.spec_parameters.next_transitions@),
        },
        Ok(Response::StateAssumed(r)) => EventView::StateAssumed { status: r.status },
        Ok(Response::TransitionAssumed(r)) => EventView::TransitionAssumed { status: r.status },
        Ok(Response::StepAdvanced(r)) => EventView::StepAdvanced { snapshot_id: r.snapshot_id },
        Ok(Response::RolledBack(_)) => EventView::RolledBack,
        Ok(Response::Queried(r)) => EventView::Queried { trace: optional_json(r.trace) },
        Ok(Response::Disposed(_)) => EventView::Disposed,
    }
}

/// Where a run stands: the request whose answer it waits for.
#[derive(Debug, Clone, Copy, PartialEq, Eq, Structural)]
pub enum Phase {
    /// The specification is being loaded.
    Loading,
    /// The constants are being assumed.
    AssumingConstants,
    /// The initial transition is being assumed.
    AssumingInit,
    /// The session is being advanced by the transition that was assumed.
    Advancing,
    /// The trace is being queried for the state that the step has led to.
    Querying,
    /// A candidate transition is being probed.
    Probing,
    /// The session is being rolled back after a probe found its transition
    /// disabled.
    RollingBack,
    /// The session is being disposed; the outcome of the run is decided.
    Disposing,
}

/// One run of an interactive test, between two requests.
pub struct Stepper<D> {
    /// The implementation under test.
    pub driver: D,
    /// The number of the run, counted from 0.
    pub run: usize,
    /// How many runs the test makes.
    pub total_runs: usize,
    /// The largest number of steps in the run.
    pub max_steps: usize,
    /// The values of the constants.
    pub constants: Json,
    /// The request whose answer the run waits for.
    pub phase: Phase,
    /// The session that the server has opened for the run.
    pub session: String,
    /// The number of the initial transition to take.
    pub init_index: u32,
    /// The numbers of the transitions that may follow.
    pub next_indices: Vec<u32>,
    /// The snapshot to roll back to after a probe.
    pub snapshot: u64,
    /// The number of the step that is being made, counted from 0.
    pub step_index: usize,
    /// The transitions to probe for the present step, in the order of the
    /// probes.
    pub candidates: Vec<u32>,
    /// The place among the candidates of the one that is being probed.
    pub probe: usize,
    /// How many steps the driver has taken and passed.
    pub steps_taken: usize,
    /// Whether the run has ended because no transition was enabled.
    pub deadlocked: bool,
    /// The failure of the run, once there is one.
    pub failure: Option<Error>,
}

/// What a [`Stepper`] holds. A failure is held without the text of a diff.
pub struct StepperView<D> {
    pub driver: D,
    pub run: usize,
    pub total_runs: usize,
    pub max_steps: usize,
    pub constants: JsonView,
    pub phase: Phase,
    pub session: Seq<char>,
    pub init_index: u32,
    pub next_indices: Seq<u32>,
    pub snapshot: u64,
    pub step_index: usize,
    pub candidates: Seq<u32>,
    pub probe: usize,
    pub steps_taken: usize,
    pub deadlocked: bool,
    pub failure: Option<ErrorView>,
}

/// An error that may be absent, without the text of a diff.
pub open spec fn failure_view(failure: Option<Error>) -> Option<ErrorView> {
    match failure {
        Some(e) => Some(e@.without_diff()),
        None => None,
    }
}

impl<D> View for Stepper<D> {
    type V = StepperView<D>;

    open spec fn view(&self) -> StepperView<D> {
        StepperView {
            driver: self.driver,
            run: self.run,
            total_runs: self.total_runs,
            max_steps: self.max_steps,
            constants: self.constants@,
            phase: self.phase,
            session: self.session@,
            init_index: self.init_index,
            next_indices: self.next_indices@,
            snapshot: self.snapshot,
            step_index: self.step_index,
            candidates: self.candidates@,
            probe: self.probe,
            steps_taken: self.steps_taken,
            deadlocked: self.deadlocked,
            failure: failure_view(self.failure),
        }
    }
}

/// How a run has ended.
pub struct RunReport<D> {
    /// The implementation under test, as the run has left it.
    pub driver: D,
    /// How many steps the driver has taken and passed.
    pub steps: usize,
    /// Whether the run has ended because no transition was enabled.
    pub deadlocked: bool,
    /// The failure of the run, if it has failed.
    pub failure: Option<Error>,
}

/// What comes after an answer of the server.
pub enum Advance<D> {
    /// The run goes on with this request.
    Call(Stepper<D>, Request),
    /// The run is over.
    Finished(RunReport<D>),
}

/// What an [`Advance`] holds.
pub enum AdvanceView<D> {
    Call(StepperView<D>, RequestView),
    Finished { driver: D, steps: usize, deadlocked: bool, failure: Option<ErrorView> },
}

impl<D> View for Advance<D> {
    type V = AdvanceView<D>;

    open spec fn view(&self) -> AdvanceView<D> {
        match self {
            Advance::Call(stepper, request) => AdvanceView::Call(stepper@, request@),
            Advance::Finished(report) => AdvanceView::Finished {
                driver: report.driver,
                steps: report.steps,
                deadlocked: report.deadlocked,
                failure: failure_view(report.failure),
            },
        }
    }
}

/// `n + 1`, or `n` where that is the largest count.
pub open spec fn counted(n: usize) -> usize {
    if n < usize::MAX {
        (n + 1) as usize
    } else {
        n
    }
}

/// The error for an answer that does not belong to the request that the run
/// waits for.
pub open spec fn unexpected_response() -> ErrorView {
    ErrorView::Rpc(RpcErrorView::ResultDeserialize("unexpected response"@))
}

/// The run ends: the session is disposed, and the outcome is kept until the
/// server has answered.
pub open spec fn disposing<D>(s: StepperView<D>, failure: Option<ErrorView>, deadlocked: bool) -> AdvanceView<
    D,
> {
    AdvanceView::Call(
        StepperView { phase: Phase::Disposing, failure, deadlocked, ..s },
        RequestView::DisposeSpec { session_id: s.session },
    )
}

/// The run assumes the initial transition.
pub open spec fn assuming_init<D>(s: StepperView<D>) -> AdvanceView<D> {
    AdvanceView::Call(
        StepperView { phase: Phase::AssumingInit, ..s },
        RequestView::AssumeTransition {
            session_id: s.session,
            transition_id: s.init_index,
            check_enabled: true,
        },
    )
}

/// The run advances the session by the transition that was assumed.
pub open spec fn advancing<D>(s: StepperView<D>) -> AdvanceView<D> {
    AdvanceView::Call(
        StepperView { phase: Phase::Advancing, ..s },
        RequestView::NextStep { session_id: s.session },
    )
}

/// The run is over, and nothing is left to dispose.
pub open spec fn finished<D>(s: StepperView<D>, failure: Option<ErrorView>) -> AdvanceView<D> {
    AdvanceView::Finished {
        driver: s.driver,
        steps: s.steps_taken,
        deadlocked: s.deadlocked,
        failure,
    }
}

/// The step that a queried trace holds for the step with number
/// `step_index`: its last state, with the action and the picks that the
/// state names. The first step of a run is the action `init` with no picks,
/// whatever the state names.
pub open spec fn queried_step(trace: Option<JsonView>, step_index: usize) -> Result<
    StepView,
    ErrorView,
> {
    match trace {
        None => Err(ErrorView::Rpc(RpcErrorView::MissingStates)),
        Some(trace) => match last_state_of(trace) {
            Err(e) => Err(e),
            Ok(state_json) => match itf_of_json(state_json) {
                Err(reason) => Err(ErrorView::Rpc(RpcErrorView::StateConversion(reason))),
                Ok(state) => if step_index == 0 {
                    Ok(
                        StepView {
                            action_taken: "init"@,
                            nondet_picks: ItfView::Tuple(Seq::empty()),
                            state,
                        },
                    )
                } else {
                    Ok(
                        StepView {
                            action_taken: action_of(state_json),
                            nondet_picks: picks_of(state),
                            state,
                        },
                    )
                },
            },
        },
    }
}

/// What follows a step that the driver has taken and that was checked with
/// the outcome `failure`. After a step that passed, the run goes on to the
/// next step while the limit allows one: it probes the transitions in the
/// order `shuffled`, the first at once, and where there is none to probe the
/// run is deadlocked. A failure, the limit and a deadlock end the run.
pub open spec fn after_checked_step<D: Driver>(
    s: StepperView<D>,
    step: StepView,
    failure: Option<ErrorView>,
    shuffled: Seq<u32>,
) -> AdvanceView<D> {
    let stepped = StepperView { driver: s.driver.after_step(step), ..s };
    if failure is Some {
        disposing(stepped, failure, s.deadlocked)
    } else {
        let passed = StepperView {
            steps_taken: counted(s.steps_taken),
            step_index: counted(s.step_index),
            ..stepped
        };
        if passed.step_index < s.max_steps {
            let probing = StepperView { candidates: shuffled, probe: 0, ..passed };
            if shuffled.len() == 0 {
                disposing(probing, None, true)
            } else {
                AdvanceView::Call(
                    StepperView { phase: Phase::Probing, ..probing },
                    RequestView::AssumeTransition {
                        session_id: s.session,
                        transition_id: shuffled[0],
                        check_enabled: true,
                    },
                )
            }
        } else {
            disposing(passed, None, s.deadlocked)
        }
    }
}

/// What follows the answer to a query, for a state type whose `==` is the
/// relation `eq_spec`. A trace that holds no step ends the run. Else the
/// driver takes the step that the trace holds, its state is compared, and
/// the run goes on as after any checked step.
pub open spec fn after_query<D: Driver>(
    s: StepperView<D>,
    trace: Option<JsonView>,
    shuffled: Seq<u32>,
) -> AdvanceView<D> {
    match queried_step(trace, s.step_index) {
        Err(e) => disposing(s, Some(e), s.deadlocked),
        Ok(step) => after_checked_step(
            s,
            step,
            check_step(s.driver, step, StepContext::Rpc { run: s.run, step: s.step_index }).1,
            shuffled,
        ),
    }
}

/// Whether `next` may follow the answer to a query. It follows as
/// `after_query` says, with the one thing left open that the comparison of
/// the two states may say either for a state type whose `==` is not the
/// relation `eq_spec`.
pub open spec fn query_allows<D: Driver>(
    s: StepperView<D>,
    trace: Option<JsonView>,
    shuffled: Seq<u32>,
    next: AdvanceView<D>,
) -> bool {
    match queried_step(trace, s.step_index) {
        Err(e) => next == disposing(s, Some(e), s.deadlocked),
        Ok(step) => exists|failure: Option<ErrorView>| #[trigger]
            step_allows(
                s.driver,
                step,
                StepContext::Rpc { run: s.run, step: s.step_index },
                failure,
            ) && next == after_checked_step(s, step, failure, shuffled),
    }
}

/// Whether `next` may follow the outcome of the last request: as
/// `advance_model` says, and after the answer to a query as `query_allows`
/// says.
pub open spec fn advance_allows<D: Driver>(
    s: StepperView<D>,
    event: EventView,
    shuffled: Seq<u32>,
    next: AdvanceView<D>,
) -> bool {
    if s.phase == Phase::Querying && event is Queried {
        query_allows(s, event->trace, shuffled, next)
    } else {
        next == advance_model(s, event, shuffled)
    }
}

/// Whether the answer `event` may make the run draw an order for its
/// probes: it answers a query with a trace that holds a step, and the limit
/// allows a step after that one.
pub open spec fn may_draw<D>(s: StepperView<D>, event: EventView) -> bool {
    &&& s.phase == Phase::Querying
    &&& event is Queried
    &&& queried_step(event->trace, s.step_index) is Ok
    &&& counted(s.step_index) < s.max_steps
}

/// Whether `next` ends a run on a failure: the run disposes of its session
/// and holds a failure, or it is over with one.
pub open spec fn stops_on_failure<D>(next: AdvanceView<D>) -> bool {
    match next {
        AdvanceView::Call(stepper, _) => stepper.phase == Phase::Disposing && stepper.failure is Some,
        AdvanceView::Finished { failure, .. } => failure is Some,
    }
}

/// The state in which the generator is after the run has taken the outcome
/// `event` and gone on to `next`: the run draws one order for its probes
/// after a step that passed, where it may draw at all, and leaves the
/// generator alone else.
pub open spec fn rng_after<D>(
    s: StepperView<D>,
    event: EventView,
    rng: rand::rngs::StdRng,
    next: AdvanceView<D>,
) -> rand::rngs::StdRng {
    if may_draw(s, event) && !stops_on_failure(next) {
        rng_after_shuffle(rng, s.next_indices)
    } else {
        rng
    }
}

/// What a run does with the outcome of its last request, and the state in
/// which it leaves the generator, for a state type whose `==` is the
/// relation `eq_spec`. Both depend on the run, the outcome and the
/// generator alone: a run that is given the same answers from the same seed
/// probes the same transitions in the same order.
pub open spec fn advance_with<D: Driver>(
    s: StepperView<D>,
    event: EventView,
    rng: rand::rngs::StdRng,
) -> (AdvanceView<D>, rand::rngs::StdRng) {
    let next = advance_model(s, event, shuffled_by(rng, s.next_indices));
    (next, rng_after(s, event, rng, next))
}

/// The failure that a step of a run holds: the failure of a run that goes
/// on, or of a run that is over.
pub open spec fn held_failure<D>(next: Advance<D>) -> Option<Error> {
    match next {
        Advance::Call(stepper, _) => stepper.failure,
        Advance::Finished(report) => report.failure,
    }
}

/// The driver that a step of a run holds.
pub open spec fn driver_in<D>(next: AdvanceView<D>) -> D {
    match next {
        AdvanceView::Call(stepper, _) => stepper.driver,
        AdvanceView::Finished { driver, .. } => driver,
    }
}

/// Whether a mismatch that the answer `event` to a query brings to light
/// carries as its diff the report of the two states that were compared: the
/// state that the queried trace holds, and the comparable state of the
/// driver as the step has left it.
pub open spec fn query_shows_mismatch<D: Driver>(
    s: StepperView<D>,
    event: EventView,
    next: Advance<D>,
) -> bool {
    s.phase == Phase::Querying && event is Queried && s.failure is None ==> (held_failure(
        next,
    ) matches Some(e) ==> shows_mismatch(
        e,
        queried_step(event->trace, s.step_index)->Ok_0.state,
        driver_in(next@),
    ))
}

/// Whether a failure that may be absent, where it is a mismatch, carries
/// the report of the mismatch as its diff.
pub open spec fn reported(failure: Option<Error>) -> bool {
    failure matches Some(e) ==> e@.carries_report()
}

/// What follows the answer to the request that loaded the specification. A
/// failure ends the run at once, since no session was opened. Else the run
/// keeps the session and the transitions, and assumes the constants where
/// there are any, or the initial transition.
pub open spec fn after_loading<D>(s: StepperView<D>, event: EventView) -> AdvanceView<D> {
    match event {
        EventView::SpecLoaded { session_id, init_indices, next_indices } => {
            let loaded = StepperView {
                session: session_id,
                init_index: if init_indices.len() > 0 {
                    init_indices[0]
                } else {
                    0
                },
                next_indices,
                ..s
            };
            if constants_needed(s.constants) {
                AdvanceView::Call(
                    StepperView { phase: Phase::AssumingConstants, ..loaded },
                    RequestView::AssumeState {
                        session_id,
                        equalities: s.constants,
                        check_enabled: true,
                    },
                )
            } else {
                assuming_init(loaded)
            }
        },
        EventView::Failed(e) => finished(s, Some(e.without_diff())),
        _ => finished(s, Some(unexpected_response())),
    }
}

/// What follows an answer of the server while a session is open, other than
/// the answer to a query.
pub open spec fn after_answer<D>(s: StepperView<D>, event: EventView) -> AdvanceView<D> {
    match (s.phase, event) {
        (_, EventView::Failed(e)) => disposing(s, Some(e.without_diff()), s.deadlocked),
        (Phase::AssumingConstants, EventView::StateAssumed { status }) => if status
            == TransitionStatus::Enabled {
            assuming_init(s)
        } else {
            disposing(
                s,
                Some(ErrorView::Rpc(RpcErrorView::ConstantsUnsatisfiable { run: s.run })),
                s.deadlocked,
            )
        },
        (Phase::AssumingInit, EventView::TransitionAssumed { status }) => if status
            == TransitionStatus::Enabled {
            advancing(s)
        } else {
            disposing(
                s,
                Some(ErrorView::Rpc(RpcErrorView::InitDisabled { run: s.run })),
                s.deadlocked,
            )
        },
        (Phase::Advancing, EventView::StepAdvanced { snapshot_id }) => AdvanceView::Call(
            StepperView { phase: Phase::Querying, snapshot: snapshot_id, ..s },
            RequestView::Query { session_id: s.session, kinds: seq!["TRACE"@] },
        ),
        (Phase::Probing, EventView::TransitionAssumed { status }) => if status
            == TransitionStatus::Enabled {
            advancing(s)
        } else {
            AdvanceView::Call(
                StepperView { phase: Phase::RollingBack, ..s },
                RequestView::Rollback { session_id: s.session, snapshot_id: s.snapshot },
            )
        },
        (Phase::RollingBack, EventView::RolledBack) => {
            let next = StepperView { probe: counted(s.probe), ..s };
            if next.probe < s.candidates.len() && s.probe < usize::MAX {
                AdvanceView::Call(
                    StepperView { phase: Phase::Probing, ..next },
                    RequestView::AssumeTransition {
                        session_id: s.session,
                        transition_id: s.candidates[next.probe as int],
                        check_enabled: true,
                    },
                )
            } else {
                disposing(next, None, true)
            }
        },
        _ => disposing(s, Some(unexpected_response()), s.deadlocked),
    }
}

/// What a run does with the outcome of its last request, where `shuffled`
/// is the order in which the transitions are probed for a next step.
pub open spec fn advance_model<D: Driver>(
    s: StepperView<D>,
    event: EventView,
    shuffled: Seq<u32>,
) -> AdvanceView<D> {
    match s.phase {
        Phase::Loading => after_loading(s, event),
        Phase::Disposing => finished(s, s.failure),
        Phase::Querying => match event {
            EventView::Queried { trace } => after_query(s, trace, shuffled),
            _ => after_answer(s, event),
        },
        _ => after_answer(s, event),
    }
}

fn indices(transitions: &Vec<Transition>) -> (r: Vec<u32>)
    ensures
        r@ == indices_of(transitions@),
{
    let mut out: Vec<u32> = Vec::new();
    let mut i: usize = 0;
    while i < transitions.len()
        invariant
            i <= transitions.len(),
            out@.len() == i,
            forall|j: int| 0 <= j < i ==> out@[j] == transitions@[j].index,
        decreases transitions.len() - i,
    {
        out.push(transitions[i].index);
        i += 1;
    }
    assert(out@ =~= indices_of(transitions@));
    out
}

fn copy_indices(items: &Vec<u32>) -> (r: Vec<u32>)
    ensures
        r@ == items@,
{
    let mut out: Vec<u32> = Vec::new();
    let mut i: usize = 0;
    while i < items.len()
        invariant
            i <= items.len(),
            out@ == items@.take(i as int),
        decreases items.len() - i,
    {
        out.push(items[i]);
        assert(items@.take(i + 1) =~= items@.take(i as int).push(items@[i as int]));
        i += 1;
    }
    assert(items@.take(i as int) =~= items@);
    out
}

fn unexpected() -> (e: Error)
    ensures
        e@ == unexpected_response(),
{
    Error::Rpc(RpcError::ResultDeserialize("unexpected response".to_owned()))
}

impl<D: Driver> Stepper<D> {
    /// Begins a run: the run waits for the specification to be loaded, and
    /// the request that loads it is the first to send.
    pub fn start(
        driver: D,
        run: usize,
        total_runs: usize,
        config: &InteractiveConfig,
        sources: Vec<String>,
    ) -> (r: (Stepper<D>, Request))
        ensures
            r.0@ == (StepperView {
                driver,
                run,
                total_runs,
                max_steps: config.max_steps,
                constants: config.constants@,
                phase: Phase::Loading,
                session: Seq::empty(),
                init_index: 0,
                next_indices: Seq::empty(),
                snapshot: 0,
                step_index: 0,
                candidates: Seq::empty(),
                probe: 0,
                steps_taken: 0,
                deadlocked: false,
                failure: None,
            }),
            r.1@ == (RequestView::LoadSpec {
                sources: texts_of(sources@),
                init: config.init@,
                next: config.next@,
                invariants: Seq::empty(),
            }),
    {
        let invariants: Vec<String> = Vec::new();
        assert(texts_of(invariants@) =~= Seq::<Seq<char>>::empty());
        let request = Request::LoadSpec(
            LoadSpecParams {
                sources,
                init: config.init.clone(),
                next: config.next.clone(),
                invariants,
            },
        );
        let stepper = Stepper {
            driver,
            run,
            total_runs,
            max_steps: config.max_steps,
            constants: config.constants.clone(),
            phase: Phase::Loading,
            session: String::new(),
            init_index: 0,
            next_indices: Vec::new(),
            snapshot: 0,
            step_index: 0,
            candidates: Vec::new(),
            probe: 0,
            steps_taken: 0,
            deadlocked: false,
            failure: None,
        };
        (stepper, request)
    }

    fn dispose(self, failure: Option<Error>, deadlocked: bool) -> (r: Advance<D>)
        ensures
            r@ == disposing(self@, failure_view(failure), deadlocked),
            held_failure(r) == failure,
    {
        let mut s = self;
        let request = Request::DisposeSpec(DisposeSpecParams { session_id: s.session.clone() });
        s.phase = Phase::Disposing;
        s.failure = failure;
        s.deadlocked = deadlocked;
        Advance::Call(s, request)
    }

    fn assume_init(self) -> (r: Advance<D>)
        ensures
            r@ == assuming_init(self@),
            held_failure(r) == self.failure,
    {
        let mut s = self;
        let request = Request::AssumeTransition(
            AssumeTransitionParams {
                session_id: s.session.clone(),
                transition_id: s.init_index,
                check_enabled: true,
            },
        );
        s.phase = Phase::AssumingInit;
        Advance::Call(s, request)
    }

    fn advance_session(self) -> (r: Advance<D>)
        ensures
            r@ == advancing(self@),
            held_failure(r) == self.failure,
    {
        let mut s = self;
        let request = Request::NextStep(NextStepParams { session_id: s.session.clone() });
        s.phase = Phase::Advancing;
        Advance::Call(s, request)
    }

    fn finish(self, failure: Option<Error>) -> (r: Advance<D>)
        ensures
            r@ == finished(self@, failure_view(failure)),
            held_failure(r) == failure,
    {
        Advance::Finished(
            RunReport {
                driver: self.driver,
                steps: self.steps_taken,
                deadlocked: self.deadlocked,
                failure,
            },
        )
    }

    fn on_loaded(self, event: Result<Response, Error>) -> (r: Advance<D>)
        ensures
            r@ == after_loading(self@, event_view(event)),
            reported(self.failure) && (event matches Err(e) ==> e@.carries_report()) ==> reported(
                held_failure(r),
            ),
    {
        match event {
            Ok(Response::SpecLoaded(loaded)) => {
                let mut s = self;
                s.next_indices = indices(&loaded.spec_parameters.next_transitions);
                s.init_index = if loaded.spec_parameters.init_transitions.len() > 0 {
                    loaded.spec_parameters.init_transitions[0].index
                } else {
                    0
                };
                s.session = loaded.session_id;
                let needed = match s.constants.object_len() {
                    Some(n) => n > 0,
                    None => false,
                };
                if needed {
                    let request = Request::AssumeState(
                        AssumeStateParams {
                            session_id: s.session.clone(),
                            equalities: s.constants.clone(),
                            check_enabled: true,
                        },
                    );
                    s.phase = Phase::AssumingConstants;
                    Advance::Call(s, request)
                } else {
                    s.assume_init()
                }
            },
            Err(e) => self.finish(Some(e)),
            Ok(_) => self.finish(Some(unexpected())),
        }
    }

    fn on_answer(self, event: Result<Response, Error>) -> (r: Advance<D>)
        ensures
            r@ == after_answer(self@, event_view(event)),
            reported(self.failure) && (event matches Err(e) ==> e@.carries_report()) ==> reported(
                held_failure(r),
            ),
    {
        let deadlocked = self.deadlocked;
        let run = self.run;
        let response = match event {
            Err(e) => {
                return self.dispose(Some(e), deadlocked);
            },
            Ok(response) => response,
        };
        match (self.phase, response) {
            (Phase::AssumingConstants, Response::StateAssumed(answer)) => {
                if answer.status == TransitionStatus::Enabled {
                    self.assume_init()
                } else {
                    self.dispose(
                        Some(Error::Rpc(RpcError::ConstantsUnsatisfiable { run })),
                        deadlocked,
                    )
                }
            },
            (Phase::AssumingInit, Response::TransitionAssumed(answer)) => {
                if answer.status == TransitionStatus::Enabled {
                    self.advance_session()
                } else {
                    self.dispose(Some(Error::Rpc(RpcError::InitDisabled { run })), deadlocked)
                }
            },
            (Phase::Advancing, Response::StepAdvanced(answer)) => {
                let mut s = self;
                let mut kinds: Vec<String> = Vec::new();
                kinds.push("TRACE".to_owned());
                assert(texts_of(kinds@) =~= seq!["TRACE"@]);
                let request = Request::Query(
                    QueryParams { session_id: s.session.clone(), kinds },
                );
                s.snapshot = answer.snapshot_id;
                s.phase = Phase::Querying;
                Advance::Call(s, request)
            },
            (Phase::Probing, Response::TransitionAssumed(answer)) => {
                if answer.status == TransitionStatus::Enabled {
                    self.advance_session()
                } else {
                    let mut s = self;
                    let request = Request::Rollback(
                        RollbackParams { session_id: s.session.clone(), snapshot_id: s.snapshot },
                    );
                    s.phase = Phase::RollingBack;
                    Advance::Call(s, request)
                }
            },
            (Phase::RollingBack, Response::RolledBack(_)) => {
                let mut s = self;
                if s.probe < usize::MAX && s.probe + 1 < s.candidates.len() {
                    s.probe = s.probe + 1;
                    let request = Request::AssumeTransition(
                        AssumeTransitionParams {
                            session_id: s.session.clone(),
                            transition_id: s.candidates[s.probe],
                            check_enabled: true,
                        },
                    );
                    s.phase = Phase::Probing;
                    Advance::Call(s, request)
                } else {
                    if s.probe < usize::MAX {
                        s.probe = s.probe + 1;
                    }
                    s.dispose(None, true)
                }
            },
            _ => self.dispose(Some(unexpected()), deadlocked),
        }
    }

    fn on_query<P: Fn(InteractiveProgress)>(
        self,
        answer: QueryResult,
        rng: &mut rand::rngs::StdRng,
        progress: &Option<P>,
    ) -> (r: (Advance<D>, Ghost<Seq<u32>>))
        requires
            always_callable(*progress),
        ensures
            r.1@.to_multiset() == self@.next_indices.to_multiset(),
            query_allows(self@, optional_json(answer.trace), r.1@, r.0@),
            query_allows(
                self@,
                optional_json(answer.trace),
                shuffled_by(*old(rng), self@.next_indices),
                r.0@,
            ),
            *final(rng) == (if queried_step(optional_json(answer.trace), self.step_index) is Ok
                && counted(self.step_index) < self.max_steps && !stops_on_failure(r.0@) {
                rng_after_shuffle(*old(rng), self@.next_indices)
            } else {
                *old(rng)
            }),
            reported(self.failure) ==> reported(held_failure(r.0)),
            self.phase == Phase::Querying ==> query_shows_mismatch(
                self@,
                EventView::Queried { trace: optional_json(answer.trace) },
                r.0,
            ),
            D::State::obeys_eq_spec() ==> r.0@ == after_query(
                self@,
                optional_json(answer.trace),
                r.1@,
            ),
            D::State::obeys_eq_spec() ==> r.0@ == after_query(
                self@,
                optional_json(answer.trace),
                shuffled_by(*old(rng), self@.next_indices),
            ),
    {
        let deadlocked = self.deadlocked;
        let ghost unshuffled = self@.next_indices;
        let ghost trace_view = optional_json(answer.trace);
        let trace = match answer.trace {
            Some(trace) => trace,
            None => {
                return (
                    self.dispose(Some(Error::Rpc(RpcError::MissingStates)), deadlocked),
                    Ghost(unshuffled),
                );
            },
        };
        let state_json = match extract_last_state(&trace) {
            Ok(state) => state,
            Err(e) => {
                return (self.dispose(Some(e), deadlocked), Ghost(unshuffled));
            },
        };
        let state = match json_state_to_itf(&state_json) {
            Ok(state) => state,
            Err(e) => {
                return (self.dispose(Some(e), deadlocked), Ghost(unshuffled));
            },
        };
        let step = if self.step_index == 0 {
            Step { action_taken: "init".to_owned(), nondet_picks: ItfValue::unit(), state }
        } else {
            let action_taken = extract_action(&state_json);
            let nondet_picks = extract_nondet(&state);
            Step { action_taken, nondet_picks, state }
        };
        assert(queried_step(trace_view, self.step_index) == Ok::<StepView, ErrorView>(step@));
        if let Some(cb) = progress {
            cb(
                InteractiveProgress {
                    run_index: self.run,
                    total_runs: self.total_runs,
                    step_index: self.step_index,
                    action: step.action_taken.clone(),
                },
            );
        }
        let mut s = self;
        let context = StepContext::Rpc { run: s.run, step: s.step_index };
        if let Err(e) = take_step(&mut s.driver, &step, context) {
            return (s.dispose(Some(e), deadlocked), Ghost(unshuffled));
        }
        if s.steps_taken < usize::MAX {
            s.steps_taken = s.steps_taken + 1;
        }
        if s.step_index < usize::MAX {
            s.step_index = s.step_index + 1;
        }
        if s.step_index < s.max_steps {
            let mut candidates = copy_indices(&s.next_indices);
            shuffle(&mut candidates, rng);
            let ghost shuffled = candidates@;
            s.probe = 0;
            if candidates.len() == 0 {
                s.candidates = candidates;
                (s.dispose(None, true), Ghost(shuffled))
            } else {
                let request = Request::AssumeTransition(
                    AssumeTransitionParams {
                        session_id: s.session.clone(),
                        transition_id: candidates[0],
                        check_enabled: true,
                    },
                );
                s.candidates = candidates;
                s.phase = Phase::Probing;
                (Advance::Call(s, request), Ghost(shuffled))
            }
        } else {
            (s.dispose(None, deadlocked), Ghost(unshuffled))
        }
    }

    /// Takes the outcome of the last request, and says what comes next: the
    /// next request, or the end of the run.
    ///
    /// Before a next step the transitions are probed in a random order,
    /// which `rng` chooses: the order is a permutation of the transitions,
    /// and it is the one that the generator gives in the state in which it
    /// was handed in. The callback, if there is one, is told of each step
    /// before the driver takes it. A mismatch that a queried state brings to
    /// light is reported with the diff of that state and the driver's.
    pub fn advance<P: Fn(InteractiveProgress)>(
        self,
        event: Result<Response, Error>,
        rng: &mut rand::rngs::StdRng,
        progress: &Option<P>,
    ) -> (r: Advance<D>)
        requires
            always_callable(*progress),
        ensures
            exists|shuffled: Seq<u32>|
                #[trigger] shuffled.to_multiset() == self@.next_indices.to_multiset()
                    && advance_allows(self@, event_view(event), shuffled, r@),
            reported(self.failure) && (event matches Err(e) ==> e@.carries_report()) ==> reported(
                held_failure(r),
            ),
            query_shows_mismatch(self@, event_view(event), r),
            D::State::obeys_eq_spec() ==> exists|shuffled: Seq<u32>|
                #[trigger] shuffled.to_multiset() == self@.next_indices.to_multiset() && r@
                    == advance_model(self@, event_view(event), shuffled),
            advance_allows(
                self@,
                event_view(event),
                shuffled_by(*old(rng), self@.next_indices),
                r@,
            ),
            *final(rng) == rng_after(self@, event_view(event), *old(rng), r@),
            D::State::obeys_eq_spec() ==> (r@, *final(rng)) == advance_with(
                self@,
                event_view(event),
                *old(rng),
            ),
    {
        let ghost same = self@.next_indices;
        match self.phase {
            Phase::Loading => {
                let r = self.on_loaded(event);
                assert(same.to_multiset() == same.to_multiset());
                r
            },
            Phase::Disposing => {
                let failure = self.failure;
                let r = Advance::Finished(
                    RunReport {
                        driver: self.driver,
                        steps: self.steps_taken,
                        deadlocked: self.deadlocked,
                        failure,
                    },
                );
                assert(same.to_multiset() == same.to_multiset());
                r
            },
            Phase::Querying => match event {
                Ok(Response::Queried(answer)) => {
                    let (r, Ghost(shuffled)) = self.on_query(answer, rng, progress);
                    assert(shuffled.to_multiset() == same.to_multiset());
                    r
                },
                _ => {
                    let r = self.on_answer(event);
                    assert(same.to_multiset() == same.to_multiset());
                    r
                },
            },
            _ => {
                let r = self.on_answer(event);
                assert(same.to_multiset() == same.to_multiset());
                r
            },
        }
    }
}

/// A run that waits for the answer to the initial transition and hears that
/// the transition is disabled fails with "init disabled", and disposes the
/// session before it ends: the next request is the disposal, and whatever
/// comes back for it, the run then ends with that failure.
pub proof fn lemma_init_disabled_disposes<D: Driver>(
    s: StepperView<D>,
    answer: EventView,
    shuffled: Seq<u32>,
    later: Seq<u32>,
)
    requires
        s.phase == Phase::AssumingInit,
    ensures
        ({
            let failure = Some(ErrorView::Rpc(RpcErrorView::InitDisabled { run: s.run }));
            let disabled = EventView::TransitionAssumed { status: TransitionStatus::Disabled };
            &&& advance_model(s, disabled, shuffled) == disposing(s, failure, s.deadlocked)
            &&& advance_model(s, disabled, shuffled) matches AdvanceView::Call(waiting, request)
                && request == (RequestView::DisposeSpec { session_id: s.session })
                && advance_model(waiting, answer, later) == finished(s, failure)
        }),
{
}

/// A run whose session is open disposes it before it ends, whatever
/// happens: every outcome of a request leads to a next request, and a run
/// ends only with the answer to the disposal.
pub proof fn lemma_session_is_disposed<D: Driver>(
    s: StepperView<D>,
    event: EventView,
    shuffled: Seq<u32>,
)
    requires
        s.phase != Phase::Loading,
    ensures
        advance_model(s, event, shuffled) is Finished <==> s.phase == Phase::Disposing,
        advance_model(s, event, shuffled) matches AdvanceView::Call(next, request) ==> (next.phase
            == Phase::Disposing <==> request == (RequestView::DisposeSpec {
            session_id: s.session,
        })),
{
}

/// The seed decides the order of the probes. Where a run draws the order for
/// its next step from the generator that `seed` gives, and the step before
/// passed, the run goes on to probe the transitions in the order that this
/// generator gives, the first of them at once, and the generator is left in
/// the state that follows that one draw. Where there is no transition to
/// probe, the run is deadlocked.
pub proof fn lemma_seed_decides_probes<D: Driver>(
    s: StepperView<D>,
    event: EventView,
    seed: u64,
    next: AdvanceView<D>,
)
    requires
        may_draw(s, event),
        advance_allows(s, event, shuffled_by(rng_of_seed(seed), s.next_indices), next),
        !stops_on_failure(next),
    ensures
        ({
            let order = shuffled_by(rng_of_seed(seed), s.next_indices);
            &&& rng_after(s, event, rng_of_seed(seed), next) == rng_after_shuffle(
                rng_of_seed(seed),
                s.next_indices,
            )
            &&& next matches AdvanceView::Call(probing, request) && probing.candidates == order
                && probing.probe == 0 && (if order.len() > 0 {
                probing.phase == Phase::Probing && request == (RequestView::AssumeTransition {
                    session_id: s.session,
                    transition_id: order[0],
                    check_enabled: true,
                })
            } else {
                probing.phase == Phase::Disposing && probing.deadlocked && probing.failure is None
            })
        }),
{
}

/// What becomes of a run that probes its candidates from the present one on
/// and finds every one of them disabled, with every rollback answered.
pub open spec fn probing_in_vain<D: Driver>(s: StepperView<D>) -> AdvanceView<D>
    decreases s.candidates.len() - s.probe,
{
    let disabled = EventView::TransitionAssumed { status: TransitionStatus::Disabled };
    match advance_model(s, disabled, s.next_indices) {
        AdvanceView::Call(rolling, _) => match advance_model(
            rolling,
            EventView::RolledBack,
            s.next_indices,
        ) {
            AdvanceView::Call(next, request) => if next.phase == Phase::Probing && s.probe
                < next.probe <= s.candidates.len() && next.candidates == s.candidates {
                probing_in_vain(next)
            } else {
                AdvanceView::Call(next, request)
            },
            over => over,
        },
        over => over,
    }
}

/// A run that finds every candidate transition disabled ends as a deadlock
/// and not as a failure: once the last candidate was probed and rolled back,
/// the run disposes its session with no failure and with the deadlock
/// recorded.
pub proof fn lemma_all_disabled_is_deadlock<D: Driver>(s: StepperView<D>)
    requires
        s.phase == Phase::Probing,
        s.probe < s.candidates.len(),
    ensures
        probing_in_vain(s) matches AdvanceView::Call(end, request) && end.phase == Phase::Disposing
            && end.failure is None && end.deadlocked && end.steps_taken == s.steps_taken && request
            == (RequestView::DisposeSpec { session_id: s.session }),
    decreases s.candidates.len() - s.probe,
{
    let disabled = EventView::TransitionAssumed { status: TransitionStatus::Disabled };
    let rolling = advance_model(s, disabled, s.next_indices)->Call_0;
    let after = advance_model(rolling, EventView::RolledBack, s.next_indices);
    if s.probe < usize::MAX && s.probe + 1 < s.candidates.len() {
        let next = after->Call_0;
        lemma_all_disabled_is_deadlock(next);
    }
}

/// A run that disposes its session after a deadlock ends without a
/// failure, whatever the server answers to the disposal.
pub proof fn lemma_deadlock_is_no_failure<D: Driver>(
    s: StepperView<D>,
    answer: EventView,
    shuffled: Seq<u32>,
)
    requires
        s.phase == Phase::Disposing,
        s.deadlocked,
        s.failure is None,
    ensures
        advance_model(s, answer, shuffled) == (AdvanceView::Finished {
            driver: s.driver,
            steps: s.steps_taken,
            deadlocked: true,
            failure: None,
        }),
{
}

} // verus!
