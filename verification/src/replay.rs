//! Batch replay: a driver is taken through the states of a trace, one step
//! for each state, and its state is compared with the trace after every step.
use crate::clock::elapsed_since;
use crate::clock::no_time;
use crate::clock::now;
use crate::driver::check_step;
use crate::driver::shows_mismatch;
use crate::driver::step_allows;
use crate::driver::take_step;
use crate::driver::Driver;
use crate::driver::State;
use crate::driver::Step;
use crate::driver::StepView;
use crate::error::Error;
use crate::error::ErrorView;
use crate::error::ReplayError;
use crate::error::ReplayErrorView;
use crate::error::StepContext;
use crate::error::StepError;
use crate::sorting::sort_texts;
use crate::sorting::text_order;
use crate::text::add_capped;
use crate::text::capped;
use crate::text::ends_with;
use crate::text::has_suffix;
use crate::text::push_text;
use crate::text::texts_of;
use crate::trace::debug_of_value;
use crate::trace::describe_value;
use crate::trace::parse_trace;
use crate::trace::parsed_trace;
use crate::trace::read_string;
use crate::trace::string_of_value;
use crate::trace::trace_views;
use crate::trace::Trace;
use crate::value::record_field;
use crate::value::ItfValue;
use crate::value::ItfView;
use vstd::prelude::*;
use vstd::relations::sorted_by;
use vstd::std_specs::cmp::PartialEqSpec;

pub use crate::diff::unified_diff;

verus! {

/// The action and the nondeterministic picks that a state of a trace names.
///
/// The state has to be a record. Its field `action_taken` is the action: a
/// string there is the action itself, any other value is read as a string
/// where it can be, and a state without that field stands for the action
/// `init`. Its field `nondet_picks` holds the picks, and a state without it
/// chose nothing, which is the empty tuple.
pub open spec fn mbt_vars_of(state: ItfView) -> Result<(Seq<char>, ItfView), Seq<char>> {
    if !(state is Record) {
        Err("Expected ITF state to be a Record, got: "@ + debug_of_value(state))
    } else {
        let picks = match record_field(state, "nondet_picks"@) {
            Some(v) => v,
            None => ItfView::Tuple(Seq::empty()),
        };
        match record_field(state, "action_taken"@) {
            None => Ok(("init"@, picks)),
            Some(ItfView::String(action)) => Ok((action, picks)),
            Some(v) => match string_of_value(v) {
                Ok(action) => Ok((action, picks)),
                Err(e) => Err("Failed to deserialize action_taken: "@ + e),
            },
        }
    }
}

/// Reads the action and the nondeterministic picks from a state of a trace.
pub fn extract_mbt_vars(state: &ItfValue) -> (r: Result<(String, ItfValue), String>)
    ensures
        match r {
            Ok((action, picks)) => mbt_vars_of(state@) == Ok::<(Seq<char>, ItfView), Seq<char>>(
                (action@, picks@),
            ),
            Err(e) => mbt_vars_of(state@) == Err::<(Seq<char>, ItfView), Seq<char>>(e@),
        },
{
    match state {
        ItfValue::Record(_) => {},
        _ => {
            let mut e = String::new();
            push_text(&mut e, "Expected ITF state to be a Record, got: ");
            let found = describe_value(state);
            push_text(&mut e, found.as_str());
            assert(e@ =~= "Expected ITF state to be a Record, got: "@ + debug_of_value(state@));
            return Err(e);
        },
    }
    let action = match state.field("action_taken") {
        None => "init".to_owned(),
        Some(v) => match read_string(v) {
            Ok(action) => action,
            Err(cause) => {
                let mut e = String::new();
                push_text(&mut e, "Failed to deserialize action_taken: ");
                push_text(&mut e, cause.as_str());
                assert(e@ =~= "Failed to deserialize action_taken: "@ + cause@);
                return Err(e);
            },
        },
    };
    let picks = match state.field("nondet_picks") {
        Some(v) => v.clone(),
        None => ItfValue::unit(),
    };
    Ok((action, picks))
}

/// A state that names no action stands for the action `init`.
pub proof fn lemma_absent_action_is_init(state: ItfView)
    requires
        state is Record,
        record_field(state, "action_taken"@) is None,
    ensures
        mbt_vars_of(state) is Ok,
        mbt_vars_of(state)->Ok_0.0 == "init"@,
{
}

/// A state that names its action by a string stands for that action.
pub proof fn lemma_named_action_is_read(state: ItfView, action: Seq<char>)
    requires
        state is Record,
        record_field(state, "action_taken"@) == Some(ItfView::String(action)),
    ensures
        mbt_vars_of(state) is Ok,
        mbt_vars_of(state)->Ok_0.0 == action,
{
}

/// What is told to the progress callback before each step.
#[derive(Debug, Clone)]
pub struct ReplayProgress {
    /// The trace, counted from 0.
    pub trace_index: usize,
    /// How many traces the run replays.
    pub total_traces: usize,
    /// The state within the trace, counted from 0.
    pub state_index: usize,
    /// How many states the trace has.
    pub total_states: usize,
    /// The action of the step.
    pub action: String,
}

/// Whether the callback, if there is one, may be called with any progress.
pub open spec fn always_callable<P: Fn(ReplayProgress)>(progress: Option<P>) -> bool {
    match progress {
        Some(f) => forall|p: ReplayProgress| call_requires(f, (p,)),
        None => true,
    }
}

/// What checking one state of a trace does to a driver, and the failure that
/// it ends with, if any.
///
/// The action and the picks are read from the state, and the step that they
/// make with the state is checked. A state from which they cannot be read is
/// a failure of its own, and the driver takes no step.
pub open spec fn check_state<D: Driver>(driver: D, state: ItfView, trace: usize, index: usize) -> (
    D,
    Option<ErrorView>,
) {
    match mbt_vars_of(state) {
        Err(reason) => (
            driver,
            Some(
                ErrorView::Replay(ReplayErrorView::MbtVarExtraction { trace, state: index, reason }),
            ),
        ),
        Ok((action, picks)) => check_step(
            driver,
            StepView { action_taken: action, nondet_picks: picks, state },
            StepContext::Replay { trace, state: index },
        ),
    }
}

/// What replaying the states from `from` on does to a driver, and the
/// failure that it ends with, if any: the states are checked in order, and
/// none is looked at after the first failure.
pub open spec fn replay_states<D: Driver>(driver: D, states: Seq<ItfView>, trace: usize, from: int) -> (
    D,
    Option<ErrorView>,
)
    decreases states.len() - from,
{
    if from < 0 || from >= states.len() {
        (driver, None)
    } else {
        let (next, failure) = check_state(driver, states[from], trace, from as usize);
        if failure is Some {
            (next, failure)
        } else {
            replay_states(next, states, trace, from + 1)
        }
    }
}

/// The step that a state of a trace stands for, where it names one.
pub open spec fn step_of(state: ItfView) -> StepView {
    StepView {
        action_taken: mbt_vars_of(state)->Ok_0.0,
        nondet_picks: mbt_vars_of(state)->Ok_0.1,
        state,
    }
}

/// Whether the replay of the states from `from` on may leave the driver as
/// `end` with the failure `failure`, a mismatch taken without the text of
/// its diff.
///
/// A state that names no step fails before the driver is touched. Else the
/// driver takes the step; the replay goes on with the next state where the
/// check of the step may pass, and ends with the failure of the step where
/// it may fail. Only the comparison of the two states is left open, and
/// only for a state type whose `==` is not the relation `eq_spec`.
pub open spec fn replay_allows<D: Driver>(
    driver: D,
    states: Seq<ItfView>,
    trace: usize,
    from: int,
    end: D,
    failure: Option<ErrorView>,
) -> bool
    decreases states.len() - from,
{
    if from < 0 || from >= states.len() {
        end == driver && failure is None
    } else {
        match mbt_vars_of(states[from]) {
            Err(reason) => end == driver && failure == Some(
                ErrorView::Replay(
                    ReplayErrorView::MbtVarExtraction { trace, state: from as usize, reason },
                ),
            ),
            Ok(_) => {
                let step = step_of(states[from]);
                let context = StepContext::Replay { trace, state: from as usize };
                let next = driver.after_step(step);
                ||| step_allows(driver, step, context, None) && replay_allows(
                    next,
                    states,
                    trace,
                    from + 1,
                    end,
                    failure,
                )
                ||| failure is Some && step_allows(driver, step, context, failure) && end == next
            },
        }
    }
}

/// For a state type whose `==` is the relation `eq_spec`, a replay has the
/// one outcome that `replay_states` names.
pub proof fn lemma_replay_allows_is_model<D: Driver>(
    driver: D,
    states: Seq<ItfView>,
    trace: usize,
    from: int,
    end: D,
    failure: Option<ErrorView>,
)
    requires
        D::State::obeys_eq_spec(),
    ensures
        replay_allows(driver, states, trace, from, end, failure) <==> (end, failure)
            == replay_states(driver, states, trace, from),
    decreases states.len() - from,
{
    if !(from < 0 || from >= states.len()) && mbt_vars_of(states[from]) is Ok {
        let step = step_of(states[from]);
        let context = StepContext::Replay { trace, state: from as usize };
        crate::driver::lemma_step_allows_is_check(driver, step, context, None);
        crate::driver::lemma_step_allows_is_check(driver, step, context, failure);
        lemma_replay_allows_is_model(
            driver.after_step(step),
            states,
            trace,
            from + 1,
            end,
            failure,
        );
    }
}

/// Whether a failure of a replay, where it is a mismatch, names a state of
/// the trace and carries as its diff the report of the two states that were
/// compared there: that state as it is read, and the comparable state of
/// the driver `end`.
pub open spec fn replay_shows_mismatch<D: Driver>(e: Error, states: Seq<ItfView>, end: D) -> bool {
    e matches Error::Step(
        StepError::StateMismatch { context: StepContext::Replay { state, .. }, .. },
    ) ==> state < states.len() && shows_mismatch(e, states[state as int], end)
}

/// The failure that the result of a replay carries, a mismatch taken
/// without the text of its diff.
pub open spec fn replay_failure_of(r: Result<usize, Error>) -> Option<ErrorView> {
    match r {
        Ok(_) => None,
        Err(e) => Some(e@.without_diff()),
    }
}

/// Replays one trace against a driver: one step for each state, in order,
/// with a comparison after every step. The callback, if there is one, is
/// told of each step before the driver takes it.
///
/// Returns the number of states when every step was taken and every
/// comparison agreed. The first failure ends the replay at once, and the
/// driver stays as that step left it. A mismatch carries the report of the
/// two states as its diff.
pub fn replay_single_trace<D: Driver, P: Fn(ReplayProgress)>(
    driver: &mut D,
    trace: &Trace,
    trace_idx: usize,
    total_traces: usize,
    progress: &Option<P>,
) -> (r: Result<usize, Error>)
    requires
        always_callable(*progress),
    ensures
        replay_allows(
            *old(driver),
            trace@,
            trace_idx,
            0,
            *final(driver),
            replay_failure_of(r),
        ),
        r matches Ok(n) ==> n == trace@.len(),
        r matches Err(e) ==> e@.carries_report(),
        r matches Err(e) ==> replay_shows_mismatch(e, trace@, *final(driver)),
        D::State::obeys_eq_spec() ==> *final(driver) == replay_states(
            *old(driver),
            trace@,
            trace_idx,
            0,
        ).0,
        D::State::obeys_eq_spec() ==> (match r {
            Ok(n) => replay_states(*old(driver), trace@, trace_idx, 0).1 is None,
            Err(e) => replay_states(*old(driver), trace@, trace_idx, 0).1 == Some(
                e@.without_diff(),
            ),
        }),
{
    let total_states = trace.states.len();
    let mut state_idx: usize = 0;
    while state_idx < total_states
        invariant
            state_idx <= total_states,
            total_states == trace.states@.len(),
            always_callable(*progress),
            forall|end: D, failure: Option<ErrorView>| #[trigger]
                replay_allows(*driver, trace@, trace_idx, state_idx as int, end, failure)
                    ==> replay_allows(*old(driver), trace@, trace_idx, 0, end, failure),
        decreases total_states - state_idx,
    {
        let state_value = &trace.states[state_idx];
        let ghost before = *driver;
        assert(trace@[state_idx as int] == state_value@);
        let context = StepContext::Replay { trace: trace_idx, state: state_idx };
        let (action_taken, nondet_picks) = match extract_mbt_vars(state_value) {
            Ok(vars) => vars,
            Err(reason) => {
                let e = Error::Replay(
                    ReplayError::MbtVarExtraction { trace: trace_idx, state: state_idx, reason },
                );
                assert(replay_allows(
                    before,
                    trace@,
                    trace_idx,
                    state_idx as int,
                    before,
                    Some(e@.without_diff()),
                ));
                proof {
                    if D::State::obeys_eq_spec() {
                        lemma_replay_allows_is_model(
                            *old(driver),
                            trace@,
                            trace_idx,
                            0,
                            before,
                            Some(e@.without_diff()),
                        );
                    }
                }
                return Err(e);
            },
        };
        if let Some(cb) = progress {
            cb(
                ReplayProgress {
                    trace_index: trace_idx,
                    total_traces,
                    state_index: state_idx,
                    total_states,
                    action: action_taken.clone(),
                },
            );
        }
        let step = Step {
            action_taken: action_taken.clone(),
            nondet_picks,
            state: state_value.clone(),
        };
        assert(step@ == step_of(state_value@));
        if let Err(e) = take_step(driver, &step, context) {
            assert(replay_allows(
                before,
                trace@,
                trace_idx,
                state_idx as int,
                *driver,
                Some(e@.without_diff()),
            ));
            proof {
                if D::State::obeys_eq_spec() {
                    lemma_replay_allows_is_model(
                        *old(driver),
                        trace@,
                        trace_idx,
                        0,
                        *driver,
                        Some(e@.without_diff()),
                    );
                }
            }
            return Err(e);
        }
        assert forall|end: D, failure: Option<ErrorView>| #[trigger]
            replay_allows(*driver, trace@, trace_idx, state_idx + 1, end, failure) implies replay_allows(
            *old(driver),
            trace@,
            trace_idx,
            0,
            end,
            failure,
        ) by {
            assert(replay_allows(before, trace@, trace_idx, state_idx as int, end, failure));
        }
        state_idx += 1;
    }
    assert(replay_allows(*driver, trace@, trace_idx, state_idx as int, *driver, None));
    proof {
        if D::State::obeys_eq_spec() {
            lemma_replay_allows_is_model(*old(driver), trace@, trace_idx, 0, *driver, None);
        }
    }
    Ok(total_states)
}

/// What a replay has done.
#[derive(Debug, Clone)]
pub struct ReplayStats {
    /// How many traces were replayed to their end.
    pub traces_replayed: usize,
    /// How many states these traces have together.
    pub total_states: usize,
    /// How long the replay took.
    pub duration: core::time::Duration,
}

impl Default for ReplayStats {
    /// The statistics of a replay that has not begun.
    fn default() -> (r: Self)
        ensures
            r.traces_replayed == 0,
            r.total_states == 0,
    {
        ReplayStats { traces_replayed: 0, total_states: 0, duration: no_time() }
    }
}

/// The number of states in all of `traces`.
pub open spec fn total_states(traces: Seq<Seq<ItfView>>) -> nat
    decreases traces.len(),
{
    if traces.len() == 0 {
        0
    } else {
        total_states(traces.drop_last()) + traces.last().len()
    }
}

/// Whether every one of `drivers` is a driver that `factory` may return.
pub open spec fn made_by<D, F: Fn() -> D>(factory: F, drivers: Seq<D>) -> bool {
    forall|i: int| 0 <= i < drivers.len() ==> call_ensures(factory, (), #[trigger] drivers[i])
}

/// Whether the trace with number `index` replays to its end from `driver`.
pub open spec fn trace_passes<D: Driver>(driver: D, trace: Seq<ItfView>, index: int) -> bool {
    replay_states(driver, trace, index as usize, 0).1 is None
}

/// Whether every trace replays to its end, the trace with number `i` from
/// the driver `drivers[i]`.
pub open spec fn all_pass<D: Driver>(drivers: Seq<D>, traces: Seq<Seq<ItfView>>) -> bool {
    &&& drivers.len() == traces.len()
    &&& forall|i: int| 0 <= i < traces.len() ==> trace_passes(#[trigger] drivers[i], traces[i], i)
}

/// Whether the replay of the traces in order ends with `failure`: the last
/// of `drivers` is the one that fails, on the trace of its own number, and
/// every trace before that one replays to its end.
pub open spec fn fails_with<D: Driver>(
    drivers: Seq<D>,
    traces: Seq<Seq<ItfView>>,
    failure: ErrorView,
) -> bool {
    &&& 0 < drivers.len() <= traces.len()
    &&& forall|i: int|
        0 <= i < drivers.len() - 1 ==> trace_passes(#[trigger] drivers[i], traces[i], i)
    &&& replay_states(
        drivers.last(),
        traces[drivers.len() - 1],
        (drivers.len() - 1) as usize,
        0,
    ).1 == Some(failure)
}

/// Whether `outcome` is what the replay of `traces` in order gives, where
/// the trace with number `i` starts from `drivers[i]`: the counts of a run
/// in which every trace passes, or the first failure. The states are
/// counted as far as the machine counts.
pub open spec fn replay_run<D: Driver>(
    drivers: Seq<D>,
    traces: Seq<Seq<ItfView>>,
    outcome: Result<(usize, usize), ErrorView>,
) -> bool {
    match outcome {
        Ok((replayed, states)) => {
            &&& all_pass(drivers, traces)
            &&& replayed == traces.len()
            &&& states == capped(total_states(traces) as int)
        },
        Err(failure) => fails_with(drivers, traces, failure),
    }
}

/// Whether the trace with number `index` may replay to its end from
/// `driver`.
pub open spec fn may_pass<D: Driver>(driver: D, trace: Seq<ItfView>, index: int) -> bool {
    exists|end: D| #[trigger] replay_allows(driver, trace, index as usize, 0, end, None)
}

/// Whether the replay of the trace with number `index` from `driver` may
/// end with `failure`.
pub open spec fn may_fail<D: Driver>(
    driver: D,
    trace: Seq<ItfView>,
    index: int,
    failure: ErrorView,
) -> bool {
    exists|end: D| #[trigger] replay_allows(driver, trace, index as usize, 0, end, Some(failure))
}

/// Whether `outcome` may be what the replay of `traces` in order gives,
/// where the trace with number `i` starts from `drivers[i]`: the counts of a
/// run in which every trace passes, or the first failure, after which no
/// trace is replayed. Only the comparisons of a state type whose `==` is not
/// the relation `eq_spec` are left open.
pub open spec fn run_allows<D: Driver>(
    drivers: Seq<D>,
    traces: Seq<Seq<ItfView>>,
    outcome: Result<(usize, usize), ErrorView>,
) -> bool {
    match outcome {
        Ok((replayed, states)) => {
            &&& drivers.len() == traces.len()
            &&& forall|i: int| 0 <= i < traces.len() ==> may_pass(#[trigger] drivers[i], traces[i], i)
            &&& replayed == traces.len()
            &&& states == capped(total_states(traces) as int)
        },
        Err(failure) => {
            &&& 0 < drivers.len() <= traces.len()
            &&& forall|i: int|
                0 <= i < drivers.len() - 1 ==> may_pass(#[trigger] drivers[i], traces[i], i)
            &&& may_fail(drivers.last(), traces[drivers.len() - 1], drivers.len() - 1, failure)
        },
    }
}

/// What the result of a replay with statistics says of the run: the counts,
/// or the failure, a mismatch taken without the text of its diff.
pub open spec fn stats_outcome(r: Result<ReplayStats, Error>) -> Result<(usize, usize), ErrorView> {
    match r {
        Ok(stats) => Ok((stats.traces_replayed, stats.total_states)),
        Err(e) => Err(e@.without_diff()),
    }
}

/// What the result of a replay without statistics says of a run of
/// `traces`: the counts of a run in which every trace passes, or the
/// failure, a mismatch taken without the text of its diff.
pub open spec fn plain_outcome(r: Result<(), Error>, traces: Seq<Seq<ItfView>>) -> Result<
    (usize, usize),
    ErrorView,
> {
    match r {
        Ok(_) => Ok((capped(traces.len() as int), capped(total_states(traces) as int))),
        Err(e) => Err(e@.without_diff()),
    }
}

/// What a result of counts says of a run: the counts, or the failure, a
/// mismatch taken without the text of its diff.
pub open spec fn counts_outcome(r: Result<(usize, usize), Error>) -> Result<
    (usize, usize),
    ErrorView,
> {
    match r {
        Ok(counts) => Ok(counts),
        Err(e) => Err(e@.without_diff()),
    }
}

fn replay_each<D: Driver, F: Fn() -> D, P: Fn(ReplayProgress)>(
    driver_factory: &F,
    traces: &[Trace],
    progress: &Option<P>,
) -> (r: Result<(usize, usize), Error>)
    requires
        call_requires(*driver_factory, ()),
        always_callable(*progress),
    ensures
        exists|drivers: Seq<D>|
            #[trigger] made_by(*driver_factory, drivers) && run_allows(
                drivers,
                trace_views(traces@),
                counts_outcome(r),
            ),
        r matches Err(e) ==> e@.carries_report(),
        D::State::obeys_eq_spec() ==> exists|drivers: Seq<D>|
            #[trigger] made_by(*driver_factory, drivers) && replay_run(
                drivers,
                trace_views(traces@),
                counts_outcome(r),
            ),
{
    let total_traces = traces.len();
    let ghost all = trace_views(traces@);
    let ghost mut drivers: Seq<D> = Seq::empty();
    let mut states_so_far: usize = 0;
    let mut trace_idx: usize = 0;
    assert(all.take(0) =~= Seq::empty());
    while trace_idx < total_traces
        invariant
            trace_idx <= total_traces,
            total_traces == traces@.len(),
            all == trace_views(traces@),
            call_requires(*driver_factory, ()),
            always_callable(*progress),
            drivers.len() == trace_idx,
            made_by(*driver_factory, drivers),
            D::State::obeys_eq_spec() ==> forall|i: int|
                0 <= i < trace_idx ==> trace_passes(#[trigger] drivers[i], all[i], i),
            forall|i: int| 0 <= i < trace_idx ==> may_pass(#[trigger] drivers[i], all[i], i),
            states_so_far == capped(total_states(all.take(trace_idx as int)) as int),
        decreases total_traces - trace_idx,
    {
        let trace = &traces[trace_idx];
        let mut driver = driver_factory();
        let ghost fresh = driver;
        proof {
            let before = drivers;
            drivers = drivers.push(fresh);
            assert forall|i: int| 0 <= i < drivers.len() implies call_ensures(
                *driver_factory,
                (),
                #[trigger] drivers[i],
            ) by {
                if i < before.len() {
                    assert(drivers[i] == before[i]);
                }
            }
            if D::State::obeys_eq_spec() {
                assert forall|i: int| 0 <= i < trace_idx implies trace_passes(
                    #[trigger] drivers[i],
                    all[i],
                    i,
                ) by {
                    assert(drivers[i] == before[i]);
                }
            }
            assert forall|i: int| 0 <= i < trace_idx implies may_pass(
                #[trigger] drivers[i],
                all[i],
                i,
            ) by {
                assert(drivers[i] == before[i]);
            }
            assert(all.take(trace_idx + 1).drop_last() =~= all.take(trace_idx as int));
        }
        match replay_single_trace(&mut driver, trace, trace_idx, total_traces, progress) {
            Ok(states) => {
                assert(all[trace_idx as int] == trace@);
                assert(replay_allows(fresh, trace@, (trace_idx as int) as usize, 0, driver, None));
                assert(may_pass(fresh, trace@, trace_idx as int));
                states_so_far = add_capped(states_so_far, states);
            },
            Err(e) => {
                proof {
                    assert(all[trace_idx as int] == trace@);
                    assert(made_by(*driver_factory, drivers));
                    assert(replay_allows(
                        fresh,
                        trace@,
                        (trace_idx as int) as usize,
                        0,
                        driver,
                        Some(e@.without_diff()),
                    ));
                    assert(may_fail(fresh, trace@, trace_idx as int, e@.without_diff()));
                    assert(run_allows(drivers, all, Err(e@.without_diff())));
                    if D::State::obeys_eq_spec() {
                        assert(fails_with(drivers, all, e@.without_diff()));
                        assert(replay_run(drivers, all, Err(e@.without_diff())));
                    }
                }
                return Err(e);
            },
        }
        trace_idx += 1;
    }
    assert(all.take(trace_idx as int) =~= all);
    proof {
        assert(run_allows(drivers, all, Ok((total_traces, states_so_far))));
        if D::State::obeys_eq_spec() {
            assert(all_pass(drivers, all));
            assert(replay_run(drivers, all, Ok((total_traces, states_so_far))));
        }
    }
    Ok((total_traces, states_so_far))
}

/// Replays the traces in order, each against a fresh driver from the
/// factory, and tells the callback, if there is one, of each step before it
/// is taken. Returns what was replayed and how long it took.
///
/// The first failure ends the run: no later step and no later trace is
/// looked at. The error names the trace, the state and, where a step or a
/// comparison failed, the action.
pub fn replay_traces_with_progress<D: Driver, F: Fn() -> D, P: Fn(ReplayProgress)>(
    driver_factory: F,
    traces: &[Trace],
    progress: Option<P>,
) -> (r: Result<ReplayStats, Error>)
    requires
        call_requires(driver_factory, ()),
        always_callable(progress),
    ensures
        exists|drivers: Seq<D>|
            #[trigger] made_by(driver_factory, drivers) && run_allows(
                drivers,
                trace_views(traces@),
                stats_outcome(r),
            ),
        r matches Err(e) ==> e@.carries_report(),
        D::State::obeys_eq_spec() ==> exists|drivers: Seq<D>|
            #[trigger] made_by(driver_factory, drivers) && replay_run(
                drivers,
                trace_views(traces@),
                stats_outcome(r),
            ),
{
    let start = now();
    match replay_each(&driver_factory, traces, &progress) {
        Ok((traces_replayed, total_states)) => Ok(
            ReplayStats { traces_replayed, total_states, duration: elapsed_since(&start) },
        ),
        Err(e) => Err(e),
    }
}

/// Replays the traces in order, each against a fresh driver from the
/// factory. The first failure ends the run.
pub fn replay_traces<D: Driver, F: Fn() -> D>(driver_factory: F, traces: &[Trace]) -> (r: Result<
    (),
    Error,
>)
    requires
        call_requires(driver_factory, ()),
    ensures
        exists|drivers: Seq<D>|
            #[trigger] made_by(driver_factory, drivers) && run_allows(
                drivers,
                trace_views(traces@),
                plain_outcome(r, trace_views(traces@)),
            ),
        r matches Err(e) ==> e@.carries_report(),
        D::State::obeys_eq_spec() ==> exists|drivers: Seq<D>|
            #[trigger] made_by(driver_factory, drivers) && (match r {
                Ok(_) => all_pass(drivers, trace_views(traces@)),
                Err(e) => fails_with(drivers, trace_views(traces@), e@.without_diff()),
            }),
{
    let silent = |p: ReplayProgress| {};
    match replay_each(&driver_factory, traces, &Some(silent)) {
        Ok(_) => Ok(()),
        Err(e) => Err(e),
    }
}

/// Replays the one trace that the JSON text `json` holds against a fresh
/// driver from the factory. A text that is no trace is a parse error, and
/// the factory is not called.
pub fn replay_trace_str<D: Driver, F: Fn() -> D>(driver_factory: F, json: &str) -> (r: Result<
    (),
    Error,
>)
    requires
        call_requires(driver_factory, ()),
    ensures
        match parsed_trace(json@) {
            Err(cause) => r matches Err(e) && e@ == ErrorView::Replay(ReplayErrorView::Parse(cause)),
            Ok(states) => {
                &&& exists|drivers: Seq<D>|
                    #[trigger] made_by(driver_factory, drivers) && run_allows(
                        drivers,
                        seq![states],
                        plain_outcome(r, seq![states]),
                    )
                &&& D::State::obeys_eq_spec() ==> exists|drivers: Seq<D>|
                    #[trigger] made_by(driver_factory, drivers) && (match r {
                        Ok(_) => all_pass(drivers, seq![states]),
                        Err(e) => fails_with(drivers, seq![states], e@.without_diff()),
                    })
            },
        },
        r matches Err(e) ==> e@.carries_report(),
{
    let trace = match Trace::from_json(json) {
        Ok(trace) => trace,
        Err(e) => {
            return Err(e);
        },
    };
    let ghost states = trace@;
    let mut traces: Vec<Trace> = Vec::new();
    traces.push(trace);
    assert(trace_views(traces@) =~= seq![states]);
    replay_traces(driver_factory, traces.as_slice())
}

/// Replays one trace, the one with number `trace_idx` among `total_traces`,
/// against a fresh driver from the factory. Returns the pair of 1, for the
/// trace, and the number of its states.
///
/// This is the work on one trace of a replay that handles its traces
/// independently of one another.
pub fn replay_trace_fresh<D: Driver, F: Fn() -> D>(
    driver_factory: &F,
    trace: &Trace,
    trace_idx: usize,
    total_traces: usize,
) -> (r: Result<(usize, usize), Error>)
    requires
        call_requires(*driver_factory, ()),
    ensures
        exists|driver: D| #[trigger]
            call_ensures(*driver_factory, (), driver) && (match r {
                Ok((traces, states)) => {
                    &&& traces == 1
                    &&& states == trace@.len()
                    &&& may_pass(driver, trace@, trace_idx as int)
                },
                Err(e) => may_fail(driver, trace@, trace_idx as int, e@.without_diff()),
            }),
        r matches Err(e) ==> e@.carries_report(),
        D::State::obeys_eq_spec() ==> exists|driver: D| #[trigger]
            call_ensures(*driver_factory, (), driver) && (match r {
                Ok((traces, states)) => trace_passes(driver, trace@, trace_idx as int),
                Err(e) => replay_states(driver, trace@, trace_idx, 0).1 == Some(e@.without_diff()),
            }),
{
    let mut driver = driver_factory();
    let ghost fresh = driver;
    let silent = |p: ReplayProgress| {};
    let r = match replay_single_trace(&mut driver, trace, trace_idx, total_traces, &Some(silent)) {
        Ok(states) => {
            assert(replay_allows(fresh, trace@, (trace_idx as int) as usize, 0, driver, None));
            Ok((1, states))
        },
        Err(e) => {
            assert(replay_allows(
                fresh,
                trace@,
                (trace_idx as int) as usize,
                0,
                driver,
                Some(e@.without_diff()),
            ));
            Err(e)
        },
    };
    assert(call_ensures(*driver_factory, (), fresh));
    r
}

/// The sums of the first and of the second parts of `counts`.
pub open spec fn sum_of_counts(counts: Seq<(usize, usize)>) -> (nat, nat)
    decreases counts.len(),
{
    if counts.len() == 0 {
        (0, 0)
    } else {
        let rest = sum_of_counts(counts.drop_last());
        ((rest.0 + counts.last().0) as nat, (rest.1 + counts.last().1) as nat)
    }
}

/// Where every trace counts as one, the sum of the traces is their number.
pub proof fn lemma_sum_of_ones(counts: Seq<(usize, usize)>)
    requires
        forall|i: int| 0 <= i < counts.len() ==> (#[trigger] counts[i]).0 == 1,
    ensures
        sum_of_counts(counts).0 == counts.len(),
    decreases counts.len(),
{
    if counts.len() > 0 {
        lemma_sum_of_ones(counts.drop_last());
    }
}

/// Adds up what the replays of independent traces report, each a pair of
/// the traces and the states that it replayed, into the statistics of the
/// whole, which took `duration`. The sums are counted as far as the machine
/// counts.
pub fn merge_counts(counts: &[(usize, usize)], duration: core::time::Duration) -> (r: ReplayStats)
    ensures
        r.traces_replayed == capped(sum_of_counts(counts@).0 as int),
        r.total_states == capped(sum_of_counts(counts@).1 as int),
        r.duration == duration,
{
    let mut traces_replayed: usize = 0;
    let mut total: usize = 0;
    let mut i: usize = 0;
    assert(counts@.take(0) =~= Seq::empty());
    while i < counts.len()
        invariant
            i <= counts.len(),
            traces_replayed == capped(sum_of_counts(counts@.take(i as int)).0 as int),
            total == capped(sum_of_counts(counts@.take(i as int)).1 as int),
        decreases counts.len() - i,
    {
        assert(counts@.take(i + 1).drop_last() =~= counts@.take(i as int));
        traces_replayed = add_capped(traces_replayed, counts[i].0);
        total = add_capped(total, counts[i].1);
        i += 1;
    }
    assert(counts@.take(i as int) =~= counts@);
    ReplayStats { traces_replayed, total_states: total, duration }
}

/// Whether a file of this name holds a trace: the name ends with
/// `.itf.json`.
pub open spec fn is_trace_name(name: Seq<char>) -> bool {
    ends_with(name, ".itf.json"@)
}

/// Whether a file of this name holds a trace.
pub fn is_trace_file(name: &str) -> (r: bool)
    ensures
        r == is_trace_name(name@),
{
    has_suffix(name, ".itf.json")
}

/// Those of `names` that are names of trace files, in the order of `names`.
pub open spec fn trace_names_of(names: Seq<Seq<char>>) -> Seq<Seq<char>>
    decreases names.len(),
{
    if names.len() == 0 {
        Seq::empty()
    } else if is_trace_name(names.last()) {
        trace_names_of(names.drop_last()).push(names.last())
    } else {
        trace_names_of(names.drop_last())
    }
}

/// The trace files among the entries of a directory, in the order in which
/// their traces are loaded: sorted, so that the order does not depend on the
/// order in which the directory lists its entries.
pub fn trace_files(names: &Vec<String>) -> (files: Vec<String>)
    ensures
        sorted_by(texts_of(files@), text_order()),
        texts_of(files@).to_multiset() == trace_names_of(texts_of(names@)).to_multiset(),
{
    let ghost all = texts_of(names@);
    let mut kept: Vec<String> = Vec::new();
    let mut i: usize = 0;
    assert(all.take(0) =~= Seq::<Seq<char>>::empty());
    assert(texts_of(kept@) =~= Seq::<Seq<char>>::empty());
    while i < names.len()
        invariant
            i <= names.len(),
            all == texts_of(names@),
            texts_of(kept@) == trace_names_of(all.take(i as int)),
        decreases names.len() - i,
    {
        let ghost before = texts_of(kept@);
        assert(all.take(i + 1).drop_last() =~= all.take(i as int));
        assert(all.take(i + 1).last() == names@[i as int]@);
        if is_trace_file(names[i].as_str()) {
            kept.push(names[i].clone());
            assert(texts_of(kept@) =~= before.push(names@[i as int]@));
        }
        i += 1;
    }
    assert(all.take(i as int) =~= all);
    sort_texts(kept)
}

/// Reads the content of the trace file at `path` as a trace. A content that
/// is no trace is a parse error, which names the file.
pub fn parse_trace_file(path: &str, content: &str) -> (r: Result<Trace, Error>)
    ensures
        match parsed_trace(content@) {
            Ok(states) => r matches Ok(trace) && trace@ == states,
            Err(cause) => r matches Err(e) && e@ == ErrorView::Replay(
                ReplayErrorView::Parse("Failed to parse "@ + path@ + ": "@ + cause),
            ),
        },
{
    match parse_trace(content) {
        Ok(trace) => Ok(trace),
        Err(cause) => {
            let mut reason = String::new();
            push_text(&mut reason, "Failed to parse ");
            push_text(&mut reason, path);
            push_text(&mut reason, ": ");
            push_text(&mut reason, cause.as_str());
            assert(reason@ =~= "Failed to parse "@ + path@ + ": "@ + cause@);
            Err(Error::Replay(ReplayError::Parse(reason)))
        },
    }
}

} // verus!
