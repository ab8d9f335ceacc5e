//! What holds of every replay: a driver that agrees with the trace passes,
//! and the first failure is the outcome, whatever the trace holds after it.
use crate::driver::Driver;
use crate::driver::ExtractState;
use crate::driver::State;
use crate::error::DriverErrorView;
use crate::error::ErrorView;
use crate::error::StepContext;
use crate::error::StepErrorView;
use crate::replay::check_state;
use crate::replay::mbt_vars_of;
use crate::replay::replay_allows;
use crate::replay::replay_states;
use crate::replay::step_of;
use crate::value::ItfView;
use vstd::prelude::*;
use vstd::std_specs::cmp::PartialEqSpec;

verus! {

/// Whether the driver mirrors the specification on one state: it takes the
/// step of that state without an error, and its comparable state is then
/// equal to the one that the state of the trace holds.
pub open spec fn agrees_on<D: Driver>(driver: D, state: ItfView) -> bool {
    &&& mbt_vars_of(state) is Ok
    &&& driver.step_outcome(step_of(state)) is Ok
    &&& <D::State as State>::decoded(state) is Ok
    &&& <D::State as ExtractState<D>>::extracted(driver.after_step(step_of(state))) is Ok
    &&& (<D::State as State>::decoded(state)->Ok_0).eq_spec(
        &(<D::State as ExtractState<D>>::extracted(driver.after_step(step_of(state)))->Ok_0),
    )
}

/// Whether the driver mirrors the specification on every state from `from`
/// on, each state met by the driver that the steps before it have left.
pub open spec fn mirrors<D: Driver>(driver: D, states: Seq<ItfView>, from: int) -> bool
    decreases states.len() - from,
{
    if from < 0 || from >= states.len() {
        true
    } else {
        &&& agrees_on(driver, states[from])
        &&& mirrors(driver.after_step(step_of(states[from])), states, from + 1)
    }
}

/// A driver that mirrors the specification on a trace replays it without a
/// failure, so that every state of the trace is consumed.
pub proof fn lemma_mirroring_driver_passes<D: Driver>(
    driver: D,
    states: Seq<ItfView>,
    trace: usize,
    from: int,
)
    requires
        mirrors(driver, states, from),
    ensures
        replay_states(driver, states, trace, from).1 is None,
    decreases states.len() - from,
{
    if from < 0 || from >= states.len() {
    } else {
        lemma_mirroring_driver_passes(
            driver.after_step(step_of(states[from])),
            states,
            trace,
            from + 1,
        );
    }
}

/// Where the first `k` states replay without a failure, the replay of the
/// whole trace goes on from state `k` with the driver that they leave.
pub proof fn lemma_replay_prefix<D: Driver>(
    driver: D,
    states: Seq<ItfView>,
    trace: usize,
    from: int,
    k: int,
)
    requires
        0 <= from <= k <= states.len(),
        replay_states(driver, states.take(k), trace, from).1 is None,
    ensures
        replay_states(driver, states, trace, from) == replay_states(
            replay_states(driver, states.take(k), trace, from).0,
            states,
            trace,
            k,
        ),
    decreases k - from,
{
    if from < k {
        assert(states.take(k)[from] == states[from]);
        let next = check_state(driver, states[from], trace, from as usize).0;
        lemma_replay_prefix(next, states, trace, from + 1, k);
    }
}

/// The first state whose check fails decides the replay: the outcome is the
/// failure of that state, and the driver is left as that check left it. No
/// later state has a part in it.
pub proof fn lemma_first_failure<D: Driver>(driver: D, states: Seq<ItfView>, trace: usize, k: int)
    requires
        0 <= k < states.len(),
        replay_states(driver, states.take(k), trace, 0).1 is None,
        check_state(
            replay_states(driver, states.take(k), trace, 0).0,
            states[k],
            trace,
            k as usize,
        ).1 is Some,
    ensures
        replay_states(driver, states, trace, 0) == check_state(
            replay_states(driver, states.take(k), trace, 0).0,
            states[k],
            trace,
            k as usize,
        ),
{
    lemma_replay_prefix(driver, states, trace, 0, k);
}

/// Two traces that are the same up to and with the state at which the
/// replay fails have the same outcome: what follows a failure is never
/// looked at.
pub proof fn lemma_failure_ignores_rest<D: Driver>(
    driver: D,
    a: Seq<ItfView>,
    b: Seq<ItfView>,
    trace: usize,
    k: int,
)
    requires
        0 <= k < a.len(),
        k < b.len(),
        a.take(k + 1) == b.take(k + 1),
        replay_states(driver, a.take(k), trace, 0).1 is None,
        check_state(replay_states(driver, a.take(k), trace, 0).0, a[k], trace, k as usize).1 is Some,
    ensures
        replay_states(driver, a, trace, 0) == replay_states(driver, b, trace, 0),
{
    assert(a.take(k) =~= a.take(k + 1).take(k));
    assert(b.take(k) =~= b.take(k + 1).take(k));
    assert(a[k] == a.take(k + 1)[k]);
    assert(b[k] == b.take(k + 1)[k]);
    lemma_first_failure(driver, a, trace, k);
    lemma_first_failure(driver, b, trace, k);
}

/// Where the driver does not know the action of state `k`, and says so, the
/// replay fails at that state with an error that names the action, and the
/// driver takes no further step.
pub proof fn lemma_unknown_action_fails<D: Driver>(
    driver: D,
    states: Seq<ItfView>,
    trace: usize,
    k: int,
)
    requires
        0 <= k < states.len(),
        replay_states(driver, states.take(k), trace, 0).1 is None,
        mbt_vars_of(states[k]) is Ok,
        replay_states(driver, states.take(k), trace, 0).0.step_outcome(step_of(states[k])) == Err::<
            (),
            DriverErrorView,
        >(DriverErrorView::UnknownAction(step_of(states[k]).action_taken)),
    ensures
        replay_states(driver, states, trace, 0) == (
            replay_states(driver, states.take(k), trace, 0).0.after_step(step_of(states[k])),
            Some(
                ErrorView::Step(
                    StepErrorView::StepExecution {
                        context: StepContext::Replay { trace, state: k as usize },
                        action: step_of(states[k]).action_taken,
                        reason: "Unknown action: "@ + step_of(states[k]).action_taken,
                    },
                ),
            ),
        ),
{
    lemma_first_failure(driver, states, trace, k);
}

/// Where the two comparable states differ after the step of state `k`, the
/// replay fails with a mismatch at exactly that trace and state, and the
/// driver takes no further step.
pub proof fn lemma_mismatch_fails_at_once<D: Driver>(
    driver: D,
    states: Seq<ItfView>,
    trace: usize,
    k: int,
)
    requires
        0 <= k < states.len(),
        replay_states(driver, states.take(k), trace, 0).1 is None,
        mbt_vars_of(states[k]) is Ok,
        replay_states(driver, states.take(k), trace, 0).0.step_outcome(step_of(states[k])) is Ok,
        <D::State as State>::decoded(states[k]) is Ok,
        <D::State as ExtractState<D>>::extracted(
            replay_states(driver, states.take(k), trace, 0).0.after_step(step_of(states[k])),
        ) is Ok,
        !(<D::State as State>::decoded(states[k])->Ok_0).eq_spec(
            &(<D::State as ExtractState<D>>::extracted(
                replay_states(driver, states.take(k), trace, 0).0.after_step(step_of(states[k])),
            )->Ok_0),
        ),
    ensures
        replay_states(driver, states, trace, 0) == (
            replay_states(driver, states.take(k), trace, 0).0.after_step(step_of(states[k])),
            Some(
                ErrorView::Step(
                    StepErrorView::StateMismatch {
                        context: StepContext::Replay { trace, state: k as usize },
                        action: step_of(states[k]).action_taken,
                        diff: Seq::empty(),
                    },
                ),
            ),
        ),
{
    lemma_first_failure(driver, states, trace, k);
}

/// Where the driver does not know the action of the state at which a replay
/// stands, and says so, the replay can end in one way only, whatever `==`
/// means for the states: with the error that names the action, and with the
/// driver as that one step left it.
pub proof fn lemma_unknown_action_ends_replay<D: Driver>(
    driver: D,
    states: Seq<ItfView>,
    trace: usize,
    k: int,
    end: D,
    failure: Option<ErrorView>,
)
    requires
        0 <= k < states.len(),
        mbt_vars_of(states[k]) is Ok,
        driver.step_outcome(step_of(states[k])) == Err::<(), DriverErrorView>(
            DriverErrorView::UnknownAction(step_of(states[k]).action_taken),
        ),
        replay_allows(driver, states, trace, k, end, failure),
    ensures
        end == driver.after_step(step_of(states[k])),
        failure == Some(
            ErrorView::Step(
                StepErrorView::StepExecution {
                    context: StepContext::Replay { trace, state: k as usize },
                    action: step_of(states[k]).action_taken,
                    reason: "Unknown action: "@ + step_of(states[k]).action_taken,
                },
            ),
        ),
{
}

} // verus!
