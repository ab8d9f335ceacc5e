//! What an implementation under test has to offer: a driver that takes one
//! step at a time, and a comparable state that can be read both from a trace
//! and from the driver.
use crate::diff::is_mismatch_report;
use crate::diff::line_changes_of;
use crate::diff::line_diff;
use crate::diff::line_diff_text;
use crate::diff::mismatch_report;
use crate::diff::mismatch_text;
use crate::diff::unified_diff;
use crate::diff::unified_text;
use crate::error::DriverError;
use crate::error::DriverErrorView;
use crate::error::Error;
use crate::error::ErrorView;
use crate::error::StepContext;
use crate::error::StepError;
use crate::error::StepErrorView;
use crate::value::ItfValue;
use crate::value::ItfView;
use vstd::prelude::*;
use vstd::std_specs::cmp::PartialEqSpec;

verus! {

/// One transition of a trace: the action that was taken, what was chosen
/// nondeterministically while taking it, and the state that it led to.
#[derive(Debug, Clone)]
#[non_exhaustive]
pub struct Step {
    /// The name of the action.
    pub action_taken: String,
    /// The nondeterministic choices of the step; the empty tuple when there
    /// were none.
    pub nondet_picks: ItfValue,
    /// The whole state after the step, as a record of the variables.
    pub state: ItfValue,
}

/// What a [`Step`] stands for.
pub struct StepView {
    pub action_taken: Seq<char>,
    pub nondet_picks: ItfView,
    pub state: ItfView,
}

impl View for Step {
    type V = StepView;

    open spec fn view(&self) -> StepView {
        StepView {
            action_taken: self.action_taken@,
            nondet_picks: self.nondet_picks@,
            state: self.state@,
        }
    }
}

/// The text that `{:#?}` gives for `value`.
#[verifier::external_body]
fn debug_text<T: core::fmt::Debug>(value: &T) -> String {
    format!("{value:#?}")
}

/// The part of a driver's state that is compared with the specification.
///
/// A state is read from a trace by `from_spec`; what it reads depends on the
/// value alone, and `decoded` names it. Two states are compared with `==`.
/// What is proved of a comparison holds for a state type whose `==` is the
/// relation `eq_spec`, which `obeys_eq_spec` says. For people to read, a
/// state is laid out as a text by `render`; the text depends on the state
/// alone, and `rendered` names it.
pub trait State: Sized + PartialEq + core::fmt::Debug {
    /// What `from_spec` makes of `value`. An implementation says what it
    /// is; until then nothing is known of it.
    open spec fn decoded(value: ItfView) -> Result<Self, DriverErrorView> {
        arbitrary()
    }

    /// The text that `render` gives for the state. An implementation says
    /// what it is; until then nothing is known of it.
    open spec fn rendered(&self) -> Seq<char> {
        arbitrary()
    }

    /// Reads the comparable state from the state of a trace.
    fn from_spec(value: &ItfValue) -> (r: Result<Self, DriverError>)
        ensures
            match r {
                Ok(state) => Self::decoded(value@) == Ok::<Self, DriverErrorView>(state),
                Err(e) => Self::decoded(value@) == Err::<Self, DriverErrorView>(e@),
            },
    ;

    /// The state as a text of several lines, in which two states are
    /// compared line by line: the `{:#?}` rendering of the state.
    fn render(&self) -> (text: String)
        ensures
            text@ == self.rendered(),
    ;

    /// A summary of how `other` differs from `self`, for people to read. By
    /// default it is the line-by-line summary of the renderings of `self`
    /// and of `other`: each line that differs with both readings, and a note
    /// where the numbers of lines differ. An implementation may compare
    /// field by field instead.
    fn diff(&self, other: &Self) -> (summary: String)
        default_ensures
            summary@ == line_diff_text(self.rendered(), other.rendered()),
    {
        let left = self.render();
        let right = other.render();
        line_diff(left.as_str(), right.as_str())
    }
}

/// Reading the comparable state from a driver of type `D`.
pub trait ExtractState<D>: State {
    /// What `from_driver` makes of `driver`. An implementation says what
    /// it is; until then nothing is known of it.
    open spec fn extracted(driver: D) -> Result<Self, DriverErrorView> {
        arbitrary()
    }

    /// Reads the comparable state from the driver.
    fn from_driver(driver: &D) -> (r: Result<Self, DriverError>)
        ensures
            match r {
                Ok(state) => Self::extracted(*driver) == Ok::<Self, DriverErrorView>(state),
                Err(e) => Self::extracted(*driver) == Err::<Self, DriverErrorView>(e@),
            },
    ;
}

/// The implementation under test.
///
/// A step changes the driver in place. What it does depends on the driver
/// and on the step alone: `after_step` names the driver that it leaves, and
/// `step_outcome` what it reports. A driver answers an action that it does
/// not know with [`DriverError::UnknownAction`], which names the action.
pub trait Driver: Sized {
    /// The state that is compared with the specification.
    type State: State + ExtractState<Self>;

    /// The driver after `step`. An implementation says what it is; until
    /// then nothing is known of it.
    open spec fn after_step(self, step: StepView) -> Self {
        arbitrary()
    }

    /// What `step` reports. An implementation says what it is; until then
    /// nothing is known of it.
    open spec fn step_outcome(self, step: StepView) -> Result<(), DriverErrorView> {
        arbitrary()
    }

    /// Applies one step to the implementation.
    fn step(&mut self, step: &Step) -> (r: Result<(), DriverError>)
        ensures
            *final(self) == old(self).after_step(step@),
            match r {
                Ok(_) => old(self).step_outcome(step@) is Ok,
                Err(e) => old(self).step_outcome(step@) == Err::<(), DriverErrorView>(e@),
            },
    ;
}

/// The report of a mismatch between the two states `spec` and `driver`
/// under the summary `summary`: the summary, then the unified diff of the
/// renderings of the two states.
pub open spec fn state_report<S: State>(summary: Seq<char>, spec: S, driver: S) -> Seq<char> {
    mismatch_text(summary, unified_text(line_changes_of(spec.rendered(), driver.rendered())))
}

/// The report of a mismatch between the state of the specification and the
/// state of the driver: the state's own summary, then a unified diff of the
/// renderings of the two states.
pub fn format_state_mismatch<S: State>(spec: &S, driver: &S) -> (out: String)
    ensures
        exists|summary: Seq<char>| out@ == state_report(summary, *spec, *driver),
        is_mismatch_report(out@),
{
    let summary = spec.diff(driver);
    let left = spec.render();
    let right = driver.render();
    let full = unified_diff(left.as_str(), right.as_str());
    let out = mismatch_report(summary.as_str(), full.as_str());
    assert(out@ == state_report(summary@, *spec, *driver));
    out
}

/// A unified diff of the `{:#?}` renderings of two values.
pub fn debug_diff<T: core::fmt::Debug, U: core::fmt::Debug>(left: &T, right: &U) -> (out: String)
    ensures
        exists|a: Seq<char>, b: Seq<char>| out@ == unified_text(line_changes_of(a, b)),
{
    let left_text = debug_text(left);
    let right_text = debug_text(right);
    unified_diff(left_text.as_str(), right_text.as_str())
}

/// What one checked step does to a driver, and the failure that it ends
/// with, if any.
///
/// The driver takes the step; the state of the step is read as the
/// comparable state of the specification, and the driver's comparable state
/// is extracted; the two have to be equal. The first of these that fails is
/// the failure, with the place `context`. The text of a mismatch's diff is
/// left empty here.
pub open spec fn check_step<D: Driver>(driver: D, step: StepView, context: StepContext) -> (
    D,
    Option<ErrorView>,
) {
    let next = driver.after_step(step);
    match driver.step_outcome(step) {
        Err(e) => (
            next,
            Some(
                ErrorView::Step(
                    StepErrorView::StepExecution {
                        context,
                        action: step.action_taken,
                        reason: e.message(),
                    },
                ),
            ),
        ),
        Ok(_) => match <D::State as State>::decoded(step.state) {
            Err(e) => (
                next,
                Some(ErrorView::Step(StepErrorView::SpecDeserialize { context, reason: e.message() })),
            ),
            Ok(spec_state) => match <D::State as ExtractState<D>>::extracted(next) {
                Err(e) => (
                    next,
                    Some(
                        ErrorView::Step(
                            StepErrorView::DriverStateExtraction { context, reason: e.message() },
                        ),
                    ),
                ),
                Ok(driver_state) => if spec_state.eq_spec(&driver_state) {
                    (next, None)
                } else {
                    (
                        next,
                        Some(
                            ErrorView::Step(
                                StepErrorView::StateMismatch {
                                    context,
                                    action: step.action_taken,
                                    diff: Seq::empty(),
                                },
                            ),
                        ),
                    )
                },
            },
        },
    }
}

/// The failure of a checked step that does not depend on the comparison:
/// the driver refuses the step, or one of the two states cannot be read.
pub open spec fn failure_before_comparison<D: Driver>(
    driver: D,
    step: StepView,
    context: StepContext,
) -> Option<ErrorView> {
    match driver.step_outcome(step) {
        Err(e) => Some(
            ErrorView::Step(
                StepErrorView::StepExecution {
                    context,
                    action: step.action_taken,
                    reason: e.message(),
                },
            ),
        ),
        Ok(_) => match <D::State as State>::decoded(step.state) {
            Err(e) => Some(
                ErrorView::Step(StepErrorView::SpecDeserialize { context, reason: e.message() }),
            ),
            Ok(_) => match <D::State as ExtractState<D>>::extracted(driver.after_step(step)) {
                Err(e) => Some(
                    ErrorView::Step(
                        StepErrorView::DriverStateExtraction { context, reason: e.message() },
                    ),
                ),
                Ok(_) => None,
            },
        },
    }
}

/// Whether the two comparable states of a checked step are equal, where
/// both can be read.
pub open spec fn states_agree<D: Driver>(driver: D, step: StepView) -> bool {
    (<D::State as State>::decoded(step.state)->Ok_0).eq_spec(
        &(<D::State as ExtractState<D>>::extracted(driver.after_step(step))->Ok_0),
    )
}

/// Whether a checked step may end with `failure`, a mismatch taken without
/// the text of its diff. A failure before the comparison is the one
/// outcome. Else the step passes or ends with a mismatch as the comparison
/// says; for a state type whose `==` is the relation `eq_spec` that is
/// decided by the two states, and for any other type either may happen.
pub open spec fn step_allows<D: Driver>(
    driver: D,
    step: StepView,
    context: StepContext,
    failure: Option<ErrorView>,
) -> bool {
    match failure_before_comparison(driver, step, context) {
        Some(e) => failure == Some(e),
        None => match failure {
            None => D::State::obeys_eq_spec() ==> states_agree(driver, step),
            Some(e) => {
                &&& e == ErrorView::Step(
                    StepErrorView::StateMismatch {
                        context,
                        action: step.action_taken,
                        diff: Seq::empty(),
                    },
                )
                &&& D::State::obeys_eq_spec() ==> !states_agree(driver, step)
            },
        },
    }
}

/// For a state type whose `==` is the relation `eq_spec`, a checked step
/// has the one outcome that `check_step` names.
pub proof fn lemma_step_allows_is_check<D: Driver>(
    driver: D,
    step: StepView,
    context: StepContext,
    failure: Option<ErrorView>,
)
    requires
        D::State::obeys_eq_spec(),
    ensures
        step_allows(driver, step, context, failure) <==> failure == check_step(
            driver,
            step,
            context,
        ).1,
        check_step(driver, step, context).0 == driver.after_step(step),
{
}

/// Whether a failure, where it is a mismatch, carries as its diff the
/// report of the two states that were compared: the comparable state that
/// `state` is read as, and the comparable state of the driver `end`.
pub open spec fn shows_mismatch<D: Driver>(e: Error, state: ItfView, end: D) -> bool {
    e matches Error::Step(StepError::StateMismatch { diff, .. }) ==> exists|summary: Seq<char>|
        diff@ == state_report(
            summary,
            <D::State as State>::decoded(state)->Ok_0,
            <D::State as ExtractState<D>>::extracted(end)->Ok_0,
        )
}

/// The failure that a result carries, a mismatch taken without the text of
/// its diff.
pub open spec fn failure_of(r: Result<(), Error>) -> Option<ErrorView> {
    match r {
        Ok(_) => None,
        Err(e) => Some(e@.without_diff()),
    }
}

/// Has the driver take one step, and compares its state with the state of
/// the step. A mismatch is reported with the diff of the two states: the
/// state that the step holds and the state of the driver after the step.
pub fn take_step<D: Driver>(driver: &mut D, step: &Step, context: StepContext) -> (r: Result<
    (),
    Error,
>)
    ensures
        *final(driver) == old(driver).after_step(step@),
        step_allows(*old(driver), step@, context, failure_of(r)),
        r matches Err(e) ==> e@.carries_report(),
        r matches Err(e) ==> shows_mismatch(e, step@.state, *final(driver)),
        D::State::obeys_eq_spec() ==> (match r {
            Ok(_) => check_step(*old(driver), step@, context).1 is None,
            Err(e) => check_step(*old(driver), step@, context).1 == Some(e@.without_diff()),
        }),
{
    if let Err(e) = driver.step(step) {
        let reason = e.to_string();
        return Err(
            Error::Step(
                StepError::StepExecution { context, action: step.action_taken.clone(), reason },
            ),
        );
    }
    let spec_state = match D::State::from_spec(&step.state) {
        Ok(s) => s,
        Err(e) => {
            let reason = e.to_string();
            return Err(Error::Step(StepError::SpecDeserialize { context, reason }));
        },
    };
    let driver_state = match D::State::from_driver(driver) {
        Ok(s) => s,
        Err(e) => {
            let reason = e.to_string();
            return Err(Error::Step(StepError::DriverStateExtraction { context, reason }));
        },
    };
    if spec_state != driver_state {
        let diff = format_state_mismatch(&spec_state, &driver_state);
        return Err(
            Error::Step(
                StepError::StateMismatch { context, action: step.action_taken.clone(), diff },
            ),
        );
    }
    Ok(())
}

} // verus!
