//! A counter, the smallest implementation under test. It shows how a driver
//! and its comparable state meet their contracts, and serves as a driver to
//! try a setup with.
use crate::driver::Driver;
use crate::driver::ExtractState;
use crate::driver::State;
use crate::driver::Step;
use crate::driver::StepView;
use crate::error::DriverError;
use crate::error::DriverErrorView;
use crate::numeral::i64_of_value;
use crate::value::record_field;
use crate::value::ItfValue;
use crate::value::ItfView;
use vstd::prelude::*;
use vstd::std_specs::cmp::PartialEqSpecImpl;

verus! {

/// The state of a counter that is compared with the specification: the
/// variable `counter`.
#[derive(Debug, Clone, Copy)]
pub struct CounterState {
    pub counter: i64,
}

impl PartialEq for CounterState {
    fn eq(&self, other: &Self) -> (r: bool) {
        self.counter == other.counter
    }
}

impl PartialEqSpecImpl for CounterState {
    open spec fn obeys_eq_spec() -> bool {
        true
    }

    open spec fn eq_spec(&self, other: &Self) -> bool {
        self.counter == other.counter
    }
}

/// The text that `{:#?}` gives for a counter's state with the value
/// `counter`.
pub uninterp spec fn debug_of_counter(counter: i64) -> Seq<char>;

/// The `{:#?}` rendering of a counter's state, which `Debug` as derived
/// lays out from the value of the counter alone.
#[verifier::external_body]
fn counter_debug(state: &CounterState) -> (text: String)
    ensures
        text@ == debug_of_counter(state.counter),
{
    format!("{state:#?}")
}

impl State for CounterState {
    /// The state of a trace has to be a record whose field `counter` is an
    /// integer of 64 bits.
    open spec fn decoded(value: ItfView) -> Result<Self, DriverErrorView> {
        match record_field(value, "counter"@) {
            None => Err(DriverErrorView::StateExtraction("missing field `counter`"@)),
            Some(v) => match i64_of_value(v) {
                None => Err(DriverErrorView::StateExtraction("field `counter` is no integer"@)),
                Some(counter) => Ok(CounterState { counter }),
            },
        }
    }

    open spec fn rendered(&self) -> Seq<char> {
        debug_of_counter(self.counter)
    }

    fn render(&self) -> (text: String) {
        counter_debug(self)
    }

    fn from_spec(value: &ItfValue) -> (r: Result<Self, DriverError>) {
        match value.field("counter") {
            None => Err(DriverError::StateExtraction("missing field `counter`".to_owned())),
            Some(v) => match v.as_i64() {
                None => Err(
                    DriverError::StateExtraction("field `counter` is no integer".to_owned()),
                ),
                Some(counter) => Ok(CounterState { counter }),
            },
        }
    }
}

/// A counter. It knows the actions `init`, which sets it to 0, `increment`
/// and `decrement`; it does not count beyond the integers of 64 bits.
#[derive(Debug, Clone, Copy)]
pub struct CounterDriver {
    pub value: i64,
}

impl ExtractState<CounterDriver> for CounterState {
    open spec fn extracted(driver: CounterDriver) -> Result<Self, DriverErrorView> {
        Ok(CounterState { counter: driver.value })
    }

    fn from_driver(driver: &CounterDriver) -> (r: Result<Self, DriverError>) {
        Ok(CounterState { counter: driver.value })
    }
}

impl Default for CounterDriver {
    /// A counter at 0.
    fn default() -> (r: Self)
        ensures
            r.value == 0,
    {
        CounterDriver { value: 0 }
    }
}

impl Driver for CounterDriver {
    type State = CounterState;

    open spec fn after_step(self, step: StepView) -> Self {
        if step.action_taken == "init"@ {
            CounterDriver { value: 0 }
        } else if step.action_taken == "increment"@ && self.value < i64::MAX {
            CounterDriver { value: (self.value + 1) as i64 }
        } else if step.action_taken == "decrement"@ && self.value > i64::MIN {
            CounterDriver { value: (self.value - 1) as i64 }
        } else {
            self
        }
    }

    open spec fn step_outcome(self, step: StepView) -> Result<(), DriverErrorView> {
        if step.action_taken == "init"@ || step.action_taken == "increment"@ || step.action_taken
            == "decrement"@ {
            Ok(())
        } else {
            Err(DriverErrorView::UnknownAction(step.action_taken))
        }
    }

    fn step(&mut self, step: &Step) -> (r: Result<(), DriverError>) {
        let init = "init".to_owned();
        let increment = "increment".to_owned();
        let decrement = "decrement".to_owned();
        proof {
            reveal_strlit("init");
            reveal_strlit("increment");
            reveal_strlit("decrement");
            assert("increment"@[0] != "decrement"@[0]);
            assert("init"@.len() != "increment"@.len());
        }
        if step.action_taken == init {
            self.value = 0;
            Ok(())
        } else if step.action_taken == increment {
            if self.value < i64::MAX {
                self.value = self.value + 1;
            }
            Ok(())
        } else if step.action_taken == decrement {
            if self.value > i64::MIN {
                self.value = self.value - 1;
            }
            Ok(())
        } else {
            Err(DriverError::UnknownAction(step.action_taken.clone()))
        }
    }
}

} // verus!
