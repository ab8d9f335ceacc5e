//! What holds of every replay, shown on chosen traces and drivers.

use tla_connect::counter::CounterDriver;
use tla_connect::replay::merge_counts;
use tla_connect::replay::replay_trace_fresh;
use tla_connect::replay::trace_files;
use tla_connect::replay_single_trace;
use tla_connect::replay_traces_with_progress;
use tla_connect::Driver;
use tla_connect::DriverError;
use tla_connect::Error;
use tla_connect::ExtractState;
use tla_connect::ItfValue;
use tla_connect::ReplayProgress;
use tla_connect::State;
use tla_connect::Step;
use tla_connect::StepContext;
use tla_connect::StepError;
use tla_connect::Trace;

#[derive(Debug, PartialEq)]
struct Count {
    counter: i64,
}

impl State for Count {
    fn render(&self) -> String {
        format!("{:#?}", self)
    }

    fn from_spec(value: &ItfValue) -> Result<Self, DriverError> {
        match value.field("counter") {
            Some(ItfValue::Number(n)) => Ok(Count { counter: *n }),
            _ => Err(DriverError::StateExtraction("no counter".to_string())),
        }
    }
}

impl ExtractState<Counter> for Count {
    fn from_driver(driver: &Counter) -> Result<Self, DriverError> {
        Ok(Count { counter: driver.value })
    }
}

/// A counter that never falls below zero, and that counts its steps.
struct Counter {
    value: i64,
    steps: usize,
}

fn fresh() -> Counter {
    Counter { value: 0, steps: 0 }
}

impl Driver for Counter {
    type State = Count;

    fn step(&mut self, step: &Step) -> Result<(), DriverError> {
        self.steps += 1;
        match step.action_taken.as_str() {
            "init" => {
                self.value = 0;
                Ok(())
            }
            "increment" => {
                self.value += 1;
                Ok(())
            }
            "decrement" => {
                self.value = if self.value > 0 { self.value - 1 } else { 0 };
                Ok(())
            }
            other => Err(DriverError::UnknownAction(other.to_string())),
        }
    }
}

fn state(action: Option<&str>, counter: i64) -> ItfValue {
    let mut fields = Vec::new();
    if let Some(action) = action {
        fields.push(("action_taken".to_string(), ItfValue::String(action.to_string())));
    }
    fields.push(("counter".to_string(), ItfValue::Number(counter)));
    ItfValue::Record(fields)
}

fn trace(states: Vec<ItfValue>) -> Trace {
    Trace { states }
}

fn counting_trace() -> Trace {
    trace(vec![
        state(Some("init"), 0),
        state(Some("increment"), 1),
        state(Some("increment"), 2),
        state(Some("decrement"), 1),
    ])
}

#[test]
fn counter_example_replays_four_states() {
    let traces = vec![counting_trace()];
    let stats = replay_traces_with_progress(fresh, &traces, None::<fn(ReplayProgress)>).unwrap();
    assert_eq!(stats.traces_replayed, 1);
    assert_eq!(stats.total_states, 4);
}

#[test]
fn mirroring_driver_consumes_every_state() {
    let mut driver = fresh();
    let none = None::<fn(ReplayProgress)>;
    let replayed = replay_single_trace(&mut driver, &counting_trace(), 0, 1, &none).unwrap();
    assert_eq!(replayed, 4);
    assert_eq!(driver.steps, 4);
    assert_eq!(driver.value, 1);
}

#[test]
fn first_state_without_action_is_init() {
    let mut driver = Counter { value: 7, steps: 0 };
    let none = None::<fn(ReplayProgress)>;
    let states = trace(vec![state(None, 0), state(Some("increment"), 1)]);
    let replayed = replay_single_trace(&mut driver, &states, 0, 1, &none).unwrap();
    assert_eq!(replayed, 2);
    assert_eq!(driver.value, 1);
}

#[test]
fn unknown_action_fails_and_stops_the_trace() {
    let mut driver = fresh();
    let none = None::<fn(ReplayProgress)>;
    let states = trace(vec![
        state(Some("init"), 0),
        state(Some("jump"), 0),
        state(Some("increment"), 1),
    ]);
    let err = replay_single_trace(&mut driver, &states, 3, 5, &none).unwrap_err();
    assert_eq!(
        err.to_string(),
        "Step error: Trace 3, state 1: failed to execute action 'jump': Unknown action: jump"
    );
    match err {
        Error::Step(StepError::StepExecution { context, action, reason }) => {
            assert!(matches!(context, StepContext::Replay { trace: 3, state: 1 }));
            assert_eq!(action, "jump");
            assert_eq!(reason, "Unknown action: jump");
        }
        other => panic!("unexpected error: {other:?}"),
    }
    assert_eq!(driver.steps, 2);
}

#[test]
fn mismatch_fails_at_its_own_state() {
    let mut driver = fresh();
    let none = None::<fn(ReplayProgress)>;
    let states = trace(vec![
        state(Some("init"), 0),
        state(Some("increment"), 1),
        state(Some("increment"), 5),
        state(Some("increment"), 6),
    ]);
    let err = replay_single_trace(&mut driver, &states, 2, 3, &none).unwrap_err();
    match &err {
        Error::Step(StepError::StateMismatch { context, action, diff }) => {
            assert!(matches!(context, StepContext::Replay { trace: 2, state: 2 }));
            assert_eq!(action, "increment");
            assert!(diff.starts_with("State differences:\n  line 2: counter: 5, -> counter: 2,\n"));
            assert!(diff.contains("\n--- spec (TLA+)\n+++ driver (Rust)\n"));
            assert!(diff.contains("-    counter: 5,\n+    counter: 2,\n"));
        }
        other => panic!("unexpected error: {other:?}"),
    }
    assert!(err
        .to_string()
        .starts_with("Step error: State mismatch at Trace 2, state 2 (action: 'increment'):\n"));
    assert_eq!(driver.steps, 3);
}

#[test]
fn state_that_is_no_record_fails_before_the_step() {
    let mut driver = fresh();
    let none = None::<fn(ReplayProgress)>;
    let states = trace(vec![state(Some("init"), 0), ItfValue::Number(42)]);
    let err = replay_single_trace(&mut driver, &states, 0, 1, &none).unwrap_err();
    assert_eq!(
        err.to_string(),
        "Replay error: Trace 0, state 1: failed to extract MBT vars: Expected ITF state to be a Record, got: Number(42)"
    );
    assert_eq!(driver.steps, 1);
}

#[test]
fn state_without_counter_fails_to_deserialize() {
    let mut driver = fresh();
    let none = None::<fn(ReplayProgress)>;
    let states = trace(vec![ItfValue::Record(vec![])]);
    let err = replay_single_trace(&mut driver, &states, 0, 1, &none).unwrap_err();
    assert_eq!(
        err.to_string(),
        "Step error: Trace 0, state 0: failed to deserialize spec state: Failed to extract state: no counter"
    );
}

#[test]
fn later_traces_are_not_replayed_after_a_failure() {
    let traces = vec![
        counting_trace(),
        trace(vec![state(Some("init"), 0), state(Some("increment"), 3)]),
        counting_trace(),
    ];
    let seen = std::sync::Mutex::new(Vec::new());
    let progress = |p: ReplayProgress| {
        assert_eq!(p.total_traces, 3);
        seen.lock().unwrap().push((p.trace_index, p.state_index, p.total_states, p.action));
    };
    let err = replay_traces_with_progress(fresh, &traces, Some(progress)).unwrap_err();
    assert!(err.to_string().contains("State mismatch at Trace 1, state 1"));
    let seen = seen.into_inner().unwrap();
    assert_eq!(seen.len(), 6);
    assert_eq!(seen[0], (0, 0, 4, "init".to_string()));
    assert_eq!(seen[5], (1, 1, 2, "increment".to_string()));
}

#[test]
fn independent_traces_count_one_each() {
    let traces = vec![counting_trace(), counting_trace(), counting_trace()];
    let factory = fresh;
    let counts: Vec<(usize, usize)> = traces
        .iter()
        .enumerate()
        .map(|(i, t)| replay_trace_fresh(&factory, t, i, traces.len()).unwrap())
        .collect();
    assert_eq!(counts, vec![(1, 4), (1, 4), (1, 4)]);
    let stats = merge_counts(&counts, std::time::Duration::from_millis(7));
    assert_eq!(stats.traces_replayed, 3);
    assert_eq!(stats.total_states, 12);
    assert_eq!(stats.duration, std::time::Duration::from_millis(7));
    let copy = stats.clone();
    assert_eq!(copy.duration, std::time::Duration::from_millis(7));
    assert_eq!(copy.total_states, 12);
}

#[test]
fn one_bad_trace_fails_alone() {
    let traces = vec![
        counting_trace(),
        trace(vec![state(Some("init"), 0), state(Some("increment"), 9)]),
        counting_trace(),
    ];
    let factory = fresh;
    let results: Vec<Result<(usize, usize), Error>> = traces
        .iter()
        .enumerate()
        .map(|(i, t)| replay_trace_fresh(&factory, t, i, traces.len()))
        .collect();
    assert_eq!(results[0].as_ref().unwrap(), &(1, 4));
    assert!(results[1].as_ref().unwrap_err().to_string().contains("State mismatch at Trace 1, state 1"));
    assert_eq!(results[2].as_ref().unwrap(), &(1, 4));
}

#[test]
fn trace_files_are_sorted_whatever_the_listing() {
    let listed = vec![
        "b.itf.json".to_string(),
        "notes.txt".to_string(),
        "a.itf.json".to_string(),
        "c.json".to_string(),
        "a10.itf.json".to_string(),
        ".itf.json".to_string(),
    ];
    let mut other = listed.clone();
    other.reverse();
    let expected = vec![
        ".itf.json".to_string(),
        "a.itf.json".to_string(),
        "a10.itf.json".to_string(),
        "b.itf.json".to_string(),
    ];
    assert_eq!(trace_files(&listed), expected);
    assert_eq!(trace_files(&other), expected);
}

#[test]
fn counter_of_the_library_follows_a_trace() {
    let json = r##"{
        "#meta": {"format": "ITF"},
        "vars": ["counter", "action_taken"],
        "states": [
            {"#meta": {"index": 0}, "counter": {"#bigint": "0"}, "action_taken": "init"},
            {"#meta": {"index": 1}, "counter": {"#bigint": "1"}, "action_taken": "increment"},
            {"#meta": {"index": 2}, "counter": {"#bigint": "2"}, "action_taken": "increment"},
            {"#meta": {"index": 3}, "counter": {"#bigint": "1"}, "action_taken": "decrement"}
        ]
    }"##;
    let traces = vec![Trace::from_json(json).unwrap()];
    let stats =
        replay_traces_with_progress(CounterDriver::default, &traces, None::<fn(ReplayProgress)>)
            .unwrap();
    assert_eq!(stats.traces_replayed, 1);
    assert_eq!(stats.total_states, 4);

    let mut driver = CounterDriver { value: 5 };
    let none = None::<fn(ReplayProgress)>;
    let err = replay_single_trace(&mut driver, &traces[0], 0, 1, &none).map(|_| driver.value);
    assert_eq!(err.unwrap(), 1);

    let unknown = trace(vec![state(Some("reset"), 0)]);
    let mut driver = CounterDriver::default();
    let err = replay_single_trace(&mut driver, &unknown, 0, 1, &none).unwrap_err();
    assert!(err.to_string().ends_with("failed to execute action 'reset': Unknown action: reset"));

    let no_counter = trace(vec![ItfValue::Record(vec![(
        "counter".to_string(),
        ItfValue::String("one".to_string()),
    )])]);
    let err = replay_single_trace(&mut driver, &no_counter, 0, 1, &none).unwrap_err();
    assert!(err.to_string().ends_with("Failed to extract state: field `counter` is no integer"));
    let empty = trace(vec![ItfValue::Record(Vec::new())]);
    let err = replay_single_trace(&mut driver, &empty, 0, 1, &none).unwrap_err();
    assert!(err.to_string().ends_with("Failed to extract state: missing field `counter`"));
}
