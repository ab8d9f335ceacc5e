//! Interactive runs against a scripted server, and the retry policy.

use tla_connect::rpc::client::check_ping_status;
use tla_connect::rpc::client::is_retryable_error;
use tla_connect::rpc::client::read_response;
use tla_connect::rpc::client::rpc_url;
use tla_connect::rpc::client::RetryDecision;
use tla_connect::rpc::client::RetryState;
use tla_connect::rpc::after_run;
use tla_connect::rpc::encode_sources;
use tla_connect::rpc::first_run;
use tla_connect::rpc::make_rng;
use tla_connect::rpc::types::AssumeStateResult;
use tla_connect::rpc::types::AssumeTransitionResult;
use tla_connect::rpc::types::DisposeSpecResult;
use tla_connect::rpc::types::JsonRpcError;
use tla_connect::rpc::types::JsonRpcRequest;
use tla_connect::rpc::types::JsonRpcResponse;
use tla_connect::rpc::types::LoadSpecResult;
use tla_connect::rpc::types::NextStepResult;
use tla_connect::rpc::types::QueryResult;
use tla_connect::rpc::types::RollbackResult;
use tla_connect::rpc::types::SpecParameters;
use tla_connect::rpc::types::Transition;
use tla_connect::rpc::types::TransitionStatus;
use tla_connect::rpc::wants_aux_source;
use tla_connect::rpc::Advance;
use tla_connect::rpc::AfterRun;
use tla_connect::rpc::Request;
use tla_connect::rpc::Response;
use tla_connect::rpc::RunReport;
use tla_connect::rpc::Stepper;
use tla_connect::Driver;
use tla_connect::DriverError;
use tla_connect::Error;
use tla_connect::ExtractState;
use tla_connect::InteractiveConfig;
use tla_connect::InteractiveProgress;
use tla_connect::InteractiveStats;
use tla_connect::ItfValue;
use tla_connect::Json;
use tla_connect::RetryConfig;
use tla_connect::RpcError;
use tla_connect::State;
use tla_connect::Step;

#[derive(Debug, PartialEq)]
struct Count {
    counter: i64,
}

impl State for Count {
    fn render(&self) -> String {
        format!("{:#?}", self)
    }

    fn from_spec(value: &ItfValue) -> Result<Self, DriverError> {
        match value.field("counter") {
            Some(ItfValue::Number(n)) => Ok(Count { counter: *n }),
            Some(ItfValue::BigInt(text)) => text
                .parse()
                .map(|counter| Count { counter })
                .map_err(|_| DriverError::StateExtraction("bad counter".to_string())),
            _ => Err(DriverError::StateExtraction("no counter".to_string())),
        }
    }
}

impl ExtractState<Counter> for Count {
    fn from_driver(driver: &Counter) -> Result<Self, DriverError> {
        Ok(Count { counter: driver.value })
    }
}

struct Counter {
    value: i64,
    actions: Vec<String>,
}

impl Driver for Counter {
    type State = Count;

    fn step(&mut self, step: &Step) -> Result<(), DriverError> {
        self.actions.push(step.action_taken.clone());
        match step.action_taken.as_str() {
            "init" => {
                self.value = 0;
                Ok(())
            }
            "increment" => {
                self.value += 1;
                Ok(())
            }
            other => Err(DriverError::UnknownAction(other.to_string())),
        }
    }
}

fn fresh() -> Counter {
    Counter { value: 0, actions: Vec::new() }
}

fn loaded(next: &[u32]) -> Result<Response, Error> {
    Ok(Response::SpecLoaded(LoadSpecResult {
        session_id: "s1".to_string(),
        snapshot_id: 0,
        spec_parameters: SpecParameters {
            init_transitions: vec![Transition { index: 4, labels: vec!["Init".to_string()] }],
            next_transitions: next
                .iter()
                .map(|i| Transition { index: *i, labels: Vec::new() })
                .collect(),
            state_invariants: Vec::new(),
            action_invariants: Vec::new(),
        },
    }))
}

fn assumed(id: u32, status: TransitionStatus) -> Result<Response, Error> {
    Ok(Response::TransitionAssumed(AssumeTransitionResult {
        session_id: "s1".to_string(),
        snapshot_id: 1,
        transition_id: id,
        status,
    }))
}

fn advanced(snapshot_id: u64) -> Result<Response, Error> {
    Ok(Response::StepAdvanced(NextStepResult {
        session_id: "s1".to_string(),
        snapshot_id,
        new_step_no: snapshot_id,
    }))
}

fn rolled_back(snapshot_id: u64) -> Result<Response, Error> {
    Ok(Response::RolledBack(RollbackResult { session_id: "s1".to_string(), snapshot_id }))
}

fn disposed() -> Result<Response, Error> {
    Ok(Response::Disposed(DisposeSpecResult { session_id: "s1".to_string() }))
}

fn queried(trace: &str) -> Result<Response, Error> {
    Ok(Response::Queried(QueryResult {
        session_id: "s1".to_string(),
        trace: Some(Json::parse(trace).unwrap()),
        operator_value: None,
    }))
}

/// Runs one run to its end against `server`, and returns the report with the
/// requests that were sent, each as its method and what identifies it.
fn run_against(
    config: &InteractiveConfig,
    run: usize,
    seed: u64,
    mut server: impl FnMut(&Request) -> Result<Response, Error>,
) -> (RunReport<Counter>, Vec<String>) {
    let mut rng = make_rng(Some(seed));
    let progress = None::<fn(InteractiveProgress)>;
    let mut sent = Vec::new();
    let (mut stepper, mut request) =
        Stepper::start(fresh(), run, 3, config, vec!["c3BlYw==".to_string()]);
    loop {
        sent.push(match &request {
            Request::AssumeTransition(p) => format!("assumeTransition {}", p.transition_id),
            Request::Rollback(p) => format!("rollback {}", p.snapshot_id),
            other => other.method().to_string(),
        });
        let answer = server(&request);
        match stepper.advance(answer, &mut rng, &progress) {
            Advance::Call(next, next_request) => {
                stepper = next;
                request = next_request;
            }
            Advance::Finished(report) => return (report, sent),
        }
    }
}

fn config(max_steps: usize) -> InteractiveConfig {
    InteractiveConfig::builder().spec("Counter.tla").max_steps(max_steps).build()
}

#[test]
fn init_disabled_fails_and_disposes() {
    let (report, sent) = run_against(&config(10), 2, 1, |request| match request {
        Request::LoadSpec(p) => {
            assert_eq!(p.sources, vec!["c3BlYw==".to_string()]);
            assert_eq!(p.init, "Init");
            assert_eq!(p.next, "Next");
            assert!(p.invariants.is_empty());
            loaded(&[0, 1])
        }
        Request::AssumeTransition(p) => {
            assert_eq!(p.session_id, "s1");
            assert!(p.check_enabled);
            assumed(p.transition_id, TransitionStatus::Disabled)
        }
        Request::DisposeSpec(p) => {
            assert_eq!(p.session_id, "s1");
            disposed()
        }
        other => panic!("unexpected request: {other:?}"),
    });
    assert_eq!(sent, vec!["loadSpec", "assumeTransition 4", "disposeSpec"]);
    let failure = report.failure.unwrap();
    assert!(matches!(failure, Error::Rpc(RpcError::InitDisabled { run: 2 })));
    assert_eq!(failure.to_string(), "RPC error: Run 2: Init transition is disabled");
    assert_eq!(report.steps, 0);
    assert!(!report.deadlocked);
    assert!(report.driver.actions.is_empty());
}

#[test]
fn failed_disposal_does_not_change_the_outcome() {
    let (report, sent) = run_against(&config(10), 0, 1, |request| match request {
        Request::LoadSpec(_) => loaded(&[0]),
        Request::AssumeTransition(p) => assumed(p.transition_id, TransitionStatus::Disabled),
        Request::DisposeSpec(_) => Err(Error::Rpc(RpcError::MissingResult)),
        other => panic!("unexpected request: {other:?}"),
    });
    assert_eq!(sent.last().unwrap(), "disposeSpec");
    assert!(matches!(report.failure, Some(Error::Rpc(RpcError::InitDisabled { run: 0 }))));
}

#[test]
fn failed_load_ends_the_run_without_disposal() {
    let (report, sent) = run_against(&config(10), 0, 1, |request| match request {
        Request::LoadSpec(_) => Err(Error::Rpc(RpcError::JsonRpc {
            method: "loadSpec".to_string(),
            code: -32600,
            message: "Invalid Request".to_string(),
        })),
        other => panic!("unexpected request: {other:?}"),
    });
    assert_eq!(sent, vec!["loadSpec"]);
    assert_eq!(
        report.failure.unwrap().to_string(),
        "RPC error: Apalache JSON-RPC error -32600 in loadSpec: Invalid Request"
    );
}

#[test]
fn all_candidates_disabled_is_a_deadlock() {
    let mut probes = 0;
    let (report, sent) = run_against(&config(10), 0, 7, |request| match request {
        Request::LoadSpec(_) => loaded(&[0, 1, 2]),
        Request::AssumeTransition(p) => {
            probes += 1;
            if probes == 1 {
                assumed(p.transition_id, TransitionStatus::Enabled)
            } else {
                assumed(p.transition_id, TransitionStatus::Disabled)
            }
        }
        Request::NextStep(_) => advanced(11),
        Request::Query(p) => {
            assert_eq!(p.kinds, vec!["TRACE".to_string()]);
            queried(r#"{"states": [{"counter": 5}, {"counter": 0, "action_taken": "ignored"}]}"#)
        }
        Request::Rollback(p) => rolled_back(p.snapshot_id),
        Request::DisposeSpec(_) => disposed(),
        other => panic!("unexpected request: {other:?}"),
    });
    assert!(report.failure.is_none());
    assert!(report.deadlocked);
    assert_eq!(report.steps, 1);
    assert_eq!(report.driver.actions, vec!["init".to_string()]);
    assert_eq!(sent.len(), 11);
    assert_eq!(&sent[..4], &["loadSpec", "assumeTransition 4", "nextStep", "query"]);
    let mut probed: Vec<&str> = vec![&sent[4], &sent[6], &sent[8]];
    assert_eq!(&sent[5], "rollback 11");
    assert_eq!(&sent[7], "rollback 11");
    assert_eq!(&sent[9], "rollback 11");
    assert_eq!(&sent[10], "disposeSpec");
    probed.sort();
    assert_eq!(probed, vec!["assumeTransition 0", "assumeTransition 1", "assumeTransition 2"]);

    let mut stats = InteractiveStats::default();
    stats.record(report).unwrap();
    assert_eq!(stats.deadlocks_hit, 1);
    assert_eq!(stats.runs_completed, 1);
    assert_eq!(stats.total_steps, 1);
}

#[test]
fn no_transitions_at_all_is_a_deadlock() {
    let (report, sent) = run_against(&config(10), 0, 7, |request| match request {
        Request::LoadSpec(_) => loaded(&[]),
        Request::AssumeTransition(p) => assumed(p.transition_id, TransitionStatus::Enabled),
        Request::NextStep(_) => advanced(1),
        Request::Query(_) => queried(r#"{"states": [{"counter": 0}]}"#),
        Request::DisposeSpec(_) => disposed(),
        other => panic!("unexpected request: {other:?}"),
    });
    assert!(report.failure.is_none());
    assert!(report.deadlocked);
    assert_eq!(sent, vec!["loadSpec", "assumeTransition 4", "nextStep", "query", "disposeSpec"]);
}

/// A server whose every transition is enabled and increments the counter.
fn counting_server() -> impl FnMut(&Request) -> Result<Response, Error> {
    let mut counter = -1;
    move |request| match request {
        Request::LoadSpec(_) => loaded(&[0, 1]),
        Request::AssumeTransition(p) => assumed(p.transition_id, TransitionStatus::Enabled),
        Request::NextStep(_) => {
            counter += 1;
            advanced(counter as u64)
        }
        Request::Query(_) => queried(&format!(
            r##"{{"states": [{{"counter": {{"#bigint": "{counter}"}}, "action_taken": "increment", "nondet_picks": {{"by": 1}}}}]}}"##
        )),
        Request::DisposeSpec(_) => disposed(),
        other => panic!("unexpected request: {other:?}"),
    }
}

#[test]
fn run_stops_at_the_step_limit() {
    let (report, sent) = run_against(&config(3), 0, 7, counting_server());
    assert!(report.failure.is_none());
    assert!(!report.deadlocked);
    assert_eq!(report.steps, 3);
    assert_eq!(report.driver.value, 2);
    assert_eq!(report.driver.actions, vec!["init", "increment", "increment"]);
    assert_eq!(sent.iter().filter(|s| s.as_str() == "query").count(), 3);
    assert_eq!(sent.last().unwrap(), "disposeSpec");
}

#[test]
fn run_with_one_step_makes_the_initial_step_only() {
    let (report, sent) = run_against(&config(1), 0, 7, counting_server());
    assert_eq!(report.steps, 1);
    assert_eq!(sent, vec!["loadSpec", "assumeTransition 4", "nextStep", "query", "disposeSpec"]);
    let (report, _) = run_against(&config(0), 0, 7, counting_server());
    assert_eq!(report.steps, 1);
}

#[test]
fn mismatch_in_a_run_names_run_and_step() {
    let mut queries = 0;
    let (report, sent) = run_against(&config(5), 1, 7, |request| match request {
        Request::LoadSpec(_) => loaded(&[0]),
        Request::AssumeTransition(p) => assumed(p.transition_id, TransitionStatus::Enabled),
        Request::NextStep(_) => advanced(1),
        Request::Query(_) => {
            queries += 1;
            if queries == 1 {
                queried(r#"{"states": [{"counter": 0}]}"#)
            } else {
                queried(r#"{"states": [{"counter": 8, "action_taken": "increment"}]}"#)
            }
        }
        Request::DisposeSpec(_) => disposed(),
        other => panic!("unexpected request: {other:?}"),
    });
    let text = report.failure.unwrap().to_string();
    assert!(text.starts_with("Step error: State mismatch at Run 1, step 1 (action: 'increment'):\n"));
    assert_eq!(report.steps, 1);
    assert_eq!(sent.last().unwrap(), "disposeSpec");
}

#[test]
fn state_without_action_is_an_unknown_action() {
    let mut queries = 0;
    let (report, _) = run_against(&config(5), 0, 7, |request| match request {
        Request::LoadSpec(_) => loaded(&[0]),
        Request::AssumeTransition(p) => assumed(p.transition_id, TransitionStatus::Enabled),
        Request::NextStep(_) => advanced(1),
        Request::Query(_) => {
            queries += 1;
            queried(r#"{"states": [{"counter": 0}]}"#)
        }
        Request::DisposeSpec(_) => disposed(),
        other => panic!("unexpected request: {other:?}"),
    });
    assert_eq!(queries, 2);
    assert_eq!(
        report.failure.unwrap().to_string(),
        "Step error: Run 0, step 1: failed to execute action 'unknown': Unknown action: unknown"
    );
}

#[test]
fn trace_problems_end_the_run() {
    let outcome = |trace: Option<&str>| {
        let (report, sent) = run_against(&config(5), 0, 7, |request| match request {
            Request::LoadSpec(_) => loaded(&[0]),
            Request::AssumeTransition(p) => assumed(p.transition_id, TransitionStatus::Enabled),
            Request::NextStep(_) => advanced(1),
            Request::Query(_) => match trace {
                Some(text) => queried(text),
                None => Ok(Response::Queried(QueryResult {
                    session_id: "s1".to_string(),
                    trace: None,
                    operator_value: None,
                })),
            },
            Request::DisposeSpec(_) => disposed(),
            other => panic!("unexpected request: {other:?}"),
        });
        assert_eq!(sent.last().unwrap(), "disposeSpec");
        report.failure.unwrap().to_string()
    };
    assert_eq!(outcome(None), "RPC error: Trace missing 'states' array");
    assert_eq!(outcome(Some(r#"{"vars": []}"#)), "RPC error: Trace missing 'states' array");
    assert_eq!(outcome(Some(r#"{"states": 3}"#)), "RPC error: Trace missing 'states' array");
    assert_eq!(outcome(Some(r#"{"states": []}"#)), "RPC error: Trace has no states");
    assert!(outcome(Some(r#"{"states": [1.5]}"#))
        .starts_with("RPC error: Failed to convert state to ITF Value: "));
}

#[test]
fn constants_are_assumed_before_the_initial_transition() {
    let constants = Json::parse(r#"{"N": 3}"#).unwrap();
    let config = InteractiveConfig::builder().spec("Counter.tla").constants(constants).build();
    let (report, sent) = run_against(&config, 5, 7, |request| match request {
        Request::LoadSpec(_) => loaded(&[0]),
        Request::AssumeState(p) => {
            assert_eq!(p.equalities, Json::parse(r#"{"N": 3}"#).unwrap());
            assert!(p.check_enabled);
            Ok(Response::StateAssumed(AssumeStateResult {
                session_id: "s1".to_string(),
                snapshot_id: 0,
                status: TransitionStatus::Disabled,
            }))
        }
        Request::DisposeSpec(_) => disposed(),
        other => panic!("unexpected request: {other:?}"),
    });
    assert_eq!(sent, vec!["loadSpec", "assumeState", "disposeSpec"]);
    assert_eq!(
        report.failure.unwrap().to_string(),
        "RPC error: Run 5: Constant constraints are unsatisfiable"
    );
}

#[test]
fn answer_of_the_wrong_kind_ends_the_run() {
    let (report, sent) = run_against(&config(5), 0, 7, |request| match request {
        Request::LoadSpec(_) => loaded(&[0]),
        Request::AssumeTransition(_) => advanced(1),
        Request::DisposeSpec(_) => disposed(),
        other => panic!("unexpected request: {other:?}"),
    });
    assert_eq!(sent, vec!["loadSpec", "assumeTransition 4", "disposeSpec"]);
    assert_eq!(
        report.failure.unwrap().to_string(),
        "RPC error: Failed to deserialize JSON-RPC result: unexpected response"
    );
}

#[test]
fn probes_follow_the_seed() {
    let many: Vec<u32> = (0..24).collect();
    let probes_with = |seed: u64| {
        let mut first = true;
        let (_, sent) = run_against(&config(5), 0, seed, |request| match request {
            Request::LoadSpec(_) => loaded(&many),
            Request::AssumeTransition(p) => {
                let status =
                    if first { TransitionStatus::Enabled } else { TransitionStatus::Disabled };
                first = false;
                assumed(p.transition_id, status)
            }
            Request::NextStep(_) => advanced(1),
            Request::Query(_) => queried(r#"{"states": [{"counter": 0}]}"#),
            Request::Rollback(p) => rolled_back(p.snapshot_id),
            Request::DisposeSpec(_) => disposed(),
            other => panic!("unexpected request: {other:?}"),
        });
        let probed: Vec<u32> = sent
            .iter()
            .skip(2)
            .filter_map(|s| s.strip_prefix("assumeTransition "))
            .map(|id| id.parse().unwrap())
            .collect();
        probed
    };
    let once = probes_with(42);
    let again = probes_with(42);
    assert_eq!(once, again);
    assert_ne!(once, many);
    let mut sorted = once.clone();
    sorted.sort();
    assert_eq!(sorted, many);
}

#[test]
fn record_hands_back_the_failure_of_a_run() {
    let (report, _) = run_against(&config(10), 0, 1, |request| match request {
        Request::LoadSpec(_) => loaded(&[0]),
        Request::AssumeTransition(p) => assumed(p.transition_id, TransitionStatus::Disabled),
        Request::DisposeSpec(_) => disposed(),
        other => panic!("unexpected request: {other:?}"),
    });
    let mut stats = InteractiveStats::default();
    let err = stats.record(report).unwrap_err();
    assert!(matches!(err, Error::Rpc(RpcError::InitDisabled { run: 0 })));
    assert_eq!(stats.runs_completed, 0);
    assert_eq!(stats.deadlocks_hit, 0);
}

fn transient() -> Error {
    Error::Rpc(RpcError::RequestFailed {
        url: "http://localhost:8822/rpc".to_string(),
        reason: "connection refused".to_string(),
    })
}

/// A call with retries whose attempts end as `outcomes` say, without the
/// waiting: the attempt that settled the call, and the delays in between.
fn call_with_retry(config: &RetryConfig, outcomes: &[Result<u32, fn() -> Error>]) -> (Result<u32, Error>, usize, Vec<u64>) {
    let mut state = RetryState::new(config);
    let mut delays = Vec::new();
    for (attempt, outcome) in outcomes.iter().enumerate() {
        match outcome {
            Ok(value) => return (Ok(*value), attempt, delays),
            Err(make) => {
                let err = make();
                match state.on_failure(config, &err) {
                    RetryDecision::Retry { delay_ms } => delays.push(delay_ms),
                    RetryDecision::GiveUp => return (Err(err), attempt, delays),
                }
            }
        }
    }
    panic!("the call was not settled");
}

#[test]
fn retry_succeeds_on_the_third_attempt() {
    let config = RetryConfig { max_retries: 2, ..RetryConfig::default() };
    let (result, attempt, delays) =
        call_with_retry(&config, &[Err(transient), Err(transient), Ok(9), Ok(10)]);
    assert_eq!(result.unwrap(), 9);
    assert_eq!(attempt, 2);
    assert_eq!(delays, vec![100, 200]);
}

#[test]
fn retry_gives_up_after_three_failures() {
    let config = RetryConfig { max_retries: 2, ..RetryConfig::default() };
    let (result, attempt, delays) =
        call_with_retry(&config, &[Err(transient), Err(transient), Err(transient), Ok(1)]);
    assert!(is_retryable_error(result.as_ref().unwrap_err()));
    assert_eq!(attempt, 2);
    assert_eq!(delays, vec![100, 200]);
}

#[test]
fn protocol_errors_are_not_retried() {
    let config = RetryConfig::default();
    let fatal: fn() -> Error = || Error::Rpc(RpcError::MissingResult);
    let (result, attempt, delays) = call_with_retry(&config, &[Err(fatal), Ok(1)]);
    assert_eq!(result.unwrap_err().to_string(), "RPC error: JSON-RPC response missing 'result' field");
    assert_eq!(attempt, 0);
    assert!(delays.is_empty());
}

#[test]
fn unreadable_responses_are_retried() {
    let config = RetryConfig { max_retries: 2, ..RetryConfig::default() };
    let unreadable: fn() -> Error = || Error::Rpc(RpcError::ResponseParse("eof".to_string()));
    assert!(is_retryable_error(&unreadable()));
    let (result, attempt, delays) =
        call_with_retry(&config, &[Err(unreadable), Err(transient), Ok(4)]);
    assert_eq!(result.unwrap(), 4);
    assert_eq!(attempt, 2);
    assert_eq!(delays, vec![100, 200]);
    for fatal in [
        Error::Rpc(RpcError::MissingResult),
        Error::Rpc(RpcError::JsonRpc { method: "loadSpec".to_string(), code: 1, message: String::new() }),
        Error::Rpc(RpcError::ResultDeserialize("shape".to_string())),
        Error::Rpc(RpcError::InitDisabled { run: 0 }),
        Error::Rpc(RpcError::ConstantsUnsatisfiable { run: 0 }),
        Error::Json("x".to_string()),
    ] {
        assert!(!is_retryable_error(&fatal), "{fatal:?}");
    }
}

#[test]
fn delays_grow_up_to_the_largest() {
    let config = RetryConfig {
        max_retries: 8,
        initial_delay_ms: 1000,
        backoff_permille: 1500,
        max_delay_ms: 5000,
    };
    let outcomes: Vec<Result<u32, fn() -> Error>> = vec![Err(transient); 9];
    let (result, attempt, delays) = call_with_retry(&config, &outcomes);
    assert!(result.is_err());
    assert_eq!(attempt, 8);
    assert_eq!(delays, vec![1000, 1500, 2250, 3375, 5000, 5000, 5000, 5000]);
}

#[test]
fn no_retries_means_one_attempt() {
    let config = RetryConfig { max_retries: 0, ..RetryConfig::default() };
    let (result, attempt, delays) = call_with_retry(&config, &[Err(transient), Ok(1)]);
    assert!(result.is_err());
    assert_eq!(attempt, 0);
    assert!(delays.is_empty());
}

#[test]
fn default_retry_policy() {
    let config = RetryConfig::default();
    assert_eq!(config.max_retries, 3);
    assert_eq!(config.initial_delay_ms, 100);
    assert_eq!(config.backoff_permille, 2000);
    assert_eq!(config.max_delay_ms, 5000);
}

#[test]
fn endpoint_address() {
    assert_eq!(rpc_url("http://localhost:8822"), "http://localhost:8822/rpc");
    assert_eq!(rpc_url("http://localhost:8822/"), "http://localhost:8822/rpc");
    assert_eq!(rpc_url("http://localhost:8822///"), "http://localhost:8822/rpc");
    assert_eq!(rpc_url(""), "/rpc");
}

#[test]
fn response_envelope() {
    let ok = JsonRpcResponse {
        jsonrpc: "2.0".to_string(),
        id: 1,
        result: Some(Json::Bool(true)),
        error: None,
    };
    assert_eq!(read_response("query", ok).unwrap(), Json::Bool(true));

    let failed = JsonRpcResponse {
        jsonrpc: "2.0".to_string(),
        id: 1,
        result: Some(Json::Null),
        error: Some(JsonRpcError { code: -32600, message: "Invalid Request".to_string(), data: None }),
    };
    assert_eq!(
        read_response("query", failed).unwrap_err().to_string(),
        "RPC error: Apalache JSON-RPC error -32600 in query: Invalid Request"
    );

    let empty = JsonRpcResponse { jsonrpc: "2.0".to_string(), id: 1, result: None, error: None };
    assert!(matches!(read_response("query", empty), Err(Error::Rpc(RpcError::MissingResult))));
}

#[test]
fn request_envelope() {
    let request = JsonRpcRequest::new(7, "nextStep", 5u8);
    assert_eq!(request.jsonrpc, "2.0");
    assert_eq!(request.id, 7);
    assert_eq!(request.method, "nextStep");
    assert_eq!(request.params, 5);
    let error = JsonRpcError { code: 3, message: "no".to_string(), data: None };
    assert_eq!(error.to_string(), "JSON-RPC error 3: no");
}

#[test]
fn sources_are_encoded_with_base64() {
    let contents = vec![b"hello".to_vec(), Vec::new(), vec![0xff, 0xfe, 0xfd]];
    assert_eq!(encode_sources(&contents), vec!["aGVsbG8=", "", "//79"]);
}

#[test]
fn modules_beside_the_main_module() {
    assert!(wants_aux_source("/specs/Aux.tla", "Aux.tla", "/specs/Main.tla"));
    assert!(!wants_aux_source("/specs/Main.tla", "Main.tla", "/specs/Main.tla"));
    assert!(!wants_aux_source("/specs/notes.txt", "notes.txt", "/specs/Main.tla"));
    assert!(!wants_aux_source("/specs/.tla", ".tla", "/specs/Main.tla"));
    assert!(!wants_aux_source("/specs/tla", "tla", "/specs/Main.tla"));
}

#[test]
fn interactive_config_defaults_and_setters() {
    let config = InteractiveConfig::builder().build();
    assert_eq!(config.spec, "");
    assert!(config.aux_files.is_empty());
    assert_eq!(config.init, "Init");
    assert_eq!(config.next, "Next");
    assert_eq!(config.max_steps, 100);
    assert_eq!(config.num_runs, 50);
    assert_eq!(config.constants, Json::Object(Vec::new()));
    assert_eq!(config.seed, None);

    let config = InteractiveConfig::builder()
        .spec("specs/Main.tla")
        .aux_files(vec!["specs/Aux.tla".to_string()])
        .init("Start")
        .next("Step")
        .max_steps(7)
        .num_runs(2)
        .constants(Json::Null)
        .seed(99)
        .build();
    assert_eq!(config.spec, "specs/Main.tla");
    assert_eq!(config.aux_files, vec!["specs/Aux.tla".to_string()]);
    assert_eq!(config.init, "Start");
    assert_eq!(config.next, "Step");
    assert_eq!(config.max_steps, 7);
    assert_eq!(config.num_runs, 2);
    assert_eq!(config.constants, Json::Null);
    assert_eq!(config.seed, Some(99));
}

#[test]
fn ping_counts_any_answer_but_a_server_error() {
    assert!(check_ping_status(200, "200 OK", "http://h/rpc").is_ok());
    assert!(check_ping_status(299, "299", "http://h/rpc").is_ok());
    assert!(check_ping_status(404, "404 Not Found", "http://h/rpc").is_ok());
    assert!(check_ping_status(499, "499", "http://h/rpc").is_ok());
    for status in [100, 199, 300, 399, 500, 503, 999] {
        assert!(check_ping_status(status, "s", "http://h/rpc").is_err());
    }
    assert_eq!(
        check_ping_status(500, "500 Internal Server Error", "http://h/rpc").unwrap_err().to_string(),
        "RPC error: Failed to send request to http://h/rpc. Is the Apalache server running? Server returned status 500 Internal Server Error"
    );
}

#[test]
fn test_ping_success() {
    let result = check_ping_status(200, "200 OK", "http://127.0.0.1:8822/rpc");
    assert!(result.is_ok());
}

#[test]
fn test_ping_server_error() {
    let result = check_ping_status(500, "500 Internal Server Error", "http://127.0.0.1:8822/rpc");
    assert!(result.is_err());
}

#[test]
fn test_json_rpc_error_handling() {
    let response = JsonRpcResponse {
        jsonrpc: "2.0".to_string(),
        id: 1,
        result: None,
        error: Some(JsonRpcError { code: -32600, message: "Invalid Request".to_string(), data: None }),
    };

    let result = read_response("loadSpec", response);

    assert!(result.is_err());
    let err = result.unwrap_err().to_string();
    assert!(err.contains("-32600") || err.contains("Invalid Request"));
}

#[test]
fn test_retry_on_network_error() {
    let retry_config = RetryConfig { max_retries: 3, initial_delay_ms: 10, ..Default::default() };

    let (result, attempt, delays) = call_with_retry(&retry_config, &[Ok(1)]);

    assert!(result.is_ok());
    assert_eq!(attempt, 0);
    assert!(delays.is_empty());
}

#[test]
fn runs_follow_one_another_until_one_fails() {
    assert_eq!(first_run(0), None);
    assert_eq!(first_run(3), Some(0));

    let mut stats = InteractiveStats::default();
    let mut run = first_run(3);
    let mut made = Vec::new();
    while let Some(number) = run {
        made.push(number);
        let (report, _) = run_against(&config(3), number, 7, counting_server());
        run = match after_run(&mut stats, report, number, 3) {
            AfterRun::NextRun(next) => Some(next),
            AfterRun::Passed => None,
            AfterRun::Failed(e) => panic!("a run failed: {e:?}"),
        };
    }
    assert_eq!(made, vec![0, 1, 2]);
    assert_eq!(stats.runs_completed, 3);
    assert_eq!(stats.total_steps, 9);
    assert_eq!(stats.deadlocks_hit, 0);

    let (report, _) = run_against(&config(10), 3, 1, |request| match request {
        Request::LoadSpec(_) => loaded(&[0]),
        Request::AssumeTransition(p) => assumed(p.transition_id, TransitionStatus::Disabled),
        Request::DisposeSpec(_) => disposed(),
        other => panic!("unexpected request: {other:?}"),
    });
    match after_run(&mut stats, report, 3, 10) {
        AfterRun::Failed(e) => assert!(matches!(e, Error::Rpc(RpcError::InitDisabled { run: 3 }))),
        other => panic!("the test went on: {other:?}"),
    }
    assert_eq!(stats.runs_completed, 3);
}
