//! Values, errors, the diff engine and the configurations, on chosen values.

use serde::Deserialize;
use tla_connect::diff::line_diff;
use tla_connect::diff::mismatch_report;
use tla_connect::diff::render_changes;
use tla_connect::diff::ChangeTag;
use tla_connect::format_state_mismatch;
use tla_connect::counter::CounterState;
use tla_connect::debug_diff;
use tla_connect::render::debug_texts;
use tla_connect::replay::is_trace_file;
use tla_connect::replay::parse_trace_file;
use tla_connect::replay_trace_str;
use tla_connect::rpc::json_state_to_itf;
use tla_connect::sorting::sort_texts;
use tla_connect::sorting::text_before_or_at;
use tla_connect::text::chars_of;
use tla_connect::text::decimal_string;
use tla_connect::text::push_signed_decimal;
use tla_connect::text::split_lines;
use tla_connect::text::string_of;
use tla_connect::text::trim;
use tla_connect::trace_gen::apalache_args;
use tla_connect::trace_gen::check_generation_exit;
use tla_connect::trace_gen::parse_generated_trace;
use tla_connect::trace_gen::require_traces;
use tla_connect::trace_validation::validator::validation_args;
use tla_connect::unified_diff;
use tla_connect::ApalacheConfig;
use tla_connect::InteractiveConfig;
use tla_connect::ApalacheError;
use tla_connect::ApalacheMode;
use tla_connect::BuilderError;
use tla_connect::DirectoryReadError;
use tla_connect::Driver;
use tla_connect::DriverError;
use tla_connect::Error;
use tla_connect::ExtractState;
use tla_connect::ItfValue;
use tla_connect::Json;
use tla_connect::JsonNumber;
use tla_connect::ReplayError;
use tla_connect::RpcError;
use tla_connect::State;
use tla_connect::Step;
use tla_connect::StepContext;
use tla_connect::StepError;
use tla_connect::Trace;
use tla_connect::TraceGenError;
use tla_connect::TraceResult;
use tla_connect::TraceValidatorConfig;
use tla_connect::ValidationError;
use tla_connect::parse_apalache_output;
use tla_connect::extract_mbt_vars;

fn text(s: &str) -> String {
    s.to_string()
}

#[test]
fn decimal_numerals() {
    assert_eq!(decimal_string(0), "0");
    assert_eq!(decimal_string(7), "7");
    assert_eq!(decimal_string(10), "10");
    assert_eq!(decimal_string(u64::MAX), "18446744073709551615");
    let mut s = text("x=");
    push_signed_decimal(&mut s, i64::MIN);
    push_signed_decimal(&mut s, 0);
    push_signed_decimal(&mut s, -7);
    assert_eq!(s, "x=-92233720368547758080-7");
}

#[test]
fn lines_as_std_splits_them() {
    for sample in ["", "a", "a\n", "a\nb", "a\r\nb\r\n", "a\r", "\n", "\n\n", "a\n\nb", "\r\n", "a\r\r\n"] {
        let ours: Vec<String> = split_lines(&chars_of(sample)).iter().map(string_of).collect();
        let theirs: Vec<String> = sample.lines().map(|l| l.to_string()).collect();
        assert_eq!(ours, theirs, "lines of {sample:?}");
    }
}

#[test]
fn trim_as_std_trims() {
    for sample in ["", " ", "a", "  a b \t\n", "\u{a0}x\u{3000}", "\u{85}\u{2003}y", "x\u{200b}"] {
        assert_eq!(string_of(&trim(&chars_of(sample))), sample.trim(), "trim of {sample:?}");
    }
}

#[test]
fn order_of_texts_is_the_order_of_strings() {
    let samples = ["", "a", "ab", "b", "B", "a10", "a2", "é", "z", "\u{10000}"];
    for a in samples {
        for b in samples {
            assert_eq!(text_before_or_at(a, b), a <= b, "{a:?} <= {b:?}");
        }
    }
    let sorted = sort_texts(vec![text("b"), text("a"), text("b"), text(""), text("ab")]);
    assert_eq!(sorted, vec!["", "a", "ab", "b", "b"]);
}

#[test]
fn unified_diff_of_a_changed_line() {
    assert_eq!(unified_diff("a\nb\n", "a\nc\n"), " a\n-b\n+c\n");
    assert_eq!(unified_diff("a", "a"), " a\n");
    assert_eq!(unified_diff("", ""), "");
    assert_eq!(unified_diff("x\ny", "x\ny\n"), " x\n-y\n+y\n");
}

#[test]
fn changes_are_written_with_their_signs() {
    let changes = vec![
        (ChangeTag::Equal, text("same\n")),
        (ChangeTag::Delete, text("old")),
        (ChangeTag::Insert, text("")),
    ];
    assert_eq!(render_changes(&changes), " same\n-old\n+\n");
}

#[test]
fn line_diff_names_the_lines_that_differ() {
    assert_eq!(
        line_diff("S {\n    a: 1,\n    b: 2,\n}", "S {\n    a: 1,\n    b: 3,\n}"),
        "  line 3: b: 2, -> b: 3,\n"
    );
    assert_eq!(
        line_diff("a\nb", "a\nc\nd"),
        "  line 2: b -> c\n  (line count differs: 2 vs 3)\n"
    );
    assert_eq!(line_diff("a\n", "a"), "(states appear equal but PartialEq returned false)");
    assert_eq!(line_diff("", "x"), "  (line count differs: 0 vs 1)\n");
}

#[test]
fn report_of_a_mismatch() {
    assert_eq!(
        mismatch_report("  line 1: a -> b\n", "-a\n+b\n"),
        "State differences:\n  line 1: a -> b\n\n--- spec (TLA+)\n+++ driver (Rust)\n-a\n+b\n"
    );
}

#[derive(Debug, PartialEq)]
struct Pair {
    left: i64,
    right: i64,
}

impl State for Pair {
    fn render(&self) -> String {
        format!("{:#?}", self)
    }

    fn from_spec(_value: &ItfValue) -> Result<Self, DriverError> {
        Ok(Pair { left: 0, right: 0 })
    }
}

struct Still;

impl ExtractState<Still> for Pair {
    fn from_driver(_driver: &Still) -> Result<Self, DriverError> {
        Err(DriverError::StateExtraction(text("nothing to read")))
    }
}

impl Driver for Still {
    type State = Pair;

    fn step(&mut self, step: &Step) -> Result<(), DriverError> {
        if step.action_taken == "fail" {
            Err(DriverError::ActionFailed { action: text("fail"), reason: text("as asked") })
        } else {
            Ok(())
        }
    }
}

#[test]
fn mismatch_of_two_states() {
    let report = format_state_mismatch(&Pair { left: 1, right: 2 }, &Pair { left: 1, right: 3 });
    assert_eq!(
        report,
        "State differences:\n  line 3: right: 2, -> right: 3,\n\n--- spec (TLA+)\n+++ driver (Rust)\n Pair {\n     left: 1,\n-    right: 2,\n+    right: 3,\n }\n"
    );
    assert_eq!(debug_diff(&1, &2), "-1\n+2\n");
}

#[test]
fn counter_state_is_rendered_as_debug_lays_it_out() {
    let five = CounterState { counter: 5 };
    let minus = CounterState { counter: -6 };
    assert_eq!(five.render(), "CounterState {\n    counter: 5,\n}");
    assert_eq!(five.render(), format!("{:#?}", five));
    assert_eq!(minus.render(), format!("{:#?}", minus));
    assert_eq!(five.diff(&minus), "  line 2: counter: 5, -> counter: -6,\n");
    assert_eq!(five.diff(&five), "(states appear equal but PartialEq returned false)");
    assert_eq!(
        format_state_mismatch(&five, &minus),
        "State differences:\n  line 2: counter: 5, -> counter: -6,\n\n--- spec (TLA+)\n+++ driver (Rust)\n CounterState {\n-    counter: 5,\n+    counter: -6,\n }\n"
    );
}

/// A state with a rendering and a summary of its own.
#[derive(Debug, PartialEq)]
struct Lamp {
    on: bool,
}

impl State for Lamp {
    fn render(&self) -> String {
        if self.on { text("lamp\non") } else { text("lamp\noff") }
    }

    fn from_spec(_value: &ItfValue) -> Result<Self, DriverError> {
        Ok(Lamp { on: false })
    }

    fn diff(&self, other: &Self) -> String {
        format!("on: {} -> {}", self.on, other.on)
    }
}

#[test]
fn report_holds_the_summary_and_the_renderings_of_the_state() {
    assert_eq!(
        format_state_mismatch(&Lamp { on: true }, &Lamp { on: false }),
        "State differences:\non: true -> false\n--- spec (TLA+)\n+++ driver (Rust)\n lamp\n-on\n+off\n"
    );
}

#[test]
fn driver_failures_are_reported_with_their_place() {
    let failing = r##"{"#meta": {}, "states": [{"#meta": {}, "action_taken": "fail"}]}"##;
    assert_eq!(
        replay_trace_str(|| Still, failing).unwrap_err().to_string(),
        "Step error: Trace 0, state 0: failed to execute action 'fail': Action 'fail' failed: as asked"
    );
    let passing = r##"{"#meta": {}, "states": [{"#meta": {}, "action_taken": "go"}]}"##;
    assert_eq!(
        replay_trace_str(|| Still, passing).unwrap_err().to_string(),
        "Step error: Trace 0, state 0: failed to extract driver state: Failed to extract state: nothing to read"
    );
    let broken = replay_trace_str(|| Still, "{").unwrap_err();
    assert!(matches!(broken, Error::Replay(ReplayError::Parse(_))));
    assert!(broken.to_string().starts_with("Replay error: Failed to parse ITF trace: "));
}

#[test]
fn values_of_a_trace_keep_their_kind() {
    let json = r##"{"#meta": {"format": "ITF"}, "vars": ["x"], "states": [{
        "#meta": {"index": 0},
        "flag": true,
        "n": 3,
        "name": "a",
        "big": {"#bigint": "-12345678901234567890"},
        "list": [1, 2],
        "pair": {"#tup": ["x", false]},
        "set": {"#set": [2, 1]},
        "map": {"#map": [[1, "one"]]},
        "rec": {"inner": 1},
        "odd": {"#unserializable": "Int"}
    }]}"##;
    let trace = Trace::from_json(json).unwrap();
    assert_eq!(trace.states.len(), 1);
    let state = &trace.states[0];
    assert_eq!(state.field("#meta"), None);
    assert_eq!(state.field("flag"), Some(&ItfValue::Bool(true)));
    assert_eq!(state.field("n"), Some(&ItfValue::Number(3)));
    assert_eq!(state.field("name"), Some(&ItfValue::String(text("a"))));
    assert_eq!(state.field("big"), Some(&ItfValue::BigInt(text("-12345678901234567890"))));
    assert_eq!(
        state.field("list"),
        Some(&ItfValue::List(vec![ItfValue::Number(1), ItfValue::Number(2)]))
    );
    assert_eq!(
        state.field("pair"),
        Some(&ItfValue::Tuple(vec![ItfValue::String(text("x")), ItfValue::Bool(false)]))
    );
    assert_eq!(
        state.field("set"),
        Some(&ItfValue::SetOf(vec![ItfValue::Number(1), ItfValue::Number(2)]))
    );
    assert_eq!(
        state.field("map"),
        Some(&ItfValue::MapOf(vec![(ItfValue::Number(1), ItfValue::String(text("one")))]))
    );
    assert_eq!(
        state.field("rec"),
        Some(&ItfValue::Record(vec![(text("inner"), ItfValue::Number(1))]))
    );
    assert_eq!(
        state.field("odd"),
        Some(&ItfValue::Record(vec![(text("#unserializable"), ItfValue::String(text("Int")))]))
    );
    assert_eq!(state.field("absent"), None);
    assert_eq!(ItfValue::Number(1).field("n"), None);
    assert_eq!(state.clone(), *state);
    assert_eq!(ItfValue::unit(), ItfValue::Tuple(Vec::new()));
}

#[test]
fn field_lookup_takes_the_first_of_a_name() {
    let record = ItfValue::Record(vec![
        (text("a"), ItfValue::Number(1)),
        (text("a"), ItfValue::Number(2)),
    ]);
    assert_eq!(record.field("a"), Some(&ItfValue::Number(1)));
}

fn as_itf(value: &ItfValue) -> itf::Value {
    match value {
        ItfValue::Bool(b) => itf::Value::Bool(*b),
        ItfValue::Number(n) => itf::Value::Number(*n),
        ItfValue::String(s) => itf::Value::String(s.clone()),
        ItfValue::BigInt(s) => itf::Value::BigInt(itf::value::BigInt::new(s.parse::<i128>().unwrap())),
        ItfValue::List(items) => itf::Value::List(items.iter().map(as_itf).collect()),
        ItfValue::Tuple(items) => itf::Value::Tuple(items.iter().map(as_itf).collect()),
        ItfValue::SetOf(items) => itf::Value::Set(items.iter().map(as_itf).collect()),
        ItfValue::MapOf(pairs) => {
            itf::Value::Map(pairs.iter().map(|(k, v)| (as_itf(k), as_itf(v))).collect())
        }
        ItfValue::Record(fields) => {
            itf::Value::Record(fields.iter().map(|(k, v)| (k.clone(), as_itf(v))).collect())
        }
        ItfValue::Unserializable(s) => {
            let written = serde_json::Value::Object(
                [(text("#unserializable"), serde_json::Value::String(s.clone()))].into_iter().collect(),
            );
            itf::Value::Unserializable(serde_json::from_value(written).unwrap())
        }
    }
}

#[test]
fn strings_are_read_as_the_trace_format_reads_them() {
    let samples = vec![
        ItfValue::Bool(true),
        ItfValue::Bool(false),
        ItfValue::Number(5),
        ItfValue::Number(-17),
        ItfValue::String(text("increment")),
        ItfValue::BigInt(text("-42")),
        ItfValue::List(vec![ItfValue::Number(1)]),
        ItfValue::Tuple(vec![ItfValue::Number(1)]),
        ItfValue::SetOf(vec![ItfValue::Number(1)]),
        ItfValue::MapOf(vec![(ItfValue::Number(1), ItfValue::Number(2))]),
        ItfValue::Record(vec![(text("a"), ItfValue::Number(2))]),
        ItfValue::Unserializable(text("Int")),
    ];
    for sample in samples {
        let theirs = String::deserialize(as_itf(&sample))
            .map_err(|e| format!("Failed to deserialize action_taken: {e}"));
        let state = ItfValue::Record(vec![(text("action_taken"), sample.clone())]);
        let ours = extract_mbt_vars(&state).map(|vars| vars.0);
        assert_eq!(ours, theirs, "as string: {sample:?}");
    }
}

#[test]
fn action_that_is_no_string_is_an_error() {
    let state = ItfValue::Record(vec![(text("action_taken"), ItfValue::Number(5))]);
    assert_eq!(
        extract_mbt_vars(&state).unwrap_err(),
        "Failed to deserialize action_taken: invalid type: integer `5`, expected a string"
    );
    assert_eq!(
        extract_mbt_vars(&ItfValue::Bool(true)).unwrap_err(),
        "Expected ITF state to be a Record, got: Bool(true)"
    );
    let picked = ItfValue::Record(vec![
        (text("nondet_picks"), ItfValue::Number(1)),
        (text("action_taken"), ItfValue::BigInt(text("12"))),
    ]);
    assert_eq!(extract_mbt_vars(&picked).unwrap(), (text("12"), ItfValue::Number(1)));
}

#[test]
fn json_is_read_and_looked_up() {
    let value = Json::parse(r#"{"b": [1, -2, 1.5, 18446744073709551615], "a": {"x": null}, "s": "t"}"#).unwrap();
    assert_eq!(
        value.get("b"),
        Some(&Json::Array(vec![
            Json::Number(JsonNumber::PosInt(1)),
            Json::Number(JsonNumber::NegInt(-2)),
            Json::Number(JsonNumber::Float(text("1.5"))),
            Json::Number(JsonNumber::PosInt(u64::MAX)),
        ]))
    );
    assert_eq!(value.get("a"), Some(&Json::Object(vec![(text("x"), Json::Null)])));
    assert_eq!(value.get("s").unwrap().as_str(), Some("t"));
    assert_eq!(value.get("zz"), None);
    assert_eq!(value.object_len(), Some(3));
    assert_eq!(value.get("b").unwrap().as_array().unwrap().len(), 4);
    assert_eq!(Json::Null.as_array(), None);
    assert_eq!(Json::Null.as_str(), None);
    assert_eq!(Json::Null.object_len(), None);
    assert_eq!(Json::Bool(true).get("a"), None);
    assert_eq!(value.clone(), value);
    assert!(Json::parse("{").unwrap_err().to_string().starts_with("JSON error: "));
    assert_eq!(Json::empty_object(), Json::Object(Vec::new()));
}

#[test]
fn json_becomes_a_value_of_the_trace_format() {
    let state = Json::parse(r##"{"counter": {"#bigint": "5"}, "ok": true, "t": {"#tup": [1]}, "f": 2}"##).unwrap();
    assert_eq!(
        json_state_to_itf(&state).unwrap(),
        ItfValue::Record(vec![
            (text("counter"), ItfValue::BigInt(text("5"))),
            (text("f"), ItfValue::Number(2)),
            (text("ok"), ItfValue::Bool(true)),
            (text("t"), ItfValue::Tuple(vec![ItfValue::Number(1)])),
        ])
    );
    assert!(json_state_to_itf(&Json::Number(JsonNumber::Float(text("1.5")))).is_err());
    assert!(json_state_to_itf(&Json::Null)
        .unwrap_err()
        .to_string()
        .starts_with("RPC error: Failed to convert state to ITF Value: "));
}

#[test]
fn every_error_says_what_went_wrong() {
    let samples: Vec<(Error, &str)> = vec![
        (Error::Driver(DriverError::UnknownAction(text("x"))), "Driver error: Unknown action: x"),
        (
            Error::Driver(DriverError::ActionFailed { action: text("a"), reason: text("r") }),
            "Driver error: Action 'a' failed: r",
        ),
        (Error::Driver(DriverError::StateExtraction(text("s"))), "Driver error: Failed to extract state: s"),
        (
            Error::Step(StepError::SpecDeserialize {
                context: StepContext::Rpc { run: 1, step: 20 },
                reason: text("r"),
            }),
            "Step error: Run 1, step 20: failed to deserialize spec state: r",
        ),
        (
            Error::Step(StepError::DriverStateExtraction {
                context: StepContext::Replay { trace: 10, state: 0 },
                reason: text("r"),
            }),
            "Step error: Trace 10, state 0: failed to extract driver state: r",
        ),
        (
            Error::Replay(ReplayError::MbtVarExtraction { trace: 1, state: 2, reason: text("r") }),
            "Replay error: Trace 1, state 2: failed to extract MBT vars: r",
        ),
        (
            Error::Replay(ReplayError::InvalidStateType { found: text("f") }),
            "Replay error: Expected ITF state to be a Record, got: f",
        ),
        (Error::Replay(ReplayError::Parse(text("p"))), "Replay error: Failed to parse ITF trace: p"),
        (
            Error::Replay(ReplayError::DirectoryRead(DirectoryReadError { path: text("/d"), reason: text("r") })),
            "Replay error: Failed to read directory /d: r",
        ),
        (
            Error::Builder(BuilderError::MissingRequiredField { builder: "B", field: "f" }),
            "Builder error: Required field 'f' was not set on B",
        ),
        (
            Error::TraceGen(TraceGenError::Apalache(ApalacheError::Execution {
                exit_code: Some(-3),
                message: text("m"),
            })),
            "Trace generation error: Apalache failed (exit code: Some(-3)): m",
        ),
        (
            Error::TraceGen(TraceGenError::Apalache(ApalacheError::Execution {
                exit_code: None,
                message: text("m"),
            })),
            "Trace generation error: Apalache failed (exit code: None): m",
        ),
        (
            Error::TraceGen(TraceGenError::Apalache(ApalacheError::NotFound(text("n")))),
            "Trace generation error: Failed to execute Apalache. Is it installed and on PATH? n",
        ),
        (
            Error::TraceGen(TraceGenError::Apalache(ApalacheError::Timeout { millis: 1500 })),
            "Trace generation error: Apalache timed out after 1.5s",
        ),
        (Error::TraceGen(TraceGenError::SpecNotFound(text("s"))), "Trace generation error: TLA+ spec not found: s"),
        (Error::TraceGen(TraceGenError::TempDir(text("t"))), "Trace generation error: Failed to create temp directory: t"),
        (
            Error::TraceGen(TraceGenError::NoTracesFound(text("o"))),
            "Trace generation error: No ITF traces found in Apalache output directory: o",
        ),
        (
            Error::TraceGen(TraceGenError::TraceParse { path: text("p"), reason: text("r") }),
            "Trace generation error: Failed to parse ITF trace p: r",
        ),
        (
            Error::TraceGen(TraceGenError::DirectoryRead(DirectoryReadError { path: text("/d"), reason: text("r") })),
            "Trace generation error: Failed to read directory /d: r",
        ),
        (Error::Rpc(RpcError::ClientCreation(text("c"))), "RPC error: Failed to create HTTP client: c"),
        (
            Error::Rpc(RpcError::RequestFailed { url: text("u"), reason: text("r") }),
            "RPC error: Failed to send request to u. Is the Apalache server running? r",
        ),
        (Error::Rpc(RpcError::ResponseParse(text("p"))), "RPC error: Failed to parse JSON-RPC response: p"),
        (Error::Rpc(RpcError::ResultDeserialize(text("d"))), "RPC error: Failed to deserialize JSON-RPC result: d"),
        (Error::Rpc(RpcError::SpecNotFound(text("s"))), "RPC error: Spec file not found: s"),
        (
            Error::Rpc(RpcError::SpecRead { path: text("p"), reason: text("r") }),
            "RPC error: Failed to read spec file p: r",
        ),
        (Error::Rpc(RpcError::StateConversion(text("c"))), "RPC error: Failed to convert state to ITF Value: c"),
        (Error::Validation(ValidationError::TraceSpecNotFound(text("s"))), "Trace validation error: TraceSpec not found: s"),
        (Error::Validation(ValidationError::TraceFileNotFound(text("s"))), "Trace validation error: Trace file not found: s"),
        (Error::Validation(ValidationError::EmptyTrace(text("s"))), "Trace validation error: Trace file is empty: s"),
        (
            Error::Validation(ValidationError::InvalidJson { line: 3, reason: text("r") }),
            "Trace validation error: Invalid JSON on line 3: r",
        ),
        (
            Error::Validation(ValidationError::NonObjectState { found: text("f") }),
            "Trace validation error: State must serialize to a JSON object, got: f",
        ),
        (
            Error::Validation(ValidationError::InconsistentSchema {
                line: 2,
                expected: vec![text("a"), text("b")],
                found: vec![text("a\"c")],
            }),
            "Trace validation error: Inconsistent record schema: line 2 has keys [\"a\\\"c\"], expected [\"a\", \"b\"]",
        ),
        (
            Error::Validation(ValidationError::UnsupportedType { line: 1, field: text("f"), reason: text("r") }),
            "Trace validation error: Unsupported JSON value type at line 1, field 'f': r",
        ),
        (
            Error::Validation(ValidationError::FloatNotSupported { line: 1, field: text("f"), value: text("3.14") }),
            "Trace validation error: Float value not supported at line 1, field 'f': 3.14",
        ),
        (
            Error::Validation(ValidationError::TlaConversion { line: 1, reason: text("r") }),
            "Trace validation error: Failed to convert line 1 to TLA+ record: r",
        ),
        (Error::Validation(ValidationError::WorkDir(text("w"))), "Trace validation error: Failed to create work directory: w"),
        (
            Error::Validation(ValidationError::FileCopy { path: text("p"), reason: text("r") }),
            "Trace validation error: Failed to copy spec file p: r",
        ),
        (Error::Validation(ValidationError::Io(text("i"))), "Trace validation error: IO error: i"),
        (
            Error::Validation(ValidationError::EmitterFinished),
            "Trace validation error: Cannot emit after StateEmitter has been finished",
        ),
        (
            Error::Validation(ValidationError::InconsistentArrayType {
                field: text("f"),
                expected: text("Int"),
                found: text("Str"),
            }),
            "Trace validation error: Inconsistent array element types at field 'f': expected Int, got Str",
        ),
        (Error::Io(text("i")), "IO error: i"),
        (Error::Json(text("j")), "JSON error: j"),
    ];
    for (error, expected) in samples {
        assert_eq!(error.to_string(), expected);
    }
}

#[test]
fn generation_command_line() {
    let config = ApalacheConfig::builder().spec("Counter.tla").build();
    assert_eq!(config.spec, "Counter.tla");
    assert_eq!(config.inv, "TraceComplete");
    assert_eq!(config.max_traces, 100);
    assert_eq!(config.max_length, 50);
    assert_eq!(config.view, None);
    assert_eq!(config.cinit, None);
    assert_eq!(config.mode, ApalacheMode::Simulate);
    assert_eq!(config.apalache_bin, "apalache-mc");
    assert_eq!(config.out_dir, None);
    assert!(!config.keep_outputs);
    assert_eq!(
        apalache_args(&config, "/tmp/out", "/specs/Counter.tla"),
        vec![
            "simulate",
            "--inv=TraceComplete",
            "--max-run=100",
            "--length=50",
            "--out-dir=/tmp/out",
            "/specs/Counter.tla"
        ]
    );

    let config = ApalacheConfig::builder()
        .spec("Counter.tla")
        .inv("Done")
        .max_traces(3)
        .max_length(7)
        .view("View")
        .cinit("ConstInit")
        .mode(ApalacheMode::Check)
        .apalache_bin("/opt/apalache")
        .out_dir("out")
        .keep_outputs(true)
        .build();
    assert_eq!(config.apalache_bin, "/opt/apalache");
    assert_eq!(config.out_dir, Some(text("out")));
    assert!(config.keep_outputs);
    assert_eq!(
        apalache_args(&config, "out", "Counter.tla"),
        vec![
            "check",
            "--inv=Done",
            "--max-error=3",
            "--length=7",
            "--cinit=ConstInit",
            "--view=View",
            "--out-dir=out",
            "Counter.tla"
        ]
    );
    let defaults = ApalacheConfig::default();
    assert_eq!(defaults.spec, "");
    assert_eq!(defaults.inv, "TraceComplete");
}

#[test]
fn generation_exit_codes() {
    assert!(check_generation_exit(Some(0), "", "").is_ok());
    assert!(check_generation_exit(Some(12), "", "").is_ok());
    assert_eq!(
        check_generation_exit(Some(1), "out", "err").unwrap_err().to_string(),
        "Trace generation error: Apalache failed (exit code: Some(1)): stdout: out\nstderr: err"
    );
    assert!(check_generation_exit(None, "", "").is_err());
    assert!(require_traces(Vec::new(), "/out").unwrap_err().to_string().ends_with(": /out"));
    assert_eq!(require_traces(vec![Trace { states: Vec::new() }], "/out").unwrap().len(), 1);
}

#[test]
fn trace_files_are_parsed_with_their_path_in_the_error() {
    assert!(is_trace_file("run1.itf.json"));
    assert!(!is_trace_file("run1.json"));
    let good = r##"{"#meta": {}, "states": [{"#meta": {}, "x": 1}, {"#meta": {"index": 1}, "x": 2}]}"##;
    assert_eq!(parse_trace_file("a.itf.json", good).unwrap().states.len(), 2);
    assert_eq!(parse_generated_trace("a.itf.json", good).unwrap().states.len(), 2);
    assert!(parse_trace_file("a.itf.json", "[")
        .unwrap_err()
        .to_string()
        .starts_with("Replay error: Failed to parse ITF trace: Failed to parse a.itf.json: "));
    assert!(parse_generated_trace("a.itf.json", "[")
        .unwrap_err()
        .to_string()
        .starts_with("Trace generation error: Failed to parse ITF trace a.itf.json: "));
}

#[test]
fn validation_command_line() {
    let config = TraceValidatorConfig::builder()
        .trace_spec("specs/CounterTrace.tla")
        .init("I")
        .next("N")
        .inv("V")
        .cinit("C")
        .apalache_bin("bin")
        .build()
        .unwrap();
    assert_eq!(config.trace_spec, "specs/CounterTrace.tla");
    assert_eq!(config.apalache_bin, "bin");
    assert_eq!(
        validation_args(&config, 5, "/w/out", "/w/spec/CounterTrace.tla"),
        vec!["check", "--init=I", "--next=N", "--inv=V", "--cinit=C", "--length=4", "--out-dir=/w/out", "/w/spec/CounterTrace.tla"]
    );
    let config = TraceValidatorConfig::builder().trace_spec("T.tla").build().unwrap();
    assert_eq!(
        validation_args(&config, 0, "o", "T.tla"),
        vec![
            "check",
            "--init=TraceInit",
            "--next=TraceNext",
            "--inv=TraceFinished",
            "--cinit=TraceConstInit",
            "--length=0",
            "--out-dir=o",
            "T.tla"
        ]
    );
    let missing = TraceValidatorConfig::builder().init("I").build().unwrap_err();
    assert_eq!(
        missing.to_string(),
        "Required field 'trace_spec' was not set on TraceValidatorConfigBuilder"
    );
}

#[test]
fn result_of_the_model_checker() {
    assert!(matches!(parse_apalache_output("", "", Some(12)), Ok(TraceResult::Valid)));
    match parse_apalache_output("", "", Some(0)) {
        Ok(TraceResult::Invalid { reason }) => assert_eq!(
            reason,
            "Apalache completed without violating TraceFinished — the trace could not be fully replayed against the spec"
        ),
        other => panic!("unexpected result: {other:?}"),
    }
    let failed = parse_apalache_output(
        "starting\nParse Error: x\nfine\nan error occurred\n",
        "first\n\nsecond\n",
        Some(255),
    )
    .unwrap_err();
    assert_eq!(
        failed.to_string(),
        "Trace validation error: Apalache failed (exit code: Some(255)): Parse Error: x\nan error occurred\nfirst\nsecond"
    );
    let silent = parse_apalache_output("ok", "", None).unwrap_err();
    assert_eq!(
        silent.to_string(),
        "Trace validation error: Apalache failed (exit code: None): "
    );
}

#[test]
fn values_are_rendered_as_their_debug_output() {
    let samples = vec![
        ItfValue::Bool(true),
        ItfValue::Bool(false),
        ItfValue::Number(i64::MIN),
        ItfValue::String(text("a \"quoted\" line\n\ttab \\ é \u{7f}")),
        ItfValue::BigInt(text("-12")),
        ItfValue::BigInt(text("123456789012345678901234567890")),
        ItfValue::List(Vec::new()),
        ItfValue::List(vec![ItfValue::Number(1), ItfValue::Bool(false)]),
        ItfValue::Tuple(vec![ItfValue::Tuple(Vec::new())]),
        ItfValue::SetOf(vec![ItfValue::String(text("x"))]),
        ItfValue::MapOf(vec![
            (ItfValue::Number(1), ItfValue::String(text("one"))),
            (ItfValue::Number(2), ItfValue::List(vec![ItfValue::Number(2)])),
        ]),
        ItfValue::Record(vec![
            (text("a\"b"), ItfValue::Number(1)),
            (text("c"), ItfValue::Record(Vec::new())),
        ]),
        ItfValue::Unserializable(text("Int")),
    ];
    for sample in samples {
        if matches!(sample, ItfValue::Record(_)) {
            assert!(extract_mbt_vars(&sample).is_ok());
        } else {
            assert_eq!(
                extract_mbt_vars(&sample).unwrap_err(),
                format!("Expected ITF state to be a Record, got: {:?}", as_itf(&sample))
            );
        }
    }
    assert_eq!(
        extract_mbt_vars(&ItfValue::SetOf(vec![ItfValue::Number(2), ItfValue::Number(1)])).unwrap_err(),
        "Expected ITF state to be a Record, got: Set({Number(1), Number(2)})"
    );
    for sample in [vec![], vec![text("a")], vec![text("a\"b"), text(""), text("\n")]] {
        assert_eq!(debug_texts(&sample), format!("{sample:?}"));
    }
}

#[test]
fn configurations_from_the_path_of_a_specification() {
    let config = ApalacheConfig::from("specs/Counter.tla");
    assert_eq!(config.spec, "specs/Counter.tla");
    assert_eq!(config.inv, "TraceComplete");
    assert_eq!(config.max_traces, 100);

    let config = TraceValidatorConfig::from("specs/CounterTrace.tla");
    assert_eq!(config.trace_spec, "specs/CounterTrace.tla");
    assert_eq!(config.inv, "TraceFinished");

    let config: InteractiveConfig = "specs/Counter.tla".into();
    assert_eq!(config.spec, "specs/Counter.tla");
    assert_eq!(config.num_runs, 50);
}
