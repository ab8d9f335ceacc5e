//! The pieces of a replay and of the trace conversion, one at a time.

use tla_connect::escape_tla_string;
use tla_connect::extract_mbt_vars;
use tla_connect::unified_diff;
use tla_connect::ItfValue;
use tla_connect::TraceValidatorConfig;

#[test]
fn extract_mbt_vars_from_record() {
    let state = ItfValue::Record(vec![
        ("action_taken".to_string(), ItfValue::String("increment".into())),
        (
            "nondet_picks".to_string(),
            ItfValue::Record(vec![("amount".to_string(), ItfValue::Number(5))]),
        ),
        ("counter".to_string(), ItfValue::Number(42)),
    ]);

    let (action, nondet) = extract_mbt_vars(&state).unwrap();
    assert_eq!(action, "increment");
    assert!(matches!(nondet, ItfValue::Record(_)));
}

#[test]
fn extract_mbt_vars_defaults_init() {
    let state = ItfValue::Record(vec![("counter".to_string(), ItfValue::Number(0))]);

    let (action, nondet) = extract_mbt_vars(&state).unwrap();
    assert_eq!(action, "init");
    assert!(matches!(nondet, ItfValue::Tuple(_)));
}

#[test]
fn extract_mbt_vars_rejects_non_record() {
    let state = ItfValue::Number(42);
    assert!(extract_mbt_vars(&state).is_err());
}

#[test]
fn unified_diff_identical() {
    let result = unified_diff("hello\nworld\n", "hello\nworld\n");
    assert!(!result.contains('+'));
    assert!(!result.contains('-'));
}

#[test]
fn unified_diff_different() {
    let result = unified_diff("hello\n", "world\n");
    assert!(result.contains("-hello"));
    assert!(result.contains("+world"));
}

#[test]
fn escape_tla_string_plain() {
    assert_eq!(escape_tla_string("hello"), "hello");
}

#[test]
fn escape_tla_string_special_chars() {
    assert_eq!(escape_tla_string("a\\b"), "a\\\\b");
    assert_eq!(escape_tla_string("a\"b"), "a\\\"b");
    assert_eq!(escape_tla_string("a\nb"), "a\\nb");
    assert_eq!(escape_tla_string("a\rb"), "a\\rb");
    assert_eq!(escape_tla_string("a\tb"), "a\\tb");
}

#[test]
fn escape_tla_string_control_char() {
    let result = escape_tla_string("a\x01b");
    assert_eq!(result, "a\\u0001b");
}

#[test]
fn builder_missing_required_field() {
    let result = TraceValidatorConfig::builder().build();
    assert!(result.is_err());
    let err = result.unwrap_err();
    assert!(err.to_string().contains("trace_spec"));
}
