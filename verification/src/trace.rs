//! Traces: the ordered states that a replay walks through, and how a trace
//! is read from its JSON text.
use crate::error::Error;
use crate::error::ErrorView;
use crate::error::ReplayError;
use crate::error::ReplayErrorView;
use crate::value::views_of;
use crate::value::ItfValue;
use crate::value::ItfView;
use serde::Deserialize;
use vstd::prelude::*;

verus! {

/// A trace: its states in order, each the whole state after one step.
#[derive(Debug, Clone)]
pub struct Trace {
    /// The states, the initial one first.
    pub states: Vec<ItfValue>,
}

impl View for Trace {
    type V = Seq<ItfView>;

    open spec fn view(&self) -> Seq<ItfView> {
        views_of(self.states@)
    }
}

/// The views of a sequence of traces.
pub open spec fn trace_views(traces: Seq<Trace>) -> Seq<Seq<ItfView>> {
    Seq::new(traces.len(), |i: int| traces[i]@)
}

/// A value as `itf` holds it, which only the conversions below look into.
#[verifier::external_type_specification]
#[verifier::external_body]
pub struct ExItfValue(itf::Value);

/// An unserializable expression as `itf` holds it, which only the
/// conversion below looks into.
#[verifier::external_type_specification]
#[verifier::external_body]
pub struct ExUnserializable(itf::value::Unserializable);

/// The description that an unserializable expression carries, which `itf`
/// shows only in the JSON that it writes: the text under `#unserializable`.
#[verifier::external_body]
fn unserializable_text(u: &itf::value::Unserializable) -> String {
    let json = serde_json::to_value(u).unwrap_or_default();
    json["#unserializable"].as_str().unwrap_or_default().to_string()
}

/// The same value as a tree of this library: each variant of `itf::Value`
/// becomes the variant of that meaning, and a big integer becomes its
/// decimal numeral.
#[verifier::external_body]
pub(crate) fn from_itf(v: itf::Value) -> ItfValue {
    match v {
        itf::Value::Bool(b) => ItfValue::Bool(b),
        itf::Value::Number(n) => ItfValue::Number(n),
        itf::Value::String(s) => ItfValue::String(s),
        itf::Value::BigInt(b) => ItfValue::BigInt(b.to_string()),
        itf::Value::Unserializable(u) => ItfValue::Unserializable(unserializable_text(&u)),
        other => collection_from_itf(other),
    }
}

/// The same collection as a tree of this library, with its parts in the
/// order in which `itf` walks them.
#[verifier::external_body]
fn collection_from_itf(v: itf::Value) -> ItfValue {
    match v {
        itf::Value::List(l) => ItfValue::List(l.into_iter().map(from_itf).collect()),
        itf::Value::Tuple(t) => ItfValue::Tuple(t.into_iter().map(from_itf).collect()),
        itf::Value::Set(s) => ItfValue::SetOf(s.into_iter().map(from_itf).collect()),
        itf::Value::Map(m) => ItfValue::MapOf(
            m.into_iter().map(|p| (from_itf(p.0), from_itf(p.1))).collect(),
        ),
        itf::Value::Record(r) => ItfValue::Record(
            r.into_iter().map(|f| (f.0, from_itf(f.1))).collect(),
        ),
        other => from_itf(other),
    }
}

/// What the JSON text `json` holds when it is read as a trace: its states,
/// or the parser's complaint.
pub uninterp spec fn parsed_trace(json: Seq<char>) -> Result<Seq<ItfView>, Seq<char>>;

/// Reads a trace with `serde_json::from_str`, through `itf`'s description of
/// the format. The states come back in the order of the text, each without
/// its `#meta` entry; a text that is no trace gives the parser's message.
#[verifier::external_body]
pub(crate) fn parse_trace(json: &str) -> (r: Result<Trace, String>)
    ensures
        match r {
            Ok(trace) => parsed_trace(json@) == Ok::<Seq<ItfView>, Seq<char>>(trace@),
            Err(e) => parsed_trace(json@) == Err::<Seq<ItfView>, Seq<char>>(e@),
        },
{
    match serde_json::from_str::<itf::Trace<itf::Value>>(json) {
        Ok(t) => Ok(Trace { states: t.states.into_iter().map(|s| from_itf(s.value)).collect() }),
        Err(e) => Err(e.to_string()),
    }
}

impl Trace {
    /// Reads a trace from its JSON text. A text that is no trace is a parse
    /// error with the parser's message.
    pub fn from_json(json: &str) -> (r: Result<Trace, Error>)
        ensures
            match parsed_trace(json@) {
                Ok(states) => r matches Ok(trace) && trace@ == states,
                Err(cause) => r matches Err(e) && e@ == ErrorView::Replay(
                    ReplayErrorView::Parse(cause),
                ),
            },
    {
        match parse_trace(json) {
            Ok(trace) => Ok(trace),
            Err(cause) => Err(Error::Replay(ReplayError::Parse(cause))),
        }
    }
}

/// A big integer as `itf` holds it, read by `itf` from the numeral under
/// `#bigint`. A text that `itf` does not read as a numeral is handed on as
/// a string.
#[verifier::external_body]
fn bigint_to_itf(numeral: &str) -> itf::Value {
    let written = serde_json::Value::from_iter([("#bigint", numeral)]);
    match serde_json::from_value::<itf::value::BigInt>(written) {
        Ok(n) => itf::Value::BigInt(n),
        Err(_) => itf::Value::String(numeral.to_string()),
    }
}

/// An unserializable expression as `itf` holds it, read by `itf` from the
/// description under `#unserializable`.
#[verifier::external_body]
fn unserializable_to_itf(text: &str) -> itf::Value {
    let written = serde_json::Value::from_iter([("#unserializable", text)]);
    match serde_json::from_value::<itf::value::Unserializable>(written) {
        Ok(u) => itf::Value::Unserializable(u),
        Err(_) => itf::Value::String(text.to_string()),
    }
}

/// The same value as `itf` holds it: each variant becomes the variant of
/// `itf::Value` of that meaning.
#[verifier::external_body]
fn to_itf(value: &ItfValue) -> itf::Value {
    match value {
        ItfValue::Bool(b) => itf::Value::Bool(*b),
        ItfValue::Number(n) => itf::Value::Number(*n),
        ItfValue::String(s) => itf::Value::String(s.clone()),
        ItfValue::BigInt(s) => bigint_to_itf(s),
        ItfValue::Unserializable(s) => unserializable_to_itf(s),
        other => collection_to_itf(other),
    }
}

/// The same collection as `itf` holds it, which sorts the elements of a
/// set, the keys of a map and the fields of a record.
#[verifier::external_body]
fn collection_to_itf(value: &ItfValue) -> itf::Value {
    match value {
        ItfValue::List(items) => itf::Value::List(items.iter().map(to_itf).collect()),
        ItfValue::Tuple(items) => itf::Value::Tuple(items.iter().map(to_itf).collect()),
        ItfValue::SetOf(items) => itf::Value::Set(items.iter().map(to_itf).collect()),
        ItfValue::MapOf(pairs) => itf::Value::Map(
            pairs.iter().map(|p| (to_itf(&p.0), to_itf(&p.1))).collect(),
        ),
        ItfValue::Record(fields) => itf::Value::Record(
            fields.iter().map(|f| (f.0.clone(), to_itf(&f.1))).collect(),
        ),
        other => to_itf(other),
    }
}

/// The text that `{:?}` gives for a value as `itf` holds it.
pub uninterp spec fn debug_of_value(value: ItfView) -> Seq<char>;

/// Renders a value with `format!("{:?}", ..)` as `itf` holds it: the name
/// of its kind, and its content. The text depends on the value alone.
#[verifier::external_body]
pub(crate) fn describe_value(value: &ItfValue) -> (s: String)
    ensures
        s@ == debug_of_value(value@),
{
    format!("{:?}", to_itf(value))
}

/// The string that `itf` reads from a value, or its complaint.
pub uninterp spec fn string_of_value(value: ItfView) -> Result<Seq<char>, Seq<char>>;

/// Reads a value as a string with `itf`'s deserializer, as
/// `String::deserialize` does: a string is itself, a big integer is its
/// numeral, and any other value is refused with a message that says what
/// was found. The outcome depends on the value alone.
#[verifier::external_body]
pub(crate) fn read_string(value: &ItfValue) -> (r: Result<String, String>)
    ensures
        match r {
            Ok(s) => string_of_value(value@) == Ok::<Seq<char>, Seq<char>>(s@),
            Err(e) => string_of_value(value@) == Err::<Seq<char>, Seq<char>>(e@),
        },
        r is Err ==> !(value@ is String),
        r matches Ok(s) ==> (value@ matches ItfView::String(text) ==> s@ == text),
{
    String::deserialize(to_itf(value)).map_err(|e| e.to_string())
}

} // verus!
