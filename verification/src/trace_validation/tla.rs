//! Writing recorded states as values of TLA+: a JSON value becomes the text
//! of the TLA+ value of the same shape, and a recorded trace becomes a module
//! that defines the trace as a constant.
use crate::error::Error;
use crate::error::ErrorView;
use crate::error::ValidationError;
use crate::error::ValidationErrorView;
use crate::json::json_member;
use crate::json::json_text;
use crate::json::json_text_of;
use crate::json::json_views_of;
use crate::json::lemma_json_view_unfold;
use crate::json::member_views_of;
use crate::json::parse_json;
use crate::json::parsed_json;
use crate::sorting::entry_views;
use crate::sorting::sort_entries;
use crate::sorting::sort_texts;
use crate::sorting::sorted_entries;
use crate::sorting::text_order;
use crate::json::Json;
use crate::json::JsonNumber;
use crate::json::JsonNumberView;
use crate::json::JsonView;
use crate::text::chars_of;
use crate::text::decimal;
use crate::text::joined;
use crate::text::line_views;
use crate::text::lines_of;
use crate::text::push_decimal;
use crate::text::push_joined;
use crate::text::push_signed_decimal;
use crate::text::push_text;
use crate::text::signed_decimal;
use crate::text::split_lines;
use crate::text::string_of;
use crate::text::texts_of;
use crate::text::trim;
use crate::text::trimmed;
use crate::trace_validation::validator::escape_tla_string;
use crate::trace_validation::validator::escaped;
use vstd::prelude::*;

verus! {

/// The name of the element `i` of the array `field`.
pub open spec fn element_name(field: Seq<char>, i: nat) -> Seq<char> {
    field + "["@ + decimal(i) + "]"@
}

/// The name of the member `key` of the object `field`.
pub open spec fn member_name(field: Seq<char>, key: Seq<char>) -> Seq<char> {
    field + "."@ + key
}

/// The error for a number that is no integer.
pub open spec fn float_error(line: usize, field: Seq<char>, value: Seq<char>) -> ErrorView {
    ErrorView::Validation(ValidationErrorView::FloatNotSupported { line, field, value })
}

/// Entries as texts: each name, `between`, and what goes with the name.
pub open spec fn named_entries(entries: Seq<(Seq<char>, Seq<char>)>, between: Seq<char>) -> Seq<
    Seq<char>,
> {
    Seq::new(entries.len(), |i: int| entries[i].0 + between + entries[i].1)
}

/// The TLA+ text of a JSON value on line `line`, where `field` names the
/// value: `null` is the string `"null"`, a truth value is `TRUE` or `FALSE`,
/// an integer is its numeral, a string is a string literal, an array is a
/// sequence in `<<` and `>>`, and an object is a record in `[` and `]` with
/// its fields in the order of their names. A number that is no integer
/// cannot be written.
pub open spec fn tla_value_of(value: JsonView, line: usize, field: Seq<char>) -> Result<
    Seq<char>,
    ErrorView,
>
    decreases value, 0nat,
{
    match value {
        JsonView::Null => Ok("\"null\""@),
        JsonView::Bool(b) => Ok(
            if b {
                "TRUE"@
            } else {
                "FALSE"@
            },
        ),
        JsonView::Number(JsonNumberView::PosInt(n)) => Ok(decimal(n as nat)),
        JsonView::Number(JsonNumberView::NegInt(n)) => Ok(signed_decimal(n as int)),
        JsonView::Number(JsonNumberView::Float(text)) => Err(float_error(line, field, text)),
        JsonView::String(s) => Ok("\""@ + escaped(s) + "\""@),
        JsonView::Array(items) => match tla_elements_of(items, line, field, items.len()) {
            Ok(parts) => Ok("<<"@ + joined(parts, ", "@) + ">>"@),
            Err(e) => Err(e),
        },
        JsonView::Object(members) => match tla_fields_of(members, line, members.len()) {
            Ok(entries) => Ok(
                "["@ + joined(named_entries(sorted_entries(entries), " |-> "@), ", "@) + "]"@,
            ),
            Err(e) => Err(e),
        },
    }
}

/// The TLA+ texts of the first `n` elements of an array, or the error of the
/// first that cannot be written.
pub open spec fn tla_elements_of(items: Seq<JsonView>, line: usize, field: Seq<char>, n: nat) -> Result<
    Seq<Seq<char>>,
    ErrorView,
>
    decreases items, n,
{
    if n == 0 || n > items.len() {
        Ok(Seq::empty())
    } else {
        match tla_elements_of(items, line, field, (n - 1) as nat) {
            Err(e) => Err(e),
            Ok(parts) => match tla_value_of(
                items[n - 1],
                line,
                element_name(field, (n - 1) as nat),
            ) {
                Ok(part) => Ok(parts.push(part)),
                Err(e) => Err(e),
            },
        }
    }
}

/// The first `n` members of an object, each with the TLA+ text of its
/// value, in the order of the members; or the error of the first member
/// that cannot be written. A member's value is named by the member's own
/// name.
pub open spec fn tla_fields_of(members: Seq<(Seq<char>, JsonView)>, line: usize, n: nat) -> Result<
    Seq<(Seq<char>, Seq<char>)>,
    ErrorView,
>
    decreases members, n,
{
    if n == 0 || n > members.len() {
        Ok(Seq::empty())
    } else {
        match tla_fields_of(members, line, (n - 1) as nat) {
            Err(e) => Err(e),
            Ok(parts) => match tla_value_of(members[n - 1].1, line, members[n - 1].0) {
                Ok(part) => Ok(parts.push((members[n - 1].0, part))),
                Err(e) => Err(e),
            },
        }
    }
}

/// An error among the first elements is the error of all of them.
pub proof fn lemma_element_error_stays(
    items: Seq<JsonView>,
    line: usize,
    field: Seq<char>,
    n: nat,
    m: nat,
)
    requires
        n <= m <= items.len(),
        tla_elements_of(items, line, field, n) is Err,
    ensures
        tla_elements_of(items, line, field, m) == tla_elements_of(items, line, field, n),
    decreases m - n,
{
    if n < m {
        lemma_element_error_stays(items, line, field, n, (m - 1) as nat);
    }
}

/// An error among the first members is the error of all of them.
pub proof fn lemma_field_error_stays(
    members: Seq<(Seq<char>, JsonView)>,
    line: usize,
    n: nat,
    m: nat,
)
    requires
        n <= m <= members.len(),
        tla_fields_of(members, line, n) is Err,
    ensures
        tla_fields_of(members, line, m) == tla_fields_of(members, line, n),
    decreases m - n,
{
    if n < m {
        lemma_field_error_stays(members, line, n, (m - 1) as nat);
    }
}

fn element_field(field: &str, i: usize) -> (name: String)
    ensures
        name@ == element_name(field@, i as nat),
{
    let mut name = String::new();
    push_text(&mut name, field);
    push_text(&mut name, "[");
    push_decimal(&mut name, i as u64);
    push_text(&mut name, "]");
    assert(name@ =~= element_name(field@, i as nat));
    name
}

fn tla_elements(items: &Vec<Json>, line: usize, field: &str) -> (r: Result<Vec<String>, Error>)
    ensures
        match r {
            Ok(parts) => tla_elements_of(json_views_of(items@), line, field@, items@.len()) == Ok::<
                Seq<Seq<char>>,
                ErrorView,
            >(texts_of(parts@)),
            Err(e) => tla_elements_of(json_views_of(items@), line, field@, items@.len()) == Err::<
                Seq<Seq<char>>,
                ErrorView,
            >(e@),
        },
    decreases items, 0nat,
{
    let ghost views = json_views_of(items@);
    let mut parts: Vec<String> = Vec::new();
    let mut i: usize = 0;
    assert(texts_of(parts@) =~= Seq::<Seq<char>>::empty());
    while i < items.len()
        invariant
            i <= items.len(),
            views == json_views_of(items@),
            tla_elements_of(views, line, field@, i as nat) == Ok::<Seq<Seq<char>>, ErrorView>(
                texts_of(parts@),
            ),
        decreases items.len() - i,
    {
        let ghost before = texts_of(parts@);
        let name = element_field(field, i);
        match json_to_tla_value(&items[i], line, name.as_str()) {
            Ok(part) => {
                parts.push(part);
                assert(texts_of(parts@) =~= before.push(part@));
            },
            Err(e) => {
                proof {
                    lemma_element_error_stays(
                        views,
                        line,
                        field@,
                        (i + 1) as nat,
                        items@.len() as nat,
                    );
                }
                return Err(e);
            },
        }
        i += 1;
    }
    Ok(parts)
}

fn tla_fields(members: &Vec<(String, Json)>, line: usize) -> (r: Result<
    Vec<(String, String)>,
    Error,
>)
    ensures
        match r {
            Ok(entries) => tla_fields_of(member_views_of(members@), line, members@.len()) == Ok::<
                Seq<(Seq<char>, Seq<char>)>,
                ErrorView,
            >(entry_views(entries@)),
            Err(e) => tla_fields_of(member_views_of(members@), line, members@.len()) == Err::<
                Seq<(Seq<char>, Seq<char>)>,
                ErrorView,
            >(e@),
        },
    decreases members, 0nat,
{
    let ghost views = member_views_of(members@);
    let mut entries: Vec<(String, String)> = Vec::new();
    let mut i: usize = 0;
    assert(entry_views(entries@) =~= Seq::empty());
    while i < members.len()
        invariant
            i <= members.len(),
            views == member_views_of(members@),
            tla_fields_of(views, line, i as nat) == Ok::<Seq<(Seq<char>, Seq<char>)>, ErrorView>(
                entry_views(entries@),
            ),
        decreases members.len() - i,
    {
        let ghost before = entry_views(entries@);
        assert(decreases_to!(members => members[i as int]));
        match json_to_tla_value(&members[i].1, line, members[i].0.as_str()) {
            Ok(value) => {
                entries.push((members[i].0.clone(), value));
                assert(entry_views(entries@) =~= before.push((members@[i as int].0@, value@)));
            },
            Err(e) => {
                proof {
                    lemma_field_error_stays(views, line, (i + 1) as nat, members@.len() as nat);
                }
                return Err(e);
            },
        }
        i += 1;
    }
    Ok(entries)
}

/// Writes entries as texts, each name, `between`, and what goes with the
/// name.
fn write_entries(entries: &Vec<(String, String)>, between: &str) -> (parts: Vec<String>)
    ensures
        texts_of(parts@) == named_entries(entry_views(entries@), between@),
{
    let mut parts: Vec<String> = Vec::new();
    let mut i: usize = 0;
    while i < entries.len()
        invariant
            i <= entries.len(),
            parts@.len() == i,
            forall|j: int|
                0 <= j < i ==> parts@[j]@ == entries@[j].0@ + between@ + entries@[j].1@,
        decreases entries.len() - i,
    {
        let mut part = String::new();
        push_text(&mut part, entries[i].0.as_str());
        push_text(&mut part, between);
        push_text(&mut part, entries[i].1.as_str());
        assert(part@ =~= entries@[i as int].0@ + between@ + entries@[i as int].1@);
        parts.push(part);
        i += 1;
    }
    assert(texts_of(parts@) =~= named_entries(entry_views(entries@), between@));
    parts
}

/// Writes a JSON value as a value of TLA+. The value stands on line `line`
/// of the trace, and `field` names it in an error.
pub fn json_to_tla_value(value: &Json, line: usize, field: &str) -> (r: Result<String, Error>)
    ensures
        match r {
            Ok(text) => tla_value_of(value@, line, field@) == Ok::<Seq<char>, ErrorView>(text@),
            Err(e) => tla_value_of(value@, line, field@) == Err::<Seq<char>, ErrorView>(e@),
        },
    decreases value, 1nat,
{
    proof {
        lemma_json_view_unfold(*value);
    }
    match value {
        Json::Null => Ok("\"null\"".to_owned()),
        Json::Bool(b) => {
            if *b {
                Ok("TRUE".to_owned())
            } else {
                Ok("FALSE".to_owned())
            }
        },
        Json::Number(JsonNumber::PosInt(n)) => {
            let mut text = String::new();
            push_decimal(&mut text, *n);
            assert(text@ =~= decimal(*n as nat));
            Ok(text)
        },
        Json::Number(JsonNumber::NegInt(n)) => {
            let mut text = String::new();
            push_signed_decimal(&mut text, *n);
            assert(text@ =~= signed_decimal(*n as int));
            Ok(text)
        },
        Json::Number(JsonNumber::Float(number)) => Err(
            Error::Validation(
                ValidationError::FloatNotSupported {
                    line,
                    field: field.to_owned(),
                    value: number.clone(),
                },
            ),
        ),
        Json::String(s) => {
            let inner = escape_tla_string(s.as_str());
            let mut text = String::new();
            push_text(&mut text, "\"");
            push_text(&mut text, inner.as_str());
            push_text(&mut text, "\"");
            assert(text@ =~= "\""@ + escaped(s@) + "\""@);
            Ok(text)
        },
        Json::Array(items) => match tla_elements(items, line, field) {
            Ok(parts) => {
                let mut text = String::new();
                push_text(&mut text, "<<");
                push_joined(&mut text, &parts, ", ");
                push_text(&mut text, ">>");
                assert(text@ =~= "<<"@ + joined(texts_of(parts@), ", "@) + ">>"@);
                Ok(text)
            },
            Err(e) => Err(e),
        },
        Json::Object(members) => match tla_fields(members, line) {
            Ok(entries) => {
                let sorted = sort_entries(&entries);
                let parts = write_entries(&sorted, " |-> ");
                let mut text = String::new();
                push_text(&mut text, "[");
                push_joined(&mut text, &parts, ", ");
                push_text(&mut text, "]");
                assert(text@ =~= "["@ + joined(texts_of(parts@), ", "@) + "]"@);
                Ok(text)
            },
            Err(e) => Err(e),
        },
    }
}

/// The record of TLA+ for a state on line `line`, which has to be an
/// object.
pub open spec fn tla_record_of(value: JsonView, line: usize) -> Result<Seq<char>, ErrorView> {
    match value {
        JsonView::Object(_) => tla_value_of(value, line, Seq::empty()),
        _ => Err(
            ErrorView::Validation(
                ValidationErrorView::TlaConversion {
                    line,
                    reason: "Expected JSON object, got: "@ + json_text_of(value),
                },
            ),
        ),
    }
}

/// Writes a state, which has to be a JSON object, as a record of TLA+: its
/// members in the order of their names, each as `name |-> value`.
pub fn json_obj_to_tla_record(value: &Json, line: usize) -> (r: Result<String, Error>)
    ensures
        match r {
            Ok(text) => tla_record_of(value@, line) == Ok::<Seq<char>, ErrorView>(text@),
            Err(e) => tla_record_of(value@, line) == Err::<Seq<char>, ErrorView>(e@),
        },
{
    match value {
        Json::Object(_) => json_to_tla_value(value, line, ""),
        _ => {
            let mut reason = String::new();
            push_text(&mut reason, "Expected JSON object, got: ");
            let written = json_text(value);
            push_text(&mut reason, written.as_str());
            assert(reason@ =~= "Expected JSON object, got: "@ + json_text_of(value@));
            Err(Error::Validation(ValidationError::TlaConversion { line, reason }))
        },
    }
}

/// The error for the first number in `value` that is no integer, if there
/// is one. `field` names the value; an element of an array is named by its
/// place, and a member of an object by its name behind a dot.
pub open spec fn float_in(value: JsonView, line: usize, field: Seq<char>) -> Option<ErrorView>
    decreases value, 0nat,
{
    match value {
        JsonView::Number(JsonNumberView::Float(text)) => Some(float_error(line, field, text)),
        JsonView::Array(items) => float_in_elements(items, line, field, items.len()),
        JsonView::Object(members) => float_in_members(members, line, field, members.len()),
        _ => None,
    }
}

/// The error for the first number that is no integer among the first `n`
/// elements of the array `field`.
pub open spec fn float_in_elements(items: Seq<JsonView>, line: usize, field: Seq<char>, n: nat) -> Option<
    ErrorView,
>
    decreases items, n,
{
    if n == 0 || n > items.len() {
        None
    } else {
        match float_in_elements(items, line, field, (n - 1) as nat) {
            Some(e) => Some(e),
            None => float_in(items[n - 1], line, element_name(field, (n - 1) as nat)),
        }
    }
}

/// The error for the first number that is no integer among the first `n`
/// members of the object `field`.
pub open spec fn float_in_members(
    members: Seq<(Seq<char>, JsonView)>,
    line: usize,
    field: Seq<char>,
    n: nat,
) -> Option<ErrorView>
    decreases members, n,
{
    if n == 0 || n > members.len() {
        None
    } else {
        match float_in_members(members, line, field, (n - 1) as nat) {
            Some(e) => Some(e),
            None => float_in(members[n - 1].1, line, member_name(field, members[n - 1].0)),
        }
    }
}

/// The error for the first number that is no integer among the first `n`
/// members of a state, each named by its own name.
pub open spec fn float_in_state(members: Seq<(Seq<char>, JsonView)>, line: usize, n: nat) -> Option<
    ErrorView,
>
    decreases n,
{
    if n == 0 || n > members.len() {
        None
    } else {
        match float_in_state(members, line, (n - 1) as nat) {
            Some(e) => Some(e),
            None => float_in(members[n - 1].1, line, members[n - 1].0),
        }
    }
}

/// What is wrong with the types of a state on line `line`, if anything: it
/// is no object, or it holds a number that is no integer.
pub open spec fn type_error_of(value: JsonView, line: usize) -> Option<ErrorView> {
    match value {
        JsonView::Object(members) => float_in_state(members, line, members.len()),
        _ => Some(
            ErrorView::Validation(
                ValidationErrorView::NonObjectState { found: json_text_of(value) },
            ),
        ),
    }
}

/// An error among the first elements is the error of all of them.
pub proof fn lemma_element_float_stays(
    items: Seq<JsonView>,
    line: usize,
    field: Seq<char>,
    n: nat,
    m: nat,
)
    requires
        n <= m <= items.len(),
        float_in_elements(items, line, field, n) is Some,
    ensures
        float_in_elements(items, line, field, m) == float_in_elements(items, line, field, n),
    decreases m - n,
{
    if n < m {
        lemma_element_float_stays(items, line, field, n, (m - 1) as nat);
    }
}

/// An error among the first members is the error of all of them.
pub proof fn lemma_member_float_stays(
    members: Seq<(Seq<char>, JsonView)>,
    line: usize,
    field: Seq<char>,
    n: nat,
    m: nat,
)
    requires
        n <= m <= members.len(),
        float_in_members(members, line, field, n) is Some,
    ensures
        float_in_members(members, line, field, m) == float_in_members(members, line, field, n),
    decreases m - n,
{
    if n < m {
        lemma_member_float_stays(members, line, field, n, (m - 1) as nat);
    }
}

/// An error among the first members of a state is the error of all of them.
pub proof fn lemma_state_float_stays(
    members: Seq<(Seq<char>, JsonView)>,
    line: usize,
    n: nat,
    m: nat,
)
    requires
        n <= m <= members.len(),
        float_in_state(members, line, n) is Some,
    ensures
        float_in_state(members, line, m) == float_in_state(members, line, n),
    decreases m - n,
{
    if n < m {
        lemma_state_float_stays(members, line, n, (m - 1) as nat);
    }
}

fn member_field(field: &str, key: &str) -> (name: String)
    ensures
        name@ == member_name(field@, key@),
{
    let mut name = String::new();
    push_text(&mut name, field);
    push_text(&mut name, ".");
    push_text(&mut name, key);
    assert(name@ =~= member_name(field@, key@));
    name
}

fn validate_elements(items: &Vec<Json>, line: usize, field: &str) -> (r: Result<(), Error>)
    ensures
        match r {
            Ok(_) => float_in_elements(json_views_of(items@), line, field@, items@.len()) is None,
            Err(e) => float_in_elements(json_views_of(items@), line, field@, items@.len()) == Some(
                e@,
            ),
        },
    decreases items, 0nat,
{
    let ghost views = json_views_of(items@);
    let mut i: usize = 0;
    while i < items.len()
        invariant
            i <= items.len(),
            views == json_views_of(items@),
            float_in_elements(views, line, field@, i as nat) is None,
        decreases items.len() - i,
    {
        let name = element_field(field, i);
        if let Err(e) = validate_json_value(&items[i], line, name.as_str()) {
            proof {
                lemma_element_float_stays(views, line, field@, (i + 1) as nat, items@.len() as nat);
            }
            return Err(e);
        }
        i += 1;
    }
    Ok(())
}

fn validate_members(members: &Vec<(String, Json)>, line: usize, field: &str) -> (r: Result<
    (),
    Error,
>)
    ensures
        match r {
            Ok(_) => float_in_members(member_views_of(members@), line, field@, members@.len())
                is None,
            Err(e) => float_in_members(member_views_of(members@), line, field@, members@.len())
                == Some(e@),
        },
    decreases members, 0nat,
{
    let ghost views = member_views_of(members@);
    let mut i: usize = 0;
    while i < members.len()
        invariant
            i <= members.len(),
            views == member_views_of(members@),
            float_in_members(views, line, field@, i as nat) is None,
        decreases members.len() - i,
    {
        assert(decreases_to!(members => members[i as int]));
        let name = member_field(field, members[i].0.as_str());
        if let Err(e) = validate_json_value(&members[i].1, line, name.as_str()) {
            proof {
                lemma_member_float_stays(
                    views,
                    line,
                    field@,
                    (i + 1) as nat,
                    members@.len() as nat,
                );
            }
            return Err(e);
        }
        i += 1;
    }
    Ok(())
}

/// Looks for a number that is no integer, at any depth of `value`.
pub fn validate_json_value(value: &Json, line: usize, field: &str) -> (r: Result<(), Error>)
    ensures
        match r {
            Ok(_) => float_in(value@, line, field@) is None,
            Err(e) => float_in(value@, line, field@) == Some(e@),
        },
    decreases value, 1nat,
{
    proof {
        lemma_json_view_unfold(*value);
    }
    match value {
        Json::Number(JsonNumber::Float(number)) => Err(
            Error::Validation(
                ValidationError::FloatNotSupported {
                    line,
                    field: field.to_owned(),
                    value: number.clone(),
                },
            ),
        ),
        Json::Array(items) => validate_elements(items, line, field),
        Json::Object(members) => validate_members(members, line, field),
        _ => Ok(()),
    }
}

/// Checks that a state on line `line` can be written for TLA+: it is an
/// object, and no number in it has a fraction or an exponent.
pub fn validate_json_types(value: &Json, line: usize) -> (r: Result<(), Error>)
    ensures
        match r {
            Ok(_) => type_error_of(value@, line) is None,
            Err(e) => type_error_of(value@, line) == Some(e@),
        },
{
    proof {
        lemma_json_view_unfold(*value);
    }
    match value {
        Json::Object(members) => {
            let ghost views = member_views_of(members@);
            let mut i: usize = 0;
            while i < members.len()
                invariant
                    i <= members.len(),
                    views == member_views_of(members@),
                    value@ == JsonView::Object(views),
                    float_in_state(views, line, i as nat) is None,
                decreases members.len() - i,
            {
                if let Err(e) = validate_json_value(&members[i].1, line, members[i].0.as_str()) {
                    proof {
                        lemma_state_float_stays(
                            views,
                            line,
                            (i + 1) as nat,
                            members@.len() as nat,
                        );
                    }
                    return Err(e);
                }
                i += 1;
            }
            Ok(())
        },
        _ => Err(Error::Validation(ValidationError::NonObjectState { found: json_text(value) })),
    }
}

/// The type that a JSON value has for the type checker of the model
/// checker: `Bool`, `Int` or `Str`; `Seq` of the type of its first element
/// for an array, and of `Int` for an empty one; a record type for an
/// object, with its fields in the order of their names; and `Str` for
/// `null`, which is written as a string.
pub open spec fn snowcat_type_of(value: JsonView) -> Seq<char>
    decreases value, 0nat,
{
    match value {
        JsonView::Bool(_) => "Bool"@,
        JsonView::Number(_) => "Int"@,
        JsonView::String(_) => "Str"@,
        JsonView::Null => "Str"@,
        JsonView::Array(items) => if items.len() > 0 {
            "Seq("@ + snowcat_type_of(items[0]) + ")"@
        } else {
            "Seq(Int)"@
        },
        JsonView::Object(members) => "{"@ + joined(
            named_entries(sorted_entries(snowcat_fields_of(members, members.len())), ": "@),
            ", "@,
        ) + "}"@,
    }
}

/// The first `n` members of an object, each with the type of its value, in
/// the order of the members.
pub open spec fn snowcat_fields_of(members: Seq<(Seq<char>, JsonView)>, n: nat) -> Seq<
    (Seq<char>, Seq<char>),
>
    decreases members, n,
{
    if n == 0 || n > members.len() {
        Seq::empty()
    } else {
        snowcat_fields_of(members, (n - 1) as nat).push(
            (members[n - 1].0, snowcat_type_of(members[n - 1].1)),
        )
    }
}

fn snowcat_fields(members: &Vec<(String, Json)>) -> (fields: Vec<(String, String)>)
    ensures
        entry_views(fields@) == snowcat_fields_of(member_views_of(members@), members@.len()),
    decreases members, 0nat,
{
    let ghost views = member_views_of(members@);
    let mut fields: Vec<(String, String)> = Vec::new();
    let mut i: usize = 0;
    assert(entry_views(fields@) =~= Seq::empty());
    while i < members.len()
        invariant
            i <= members.len(),
            views == member_views_of(members@),
            entry_views(fields@) == snowcat_fields_of(views, i as nat),
        decreases members.len() - i,
    {
        let ghost before = entry_views(fields@);
        assert(decreases_to!(members => members[i as int]));
        let inner = infer_snowcat_type(&members[i].1);
        fields.push((members[i].0.clone(), inner));
        assert(entry_views(fields@) =~= before.push((members@[i as int].0@, inner@)));
        i += 1;
    }
    fields
}

/// The type that a JSON value has for the type checker of the model
/// checker.
pub fn infer_snowcat_type(value: &Json) -> (ty: String)
    ensures
        ty@ == snowcat_type_of(value@),
    decreases value, 1nat,
{
    proof {
        lemma_json_view_unfold(*value);
    }
    match value {
        Json::Bool(_) => "Bool".to_owned(),
        Json::Number(_) => "Int".to_owned(),
        Json::String(_) => "Str".to_owned(),
        Json::Null => "Str".to_owned(),
        Json::Array(items) => {
            if items.len() > 0 {
                let inner = infer_snowcat_type(&items[0]);
                let mut ty = String::new();
                push_text(&mut ty, "Seq(");
                push_text(&mut ty, inner.as_str());
                push_text(&mut ty, ")");
                assert(ty@ =~= "Seq("@ + snowcat_type_of(items@[0]@) + ")"@);
                ty
            } else {
                "Seq(Int)".to_owned()
            }
        },
        Json::Object(members) => {
            let sorted = sort_entries(&snowcat_fields(members));
            let fields = write_entries(&sorted, ": ");
            let mut ty = String::new();
            push_text(&mut ty, "{");
            push_joined(&mut ty, &fields, ", ");
            push_text(&mut ty, "}");
            assert(ty@ =~= "{"@ + joined(texts_of(fields@), ", "@) + "}"@);
            ty
        },
    }
}

/// The record type of a state, which has to be an object.
pub open spec fn snowcat_record_type_of(value: JsonView) -> Result<Seq<char>, ErrorView> {
    match value {
        JsonView::Object(_) => Ok(snowcat_type_of(value)),
        _ => Err(
            ErrorView::Validation(
                ValidationErrorView::NonObjectState { found: json_text_of(value) },
            ),
        ),
    }
}

/// The record type of a state, which has to be a JSON object.
pub fn infer_snowcat_record_type(value: &Json) -> (r: Result<String, Error>)
    ensures
        match r {
            Ok(ty) => snowcat_record_type_of(value@) == Ok::<Seq<char>, ErrorView>(ty@),
            Err(e) => snowcat_record_type_of(value@) == Err::<Seq<char>, ErrorView>(e@),
        },
{
    match value {
        Json::Object(_) => Ok(infer_snowcat_type(value)),
        _ => Err(Error::Validation(ValidationError::NonObjectState { found: json_text(value) })),
    }
}

/// The names of the members of an object, in the order of the members.
pub open spec fn names_of(value: JsonView) -> Seq<Seq<char>> {
    match value {
        JsonView::Object(members) => Seq::new(members.len(), |i: int| members[i].0),
        _ => Seq::empty(),
    }
}

/// The keys of an object: the names of its members, sorted.
pub open spec fn keys_of(value: JsonView) -> Seq<Seq<char>> {
    names_of(value).sort_by(text_order())
}

/// One state of a recorded trace: the state itself, and its record of TLA+.
pub struct Recorded {
    pub state: JsonView,
    pub record: Seq<char>,
}

/// What one line of a recorded trace holds, where `expected` are the keys
/// that the first state has set for every state. The line has to be JSON,
/// an object with the expected keys, and without a number that is no
/// integer.
pub open spec fn read_line(text: Seq<char>, line: usize, expected: Option<Seq<Seq<char>>>) -> Result<
    Recorded,
    ErrorView,
> {
    match parsed_json(text) {
        Err(reason) => Err(
            ErrorView::Validation(ValidationErrorView::InvalidJson { line, reason }),
        ),
        Ok(state) => if !(state is Object) {
            Err(
                ErrorView::Validation(
                    ValidationErrorView::NonObjectState {
                        found: "line "@ + decimal(line as nat) + ": "@ + json_text_of(state),
                    },
                ),
            )
        } else if expected is Some && keys_of(state) != expected->0 {
            Err(
                ErrorView::Validation(
                    ValidationErrorView::InconsistentSchema {
                        line,
                        expected: expected->0,
                        found: keys_of(state),
                    },
                ),
            )
        } else {
            match type_error_of(state, line) {
                Some(e) => Err(e),
                None => match tla_record_of(state, line) {
                    Ok(record) => Ok(Recorded { state, record }),
                    Err(e) => Err(e),
                },
            }
        },
    }
}

/// The states that the first `n` lines of a recorded trace hold. A line is
/// trimmed, and is skipped where nothing is left of it; lines are counted
/// from 1, skipped ones included. The first line that cannot be read is
/// the error.
pub open spec fn read_lines(lines: Seq<Seq<char>>, n: nat) -> Result<Seq<Recorded>, ErrorView>
    decreases n,
{
    if n == 0 || n > lines.len() {
        Ok(Seq::empty())
    } else {
        match read_lines(lines, (n - 1) as nat) {
            Err(e) => Err(e),
            Ok(before) => {
                let text = trimmed(lines[n - 1]);
                if text.len() == 0 {
                    Ok(before)
                } else {
                    let expected = if before.len() > 0 {
                        Some(keys_of(before[0].state))
                    } else {
                        None
                    };
                    match read_line(text, n as usize, expected) {
                        Ok(recorded) => Ok(before.push(recorded)),
                        Err(e) => Err(e),
                    }
                }
            },
        }
    }
}

/// An error among the first lines is the error of all of them.
pub proof fn lemma_line_error_stays(lines: Seq<Seq<char>>, n: nat, m: nat)
    requires
        n <= m <= lines.len(),
        read_lines(lines, n) is Err,
    ensures
        read_lines(lines, m) == read_lines(lines, n),
    decreases m - n,
{
    if n < m {
        lemma_line_error_stays(lines, n, (m - 1) as nat);
    }
}

/// The action that a recorded state names under `action`; `unknown` where
/// it names none.
pub open spec fn recorded_action_of(state: JsonView) -> Seq<char> {
    match json_member(state, "action"@) {
        Some(JsonView::String(action)) => action,
        _ => "unknown"@,
    }
}

/// The entries of the trace log for the first `n` states: each record,
/// indented.
pub open spec fn log_entries(recorded: Seq<Recorded>, n: nat) -> Seq<Seq<char>>
    decreases n,
{
    if n == 0 || n > recorded.len() {
        Seq::empty()
    } else {
        log_entries(recorded, (n - 1) as nat).push("  "@ + recorded[n - 1].record)
    }
}

/// The entries of the list of actions for the first `n` states: each action
/// as a string literal, indented.
pub open spec fn action_entries(recorded: Seq<Recorded>, n: nat) -> Seq<Seq<char>>
    decreases n,
{
    if n == 0 || n > recorded.len() {
        Seq::empty()
    } else {
        action_entries(recorded, (n - 1) as nat).push(
            "  \""@ + escaped(recorded_action_of(recorded[n - 1].state)) + "\""@,
        )
    }
}

/// The module `TraceData`, which defines the recorded states as the
/// sequence `TraceLog` of records of the type `record_type`, and their
/// actions as the sequence `TraceActions` of strings.
pub open spec fn module_text(recorded: Seq<Recorded>, record_type: Seq<char>) -> Seq<char> {
    "---- MODULE TraceData ----\nEXTENDS Integers, Sequences\n\n"@ + "\\* @type: () => Seq("@
        + record_type + ");\n"@ + "TraceLog == <<\n"@ + joined(
        log_entries(recorded, recorded.len()),
        ",\n"@,
    ) + "\n>>\n\n"@ + "\\* @type: () => Seq(Str);\nTraceActions == <<\n"@ + joined(
        action_entries(recorded, recorded.len()),
        ",\n"@,
    ) + "\n>>\n\n====\n"@
}

/// The module for the recorded trace in the file `path` with the content
/// `content`, and the number of its states. A trace without a state is an
/// error.
pub open spec fn tla_module_of(path: Seq<char>, content: Seq<char>) -> Result<
    (Seq<char>, nat),
    ErrorView,
> {
    match read_lines(lines_of(content), lines_of(content).len()) {
        Err(e) => Err(e),
        Ok(recorded) => if recorded.len() == 0 {
            Err(ErrorView::Validation(ValidationErrorView::EmptyTrace(path)))
        } else {
            match snowcat_record_type_of(recorded[0].state) {
                Err(e) => Err(e),
                Ok(record_type) => Ok((module_text(recorded, record_type), recorded.len())),
            }
        },
    }
}

fn object_keys(value: &Json) -> (keys: Vec<String>)
    ensures
        texts_of(keys@) == keys_of(value@),
{
    proof {
        lemma_json_view_unfold(*value);
    }
    let mut names: Vec<String> = Vec::new();
    match value {
        Json::Object(members) => {
            let mut i: usize = 0;
            while i < members.len()
                invariant
                    i <= members.len(),
                    names@.len() == i,
                    forall|j: int| 0 <= j < i ==> names@[j]@ == members@[j].0@,
                decreases members.len() - i,
            {
                names.push(members[i].0.clone());
                i += 1;
            }
            assert(texts_of(names@) =~= names_of(value@));
        },
        _ => {
            assert(texts_of(names@) =~= names_of(value@));
        },
    }
    let keys = sort_texts(names);
    proof {
        crate::sorting::lemma_text_order_is_total();
        names_of(value@).lemma_sort_by_ensures(text_order());
        vstd::seq_lib::lemma_sorted_unique(
            texts_of(keys@),
            names_of(value@).sort_by(text_order()),
            text_order(),
        );
    }
    keys
}

fn same_texts(a: &Vec<String>, b: &Vec<String>) -> (r: bool)
    ensures
        r == (texts_of(a@) == texts_of(b@)),
{
    if a.len() != b.len() {
        assert(texts_of(a@).len() != texts_of(b@).len());
        return false;
    }
    let mut i: usize = 0;
    while i < a.len()
        invariant
            i <= a.len(),
            a.len() == b.len(),
            forall|j: int| 0 <= j < i ==> a@[j]@ == b@[j]@,
        decreases a.len() - i,
    {
        if a[i] != b[i] {
            assert(texts_of(a@)[i as int] != texts_of(b@)[i as int]);
            return false;
        }
        i += 1;
    }
    assert(texts_of(a@) =~= texts_of(b@));
    true
}

fn copy_texts(items: &Vec<String>) -> (r: Vec<String>)
    ensures
        texts_of(r@) == texts_of(items@),
{
    let mut out: Vec<String> = Vec::new();
    let mut i: usize = 0;
    while i < items.len()
        invariant
            i <= items.len(),
            out@.len() == i,
            forall|j: int| 0 <= j < i ==> out@[j]@ == items@[j]@,
        decreases items.len() - i,
    {
        out.push(items[i].clone());
        i += 1;
    }
    assert(texts_of(out@) =~= texts_of(items@));
    out
}

/// Reads one line of a recorded trace, which is trimmed and not empty.
fn read_one_line(text: &str, line: usize, expected: &Option<Vec<String>>) -> (r: Result<
    (Json, String),
    Error,
>)
    ensures
        match r {
            Ok((state, record)) => read_line(
                text@,
                line,
                match *expected {
                    Some(keys) => Some(texts_of(keys@)),
                    None => None,
                },
            ) == Ok::<Recorded, ErrorView>(Recorded { state: state@, record: record@ }),
            Err(e) => read_line(
                text@,
                line,
                match *expected {
                    Some(keys) => Some(texts_of(keys@)),
                    None => None,
                },
            ) == Err::<Recorded, ErrorView>(e@),
        },
{
    let state = match parse_json(text) {
        Ok(state) => state,
        Err(reason) => {
            return Err(Error::Validation(ValidationError::InvalidJson { line, reason }));
        },
    };
    if state.object_len().is_none() {
        let mut found = String::new();
        push_text(&mut found, "line ");
        push_decimal(&mut found, line as u64);
        push_text(&mut found, ": ");
        let written = json_text(&state);
        push_text(&mut found, written.as_str());
        assert(found@ =~= "line "@ + decimal(line as nat) + ": "@ + json_text_of(state@));
        return Err(Error::Validation(ValidationError::NonObjectState { found }));
    }
    if let Some(keys) = expected {
        let found = object_keys(&state);
        if !same_texts(&found, keys) {
            return Err(
                Error::Validation(
                    ValidationError::InconsistentSchema { line, expected: copy_texts(keys), found },
                ),
            );
        }
    }
    if let Err(e) = validate_json_types(&state, line) {
        return Err(e);
    }
    match json_obj_to_tla_record(&state, line) {
        Ok(record) => Ok((state, record)),
        Err(e) => Err(e),
    }
}

/// The recorded states that `states` and `records` hold together.
pub open spec fn recorded_of(states: Seq<Json>, records: Seq<String>) -> Seq<Recorded> {
    Seq::new(states.len(), |i: int| Recorded { state: states[i]@, record: records[i]@ })
}

/// Writes a recorded trace, which holds one state on each line as a JSON
/// object, as the module `TraceData` of TLA+. `path` is the file of the
/// trace, which an empty trace is reported with. Returns the module and the
/// number of states.
pub fn ndjson_to_tla_module(path: &str, content: &str) -> (r: Result<(String, usize), Error>)
    ensures
        match r {
            Ok((module, count)) => tla_module_of(path@, content@) == Ok::<
                (Seq<char>, nat),
                ErrorView,
            >((module@, count as nat)),
            Err(e) => tla_module_of(path@, content@) == Err::<(Seq<char>, nat), ErrorView>(e@),
        },
{
    let chars = chars_of(content);
    let lines = split_lines(&chars);
    let ghost all = lines_of(content@);
    let mut states: Vec<Json> = Vec::new();
    let mut records: Vec<String> = Vec::new();
    let mut expected: Option<Vec<String>> = None;
    let mut i: usize = 0;
    assert(recorded_of(states@, records@) =~= Seq::<Recorded>::empty());
    while i < lines.len()
        invariant
            i <= lines.len(),
            all == line_views(lines@),
            all == lines_of(content@),
            states@.len() == records@.len(),
            read_lines(all, i as nat) == Ok::<Seq<Recorded>, ErrorView>(
                recorded_of(states@, records@),
            ),
            match expected {
                Some(keys) => states@.len() > 0 && texts_of(keys@) == keys_of(states@[0]@),
                None => states@.len() == 0,
            },
        decreases lines.len() - i,
    {
        let ghost before = recorded_of(states@, records@);
        let trimmed_line = trim(&lines[i]);
        if trimmed_line.len() > 0 {
            let text = string_of(&trimmed_line);
            match read_one_line(text.as_str(), i + 1, &expected) {
                Ok((state, record)) => {
                    if expected.is_none() {
                        expected = Some(object_keys(&state));
                    }
                    states.push(state);
                    records.push(record);
                    assert(recorded_of(states@, records@) =~= before.push(
                        Recorded { state: state@, record: record@ },
                    ));
                },
                Err(e) => {
                    proof {
                        lemma_line_error_stays(all, (i + 1) as nat, lines@.len() as nat);
                    }
                    return Err(e);
                },
            }
        }
        i += 1;
    }
    let ghost recorded = recorded_of(states@, records@);
    if states.len() == 0 {
        return Err(Error::Validation(ValidationError::EmptyTrace(path.to_owned())));
    }
    let record_type = match infer_snowcat_record_type(&states[0]) {
        Ok(record_type) => record_type,
        Err(e) => {
            return Err(e);
        },
    };
    let mut log: Vec<String> = Vec::new();
    let mut actions: Vec<String> = Vec::new();
    let mut k: usize = 0;
    assert(texts_of(log@) =~= Seq::<Seq<char>>::empty());
    assert(texts_of(actions@) =~= Seq::<Seq<char>>::empty());
    while k < states.len()
        invariant
            k <= states.len(),
            states@.len() == records@.len(),
            recorded == recorded_of(states@, records@),
            texts_of(log@) == log_entries(recorded, k as nat),
            texts_of(actions@) == action_entries(recorded, k as nat),
        decreases states.len() - k,
    {
        let ghost log_before = texts_of(log@);
        let ghost actions_before = texts_of(actions@);
        let mut entry = String::new();
        push_text(&mut entry, "  ");
        push_text(&mut entry, records[k].as_str());
        assert(entry@ =~= "  "@ + records@[k as int]@);
        log.push(entry);
        assert(texts_of(log@) =~= log_before.push(entry@));
        let action = match states[k].get("action") {
            Some(value) => match value.as_str() {
                Some(action) => escape_tla_string(action),
                None => escape_tla_string("unknown"),
            },
            None => escape_tla_string("unknown"),
        };
        let mut named = String::new();
        push_text(&mut named, "  \"");
        push_text(&mut named, action.as_str());
        push_text(&mut named, "\"");
        assert(named@ =~= "  \""@ + escaped(recorded_action_of(states@[k as int]@)) + "\""@);
        actions.push(named);
        assert(texts_of(actions@) =~= actions_before.push(named@));
        k += 1;
    }
    let mut out = String::new();
    push_text(&mut out, "---- MODULE TraceData ----\nEXTENDS Integers, Sequences\n\n");
    push_text(&mut out, "\\* @type: () => Seq(");
    push_text(&mut out, record_type.as_str());
    push_text(&mut out, ");\n");
    push_text(&mut out, "TraceLog == <<\n");
    push_joined(&mut out, &log, ",\n");
    push_text(&mut out, "\n>>\n\n");
    push_text(&mut out, "\\* @type: () => Seq(Str);\nTraceActions == <<\n");
    push_joined(&mut out, &actions, ",\n");
    push_text(&mut out, "\n>>\n\n====\n");
    assert(out@ =~= module_text(recorded, record_type@));
    Ok((out, states.len()))
}

} // verus!
