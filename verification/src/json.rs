//! JSON values, as the symbolic-execution server sends and receives them.
use crate::error::Error;
use crate::error::ErrorView;
use crate::trace::from_itf;
use crate::value::ItfValue;
use crate::value::ItfView;
use vstd::prelude::*;

verus! {

/// A number of JSON.
#[derive(Debug, PartialEq, Eq)]
pub enum JsonNumber {
    /// An integer that is not negative.
    PosInt(u64),
    /// A negative integer.
    NegInt(i64),
    /// A number with a fraction or an exponent, as the text that stands for
    /// it in JSON.
    Float(String),
}

/// What a [`JsonNumber`] stands for.
pub enum JsonNumberView {
    PosInt(u64),
    NegInt(i64),
    Float(Seq<char>),
}

impl View for JsonNumber {
    type V = JsonNumberView;

    open spec fn view(&self) -> JsonNumberView {
        match self {
            JsonNumber::PosInt(n) => JsonNumberView::PosInt(*n),
            JsonNumber::NegInt(n) => JsonNumberView::NegInt(*n),
            JsonNumber::Float(text) => JsonNumberView::Float(text@),
        }
    }
}

impl Clone for JsonNumber {
    fn clone(&self) -> (r: Self)
        ensures
            r@ == self@,
    {
        match self {
            JsonNumber::PosInt(n) => JsonNumber::PosInt(*n),
            JsonNumber::NegInt(n) => JsonNumber::NegInt(*n),
            JsonNumber::Float(text) => JsonNumber::Float(text.clone()),
        }
    }
}

/// A value of JSON, as an owned tree. An object keeps its members in the
/// order in which it was given them, and is looked up by the first member of
/// a name. An object that was read from text has no two members of one
/// name.
#[derive(Debug, PartialEq, Eq)]
pub enum Json {
    Null,
    Bool(bool),
    Number(JsonNumber),
    String(String),
    Array(Vec<Json>),
    Object(Vec<(String, Json)>),
}

/// The mathematical value that a [`Json`] stands for.
pub enum JsonView {
    Null,
    Bool(bool),
    Number(JsonNumberView),
    String(Seq<char>),
    Array(Seq<JsonView>),
    Object(Seq<(Seq<char>, JsonView)>),
}

/// The value that `value` stands for.
pub open spec fn json_view_of(value: Json) -> JsonView
    decreases value,
{
    match value {
        Json::Null => JsonView::Null,
        Json::Bool(b) => JsonView::Bool(b),
        Json::Number(n) => JsonView::Number(n@),
        Json::String(s) => JsonView::String(s@),
        Json::Array(items) => JsonView::Array(
            Seq::new(
                items@.len(),
                |i: int|
                    if 0 <= i < items@.len() {
                        json_view_of(items@[i])
                    } else {
                        JsonView::Null
                    },
            ),
        ),
        Json::Object(members) => JsonView::Object(
            Seq::new(
                members@.len(),
                |i: int|
                    if 0 <= i < members@.len() {
                        (members@[i].0@, json_view_of(members@[i].1))
                    } else {
                        (Seq::empty(), JsonView::Null)
                    },
            ),
        ),
    }
}

impl View for Json {
    type V = JsonView;

    open spec fn view(&self) -> JsonView {
        json_view_of(*self)
    }
}

/// The views of a sequence of values, element by element.
pub open spec fn json_views_of(items: Seq<Json>) -> Seq<JsonView> {
    Seq::new(items.len(), |i: int| items[i]@)
}

/// The views of the members of an object.
pub open spec fn member_views_of(members: Seq<(String, Json)>) -> Seq<(Seq<char>, JsonView)> {
    Seq::new(members.len(), |i: int| (members[i].0@, members[i].1@))
}

/// The value of the first member named `key`, if there is one.
pub open spec fn member_of(members: Seq<(Seq<char>, JsonView)>, key: Seq<char>) -> Option<
    JsonView,
>
    decreases members.len(),
{
    if members.len() == 0 {
        None
    } else if members[0].0 == key {
        Some(members[0].1)
    } else {
        member_of(members.skip(1), key)
    }
}

/// The member `key` of an object; `None` for a value that is no object.
pub open spec fn json_member(value: JsonView, key: Seq<char>) -> Option<JsonView> {
    match value {
        JsonView::Object(members) => member_of(members, key),
        _ => None,
    }
}

/// The view of an array and of an object in terms of `json_views_of` and
/// `member_views_of`.
pub proof fn lemma_json_view_unfold(value: Json)
    ensures
        value matches Json::Array(items) ==> value@ == JsonView::Array(json_views_of(items@)),
        value matches Json::Object(members) ==> value@ == JsonView::Object(
            member_views_of(members@),
        ),
{
    match value {
        Json::Array(items) => {
            assert(value@->Array_0 =~= json_views_of(items@));
        },
        Json::Object(members) => {
            assert(value@->Object_0 =~= member_views_of(members@));
        },
        _ => {},
    }
}

fn copy_items(items: &Vec<Json>) -> (r: Vec<Json>)
    ensures
        json_views_of(r@) == json_views_of(items@),
    decreases items, 0nat,
{
    let mut out: Vec<Json> = Vec::new();
    let mut i: usize = 0;
    while i < items.len()
        invariant
            i <= items.len(),
            out@.len() == i,
            forall|j: int| 0 <= j < i ==> out@[j]@ == items@[j]@,
        decreases items.len() - i,
    {
        out.push(copy_json(&items[i]));
        i += 1;
    }
    assert(json_views_of(out@) =~= json_views_of(items@));
    out
}

fn copy_members(members: &Vec<(String, Json)>) -> (r: Vec<(String, Json)>)
    ensures
        member_views_of(r@) == member_views_of(members@),
    decreases members, 0nat,
{
    let mut out: Vec<(String, Json)> = Vec::new();
    let mut i: usize = 0;
    while i < members.len()
        invariant
            i <= members.len(),
            out@.len() == i,
            forall|j: int|
                0 <= j < i ==> out@[j].0@ == members@[j].0@ && out@[j].1@ == members@[j].1@,
        decreases members.len() - i,
    {
        assert(decreases_to!(members => members[i as int]));
        let v = copy_json(&members[i].1);
        out.push((members[i].0.clone(), v));
        i += 1;
    }
    assert(member_views_of(out@) =~= member_views_of(members@));
    out
}

fn copy_json(value: &Json) -> (r: Json)
    ensures
        r@ == value@,
    decreases value, 1nat,
{
    proof {
        lemma_json_view_unfold(*value);
    }
    let r = match value {
        Json::Null => Json::Null,
        Json::Bool(b) => Json::Bool(*b),
        Json::Number(n) => Json::Number(n.clone()),
        Json::String(s) => Json::String(s.clone()),
        Json::Array(items) => Json::Array(copy_items(items)),
        Json::Object(members) => Json::Object(copy_members(members)),
    };
    proof {
        lemma_json_view_unfold(r);
    }
    r
}

impl Clone for Json {
    /// A copy that stands for the same value.
    fn clone(&self) -> (r: Self)
        ensures
            r@ == self@,
    {
        copy_json(self)
    }
}

impl Json {
    /// The object without members.
    pub fn empty_object() -> (r: Json)
        ensures
            r@ == JsonView::Object(Seq::empty()),
    {
        let r = Json::Object(Vec::new());
        proof {
            lemma_json_view_unfold(r);
            assert(r@->Object_0 =~= Seq::empty());
        }
        r
    }

    /// The member `key` of an object: the first of that name. `None` where no
    /// member has that name, and for a value that is no object.
    pub fn get(&self, key: &str) -> (r: Option<&Json>)
        ensures
            match r {
                Some(v) => json_member(self@, key@) == Some(v@),
                None => json_member(self@, key@) is None,
            },
    {
        proof {
            lemma_json_view_unfold(*self);
        }
        match self {
            Json::Object(members) => {
                let wanted = key.to_owned();
                let ghost all = member_views_of(members@);
                let mut i: usize = 0;
                assert(all.skip(0) =~= all);
                while i < members.len()
                    invariant
                        i <= members.len(),
                        wanted@ == key@,
                        all == member_views_of(members@),
                        self@ == JsonView::Object(all),
                        member_of(all, key@) == member_of(all.skip(i as int), key@),
                    decreases members.len() - i,
                {
                    assert(all.skip(i as int)[0] == all[i as int]);
                    if members[i].0 == wanted {
                        return Some(&members[i].1);
                    }
                    assert(all.skip(i as int).skip(1) =~= all.skip(i + 1));
                    i += 1;
                }
                None
            },
            _ => None,
        }
    }

    /// The elements of an array; `None` for a value that is no array.
    pub fn as_array(&self) -> (r: Option<&Vec<Json>>)
        ensures
            match r {
                Some(items) => self@ == JsonView::Array(json_views_of(items@)),
                None => !(self@ is Array),
            },
    {
        proof {
            lemma_json_view_unfold(*self);
        }
        match self {
            Json::Array(items) => Some(items),
            _ => None,
        }
    }

    /// The text of a string; `None` for a value that is no string.
    pub fn as_str(&self) -> (r: Option<&str>)
        ensures
            match r {
                Some(s) => self@ == JsonView::String(s@),
                None => !(self@ is String),
            },
    {
        match self {
            Json::String(s) => Some(s.as_str()),
            _ => None,
        }
    }

    /// The number of members of an object; `None` for a value that is no
    /// object.
    pub fn object_len(&self) -> (r: Option<usize>)
        ensures
            match r {
                Some(n) => self@ is Object && self@->Object_0.len() == n,
                None => !(self@ is Object),
            },
    {
        proof {
            lemma_json_view_unfold(*self);
        }
        match self {
            Json::Object(members) => Some(members.len()),
            _ => None,
        }
    }
}

/// A JSON value as `serde_json` holds it, which only the conversions
/// below look into.
#[verifier::external_type_specification]
#[verifier::external_body]
pub struct ExSerdeValue(serde_json::Value);

/// A JSON number as `serde_json` holds it, which only the conversions below
/// look into.
#[verifier::external_type_specification]
#[verifier::external_body]
pub struct ExSerdeNumber(serde_json::Number);

/// The same value as a tree of `serde_json`, part by part. A number with a
/// fraction or an exponent is read back from its text.
#[verifier::external_body]
fn to_serde(value: &Json) -> serde_json::Value {
    match value {
        Json::Null => serde_json::Value::Null,
        Json::Bool(b) => serde_json::Value::from(*b),
        Json::Number(JsonNumber::PosInt(n)) => serde_json::Value::from(*n),
        Json::Number(JsonNumber::NegInt(n)) => serde_json::Value::from(*n),
        Json::Number(JsonNumber::Float(text)) => serde_json::from_str(text).unwrap_or_default(),
        Json::String(s) => serde_json::Value::from(s.as_str()),
        Json::Array(items) => items.iter().map(to_serde).collect(),
        Json::Object(members) => members.iter().map(|m| (m.0.clone(), to_serde(&m.1))).collect(),
    }
}

/// The same number for this library: `as_u64` tells an integer that is not
/// negative, `as_i64` a negative one, and any other number is kept as its
/// text.
#[verifier::external_body]
fn number_from_serde(n: &serde_json::Number) -> JsonNumber {
    match (n.as_u64(), n.as_i64()) {
        (Some(u), _) => JsonNumber::PosInt(u),
        (None, Some(i)) => JsonNumber::NegInt(i),
        (None, None) => JsonNumber::Float(n.to_string()),
    }
}

/// The same value as a tree of this library, part by part, an object's
/// members in the order in which `serde_json` walks them.
#[verifier::external_body]
fn from_serde(value: serde_json::Value) -> Json {
    match value {
        serde_json::Value::Null => Json::Null,
        serde_json::Value::Bool(b) => Json::Bool(b),
        serde_json::Value::Number(n) => Json::Number(number_from_serde(&n)),
        serde_json::Value::String(s) => Json::String(s),
        serde_json::Value::Array(items) => Json::Array(items.into_iter().map(from_serde).collect()),
        serde_json::Value::Object(members) => Json::Object(
            members.into_iter().map(|m| (m.0, from_serde(m.1))).collect(),
        ),
    }
}

/// What the text `text` holds when it is read as JSON: the value, or the
/// parser's complaint.
pub uninterp spec fn parsed_json(text: Seq<char>) -> Result<JsonView, Seq<char>>;

/// Reads JSON with `serde_json::from_str`; a text that is no JSON gives the
/// parser's message.
#[verifier::external_body]
pub(crate) fn parse_json(text: &str) -> (r: Result<Json, String>)
    ensures
        match r {
            Ok(value) => parsed_json(text@) == Ok::<JsonView, Seq<char>>(value@),
            Err(e) => parsed_json(text@) == Err::<JsonView, Seq<char>>(e@),
        },
{
    match serde_json::from_str::<serde_json::Value>(text) {
        Ok(value) => Ok(from_serde(value)),
        Err(e) => Err(e.to_string()),
    }
}

/// The value of the trace format that a JSON value stands for, or the
/// reason why it stands for none.
pub uninterp spec fn itf_of_json(value: JsonView) -> Result<ItfView, Seq<char>>;

/// Reads a JSON value as a value of the trace format, with
/// `serde_json::from_value` and `itf`'s description of the format: an object
/// under one of the keys `#bigint`, `#tup`, `#set` and `#map` is the value
/// that it encodes, and any other object is a record.
#[verifier::external_body]
pub(crate) fn itf_from_json(value: &Json) -> (r: Result<ItfValue, String>)
    ensures
        match r {
            Ok(v) => itf_of_json(value@) == Ok::<ItfView, Seq<char>>(v@),
            Err(e) => itf_of_json(value@) == Err::<ItfView, Seq<char>>(e@),
        },
{
    match serde_json::from_value::<itf::Value>(to_serde(value)) {
        Ok(v) => Ok(from_itf(v)),
        Err(e) => Err(e.to_string()),
    }
}

/// The JSON text that `serde_json` writes for a value, without any space
/// between its parts.
pub uninterp spec fn json_text_of(value: JsonView) -> Seq<char>;

/// Writes a value as JSON text with `serde_json`, in its compact form. The
/// text depends on the value alone.
#[verifier::external_body]
pub(crate) fn json_text(value: &Json) -> (s: String)
    ensures
        s@ == json_text_of(value@),
{
    to_serde(value).to_string()
}

/// The text that `{:?}` gives for the value as `serde_json` holds it.
pub uninterp spec fn json_debug_of(value: JsonView) -> Seq<char>;

/// Renders a value with `format!("{:?}", ..)` as `serde_json` holds it: the
/// name of its kind, and its parts. The text depends on the value alone.
#[verifier::external_body]
pub(crate) fn json_debug(value: &Json) -> (s: String)
    ensures
        s@ == json_debug_of(value@),
{
    format!("{:?}", to_serde(value))
}

impl Json {
    /// Reads a value from its JSON text. A text that is no JSON is an error
    /// with the parser's message.
    pub fn parse(text: &str) -> (r: Result<Json, Error>)
        ensures
            match parsed_json(text@) {
                Ok(value) => r matches Ok(v) && v@ == value,
                Err(reason) => r matches Err(e) && e@ == ErrorView::Json(reason),
            },
    {
        match parse_json(text) {
            Ok(value) => Ok(value),
            Err(reason) => Err(Error::Json(reason)),
        }
    }
}

} // verus!
