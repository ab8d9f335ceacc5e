//! Values of the Informal Trace Format: the structured data that a trace
//! holds for each state, and that a step hands to a driver.
use vstd::prelude::*;

verus! {

/// One value of a trace, as an owned tree.
///
/// Collections keep their elements in the order in which the trace gives
/// them; a record is looked up by the first field of a name.
#[derive(Debug, PartialEq, Eq)]
pub enum ItfValue {
    /// `false` or `true`.
    Bool(bool),
    /// A number that the trace wrote as a plain literal.
    Number(i64),
    /// A string.
    String(String),
    /// An integer written as `{ "#bigint": ".." }`, as its decimal numeral.
    BigInt(String),
    /// A sequence.
    List(Vec<ItfValue>),
    /// A tuple, written as `{ "#tup": [..] }`.
    Tuple(Vec<ItfValue>),
    /// A set, written as `{ "#set": [..] }`.
    SetOf(Vec<ItfValue>),
    /// A function, written as `{ "#map": [[key, value], ..] }`.
    MapOf(Vec<(ItfValue, ItfValue)>),
    /// A record, with its fields by name.
    Record(Vec<(String, ItfValue)>),
    /// An expression that the trace could not write out, as its description.
    Unserializable(String),
}

/// The mathematical value that an [`ItfValue`] stands for.
pub enum ItfView {
    Bool(bool),
    Number(i64),
    String(Seq<char>),
    BigInt(Seq<char>),
    List(Seq<ItfView>),
    Tuple(Seq<ItfView>),
    SetOf(Seq<ItfView>),
    MapOf(Seq<(ItfView, ItfView)>),
    Record(Seq<(Seq<char>, ItfView)>),
    Unserializable(Seq<char>),
}

/// The value that `value` stands for.
pub open spec fn view_of(value: ItfValue) -> ItfView
    decreases value,
{
    match value {
        ItfValue::Bool(b) => ItfView::Bool(b),
        ItfValue::Number(n) => ItfView::Number(n),
        ItfValue::String(s) => ItfView::String(s@),
        ItfValue::BigInt(s) => ItfView::BigInt(s@),
        ItfValue::List(items) => ItfView::List(
            Seq::new(
                items@.len(),
                |i: int|
                    if 0 <= i < items@.len() {
                        view_of(items@[i])
                    } else {
                        ItfView::Bool(false)
                    },
            ),
        ),
        ItfValue::Tuple(items) => ItfView::Tuple(
            Seq::new(
                items@.len(),
                |i: int|
                    if 0 <= i < items@.len() {
                        view_of(items@[i])
                    } else {
                        ItfView::Bool(false)
                    },
            ),
        ),
        ItfValue::SetOf(items) => ItfView::SetOf(
            Seq::new(
                items@.len(),
                |i: int|
                    if 0 <= i < items@.len() {
                        view_of(items@[i])
                    } else {
                        ItfView::Bool(false)
                    },
            ),
        ),
        ItfValue::MapOf(pairs) => ItfView::MapOf(
            Seq::new(
                pairs@.len(),
                |i: int|
                    if 0 <= i < pairs@.len() {
                        (view_of(pairs@[i].0), view_of(pairs@[i].1))
                    } else {
                        (ItfView::Bool(false), ItfView::Bool(false))
                    },
            ),
        ),
        ItfValue::Record(fields) => ItfView::Record(
            Seq::new(
                fields@.len(),
                |i: int|
                    if 0 <= i < fields@.len() {
                        (fields@[i].0@, view_of(fields@[i].1))
                    } else {
                        (Seq::empty(), ItfView::Bool(false))
                    },
            ),
        ),
        ItfValue::Unserializable(s) => ItfView::Unserializable(s@),
        }
}

impl View for ItfValue {
    type V = ItfView;

    open spec fn view(&self) -> ItfView {
        view_of(*self)
    }
}

/// The views of a sequence of values, element by element.
pub open spec fn views_of(items: Seq<ItfValue>) -> Seq<ItfView> {
    Seq::new(items.len(), |i: int| items[i]@)
}

/// The views of a sequence of key and value pairs.
pub open spec fn pair_views_of(pairs: Seq<(ItfValue, ItfValue)>) -> Seq<(ItfView, ItfView)> {
    Seq::new(pairs.len(), |i: int| (pairs[i].0@, pairs[i].1@))
}

/// The views of a sequence of named fields.
pub open spec fn field_views_of(fields: Seq<(String, ItfValue)>) -> Seq<(Seq<char>, ItfView)> {
    Seq::new(fields.len(), |i: int| (fields[i].0@, fields[i].1@))
}

/// The value of the first field named `key`, if there is one.
pub open spec fn field_of(fields: Seq<(Seq<char>, ItfView)>, key: Seq<char>) -> Option<ItfView>
    decreases fields.len(),
{
    if fields.len() == 0 {
        None
    } else if fields[0].0 == key {
        Some(fields[0].1)
    } else {
        field_of(fields.skip(1), key)
    }
}

/// The field `key` of a record; `None` for a value that is no record.
pub open spec fn record_field(value: ItfView, key: Seq<char>) -> Option<ItfView> {
    match value {
        ItfView::Record(fields) => field_of(fields, key),
        _ => None,
    }
}

/// The view of each variant in terms of `views_of`, `pair_views_of` and
/// `field_views_of`.
pub proof fn lemma_view_unfold(value: ItfValue)
    ensures
        value matches ItfValue::List(items) ==> value@ == ItfView::List(views_of(items@)),
        value matches ItfValue::Tuple(items) ==> value@ == ItfView::Tuple(views_of(items@)),
        value matches ItfValue::SetOf(items) ==> value@ == ItfView::SetOf(views_of(items@)),
        value matches ItfValue::MapOf(pairs) ==> value@ == ItfView::MapOf(pair_views_of(pairs@)),
        value matches ItfValue::Record(fields) ==> value@ == ItfView::Record(
            field_views_of(fields@),
        ),
{
    match value {
        ItfValue::List(items) => {
            
            assert(value@->List_0 =~= views_of(items@));
        },
        ItfValue::Tuple(items) => {
            assert(value@->Tuple_0 =~= views_of(items@));
        },
        ItfValue::SetOf(items) => {
            assert(value@->SetOf_0 =~= views_of(items@));
        },
        ItfValue::MapOf(pairs) => {
            assert(value@->MapOf_0 =~= pair_views_of(pairs@));
        },
        ItfValue::Record(fields) => {
            assert(value@->Record_0 =~= field_views_of(fields@));
        },
        _ => {},
    }
}

fn copy_values(items: &Vec<ItfValue>) -> (r: Vec<ItfValue>)
    ensures
        views_of(r@) == views_of(items@),
    decreases items, 0nat,
{
    let mut out: Vec<ItfValue> = Vec::new();
    let mut i: usize = 0;
    while i < items.len()
        invariant
            i <= items.len(),
            out@.len() == i,
            forall|j: int| 0 <= j < i ==> out@[j]@ == items@[j]@,
        decreases items.len() - i,
    {
        out.push(copy_value(&items[i]));
        i += 1;
    }
    assert(views_of(out@) =~= views_of(items@));
    out
}

fn copy_pairs(pairs: &Vec<(ItfValue, ItfValue)>) -> (r: Vec<(ItfValue, ItfValue)>)
    ensures
        pair_views_of(r@) == pair_views_of(pairs@),
    decreases pairs, 0nat,
{
    let mut out: Vec<(ItfValue, ItfValue)> = Vec::new();
    let mut i: usize = 0;
    while i < pairs.len()
        invariant
            i <= pairs.len(),
            out@.len() == i,
            forall|j: int| 0 <= j < i ==> out@[j].0@ == pairs@[j].0@ && out@[j].1@ == pairs@[j].1@,
        decreases pairs.len() - i,
    {
        assert(decreases_to!(pairs => pairs[i as int]));
        let k = copy_value(&pairs[i].0);
        let v = copy_value(&pairs[i].1);
        out.push((k, v));
        i += 1;
    }
    assert(pair_views_of(out@) =~= pair_views_of(pairs@));
    out
}

fn copy_fields(fields: &Vec<(String, ItfValue)>) -> (r: Vec<(String, ItfValue)>)
    ensures
        field_views_of(r@) == field_views_of(fields@),
    decreases fields, 0nat,
{
    let mut out: Vec<(String, ItfValue)> = Vec::new();
    let mut i: usize = 0;
    while i < fields.len()
        invariant
            i <= fields.len(),
            out@.len() == i,
            forall|j: int| 0 <= j < i ==> out@[j].0@ == fields@[j].0@ && out@[j].1@ == fields@[j].1@,
        decreases fields.len() - i,
    {
        assert(decreases_to!(fields => fields[i as int]));
        let v = copy_value(&fields[i].1);
        out.push((fields[i].0.clone(), v));
        i += 1;
    }
    assert(field_views_of(out@) =~= field_views_of(fields@));
    out
}

fn copy_value(value: &ItfValue) -> (r: ItfValue)
    ensures
        r@ == value@,
    decreases value, 1nat,
{
    proof {
        lemma_view_unfold(*value);
    }
    let r = match value {
        ItfValue::Bool(b) => ItfValue::Bool(*b),
        ItfValue::Number(n) => ItfValue::Number(*n),
        ItfValue::String(s) => ItfValue::String(s.clone()),
        ItfValue::BigInt(s) => ItfValue::BigInt(s.clone()),
        ItfValue::List(items) => ItfValue::List(copy_values(items)),
        ItfValue::Tuple(items) => ItfValue::Tuple(copy_values(items)),
        ItfValue::SetOf(items) => ItfValue::SetOf(copy_values(items)),
        ItfValue::MapOf(pairs) => ItfValue::MapOf(copy_pairs(pairs)),
        ItfValue::Record(fields) => ItfValue::Record(copy_fields(fields)),
        ItfValue::Unserializable(s) => ItfValue::Unserializable(s.clone()),
    };
    proof {
        lemma_view_unfold(r);
    }
    r
}

impl Clone for ItfValue {
    /// A copy that stands for the same value.
    fn clone(&self) -> (r: Self)
        ensures
            r@ == self@,
    {
        copy_value(self)
    }
}

impl ItfValue {
    /// The empty tuple, which stands for "nothing chosen".
    pub fn unit() -> (r: ItfValue)
        ensures
            r@ == ItfView::Tuple(Seq::<ItfView>::empty()),
    {
        let r = ItfValue::Tuple(Vec::new());
        proof {
            lemma_view_unfold(r);
            assert(r@->Tuple_0 =~= Seq::<ItfView>::empty());
        }
        r
    }

    /// The field `key` of a record: the first of that name. `None` where no
    /// field has that name, and for a value that is no record.
    pub fn field(&self, key: &str) -> (r: Option<&ItfValue>)
        ensures
            match r {
                Some(v) => record_field(self@, key@) == Some(v@),
                None => record_field(self@, key@) is None,
            },
    {
        proof {
            lemma_view_unfold(*self);
        }
        match self {
            ItfValue::Record(fields) => {
                let wanted = key.to_owned();
                let ghost all = field_views_of(fields@);
                let mut i: usize = 0;
                assert(all.skip(0) =~= all);
                while i < fields.len()
                    invariant
                        i <= fields.len(),
                        wanted@ == key@,
                        all == field_views_of(fields@),
                        self@ == ItfView::Record(all),
                        field_of(all, key@) == field_of(all.skip(i as int), key@),
                    decreases fields.len() - i,
                {
                    assert(all.skip(i as int)[0] == all[i as int]);
                    if fields[i].0 == wanted {
                        return Some(&fields[i].1);
                    }
                    assert(all.skip(i as int).skip(1) =~= all.skip(i + 1));
                    i += 1;
                }
                None
            },
            _ => None,
        }
    }
}

} // verus!
