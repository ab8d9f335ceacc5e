//! The order of texts, and sorting by it. A set of paths that is sorted has
//! one order only, in whatever order the paths were found.
use crate::text::chars_of;
use crate::text::texts_of;
use vstd::prelude::*;
use vstd::relations::sorted_by;
use vstd::relations::total_ordering;
use vstd::seq_lib::lemma_sorted_unique;

verus! {

/// Whether `a` comes before `b`, or is `b`, in the order of a dictionary:
/// the texts are compared character by character, by the numbers of the
/// characters, and a text comes before every text that it begins.
pub open spec fn text_le(a: Seq<char>, b: Seq<char>) -> bool
    decreases a.len(),
{
    if a.len() == 0 {
        true
    } else if b.len() == 0 {
        false
    } else if a[0] != b[0] {
        (a[0] as int) < (b[0] as int)
    } else {
        text_le(a.skip(1), b.skip(1))
    }
}

/// The order of texts as a relation.
pub open spec fn text_order() -> spec_fn(Seq<char>, Seq<char>) -> bool {
    |a: Seq<char>, b: Seq<char>| text_le(a, b)
}

/// Every text is before or at itself.
pub proof fn lemma_text_le_reflexive(a: Seq<char>)
    ensures
        text_le(a, a),
    decreases a.len(),
{
    if a.len() > 0 {
        lemma_text_le_reflexive(a.skip(1));
    }
}

/// Two texts that are each before or at the other are the same text.
pub proof fn lemma_text_le_antisymmetric(a: Seq<char>, b: Seq<char>)
    requires
        text_le(a, b),
        text_le(b, a),
    ensures
        a == b,
    decreases a.len(),
{
    if a.len() == 0 || b.len() == 0 {
        assert(a =~= b);
    } else {
        lemma_text_le_antisymmetric(a.skip(1), b.skip(1));
        assert(a =~= seq![a[0]] + a.skip(1));
        assert(b =~= seq![b[0]] + b.skip(1));
    }
}

/// The order of texts is transitive.
pub proof fn lemma_text_le_transitive(a: Seq<char>, b: Seq<char>, c: Seq<char>)
    requires
        text_le(a, b),
        text_le(b, c),
    ensures
        text_le(a, c),
    decreases a.len(),
{
    if a.len() > 0 && b.len() > 0 && c.len() > 0 && a[0] == b[0] && b[0] == c[0] {
        lemma_text_le_transitive(a.skip(1), b.skip(1), c.skip(1));
    }
}

/// Of two texts, one is before or at the other.
pub proof fn lemma_text_le_connected(a: Seq<char>, b: Seq<char>)
    ensures
        text_le(a, b) || text_le(b, a),
    decreases a.len(),
{
    if a.len() > 0 && b.len() > 0 {
        if a[0] == b[0] {
            lemma_text_le_connected(a.skip(1), b.skip(1));
        }
    }
}

/// The order of texts is a total order.
pub proof fn lemma_text_order_is_total()
    ensures
        total_ordering(text_order()),
{
    let r = text_order();
    assert forall|x: Seq<char>| #[trigger] r(x, x) by {
        lemma_text_le_reflexive(x);
    }
    assert forall|x: Seq<char>, y: Seq<char>| #[trigger] r(x, y) && #[trigger] r(y, x) implies x
        == y by {
        lemma_text_le_antisymmetric(x, y);
    }
    assert forall|x: Seq<char>, y: Seq<char>, z: Seq<char>| #[trigger]
        r(x, y) && #[trigger] r(y, z) implies r(x, z) by {
        lemma_text_le_transitive(x, y, z);
    }
    assert forall|x: Seq<char>, y: Seq<char>| #[trigger] r(x, y) || #[trigger] r(y, x) by {
        lemma_text_le_connected(x, y);
    }
}

/// Two sorted sequences of the same texts are the same sequence: the order
/// in which a set of paths is loaded does not depend on the order in which
/// the paths were found.
pub proof fn lemma_sorted_order_is_unique(a: Seq<Seq<char>>, b: Seq<Seq<char>>)
    requires
        sorted_by(a, text_order()),
        sorted_by(b, text_order()),
        a.to_multiset() == b.to_multiset(),
    ensures
        a == b,
{
    lemma_text_order_is_total();
    lemma_sorted_unique(a, b, text_order());
}

fn chars_le(a: &Vec<char>, b: &Vec<char>) -> (r: bool)
    ensures
        r == text_le(a@, b@),
{
    let mut i: usize = 0;
    assert(a@.skip(0) =~= a@);
    assert(b@.skip(0) =~= b@);
    while i < a.len() && i < b.len()
        invariant
            i <= a.len(),
            i <= b.len(),
            text_le(a@, b@) == text_le(a@.skip(i as int), b@.skip(i as int)),
        decreases a.len() - i,
    {
        assert(a@.skip(i as int)[0] == a@[i as int]);
        assert(b@.skip(i as int)[0] == b@[i as int]);
        let x: char = a[i];
        let y: char = b[i];
        if x != y {
            return x < y;
        }
        assert(a@.skip(i as int).skip(1) =~= a@.skip(i + 1));
        assert(b@.skip(i as int).skip(1) =~= b@.skip(i + 1));
        i += 1;
    }
    i == a.len()
}

/// Whether `a` comes before `b`, or is `b`, in the order of texts.
pub fn text_before_or_at(a: &str, b: &str) -> (r: bool)
    ensures
        r == text_le(a@, b@),
{
    let x = chars_of(a);
    let y = chars_of(b);
    chars_le(&x, &y)
}

/// Inserting into a sequence adds one element to what it holds.
proof fn lemma_insert_to_multiset(s: Seq<Seq<char>>, i: int, a: Seq<char>)
    requires
        0 <= i <= s.len(),
    ensures
        s.insert(i, a).to_multiset() == s.to_multiset().insert(a),
{
    broadcast use vstd::seq_lib::group_to_multiset_ensures;
    broadcast use vstd::multiset::group_multiset_axioms;

    let t = s.insert(i, a);
    assert(t.remove(i) =~= s);
    assert(t[i] == a);
    assert(t.remove(i).to_multiset() =~= t.to_multiset().remove(a));
    assert(t.to_multiset().count(a) > 0) by {
        assert(t.contains(a));
    }
    assert(t.to_multiset() =~= s.to_multiset().insert(a));
}

/// Sorts texts into their order. The result holds the same texts, each as
/// often as before.
pub fn sort_texts(items: Vec<String>) -> (sorted: Vec<String>)
    ensures
        sorted_by(texts_of(sorted@), text_order()),
        texts_of(sorted@).to_multiset() == texts_of(items@).to_multiset(),
{
    broadcast use vstd::seq_lib::group_to_multiset_ensures;
    broadcast use vstd::multiset::group_multiset_axioms;

    let ghost all = texts_of(items@);
    let mut rest = items;
    let mut out: Vec<String> = Vec::new();
    assert(texts_of(out@) =~= Seq::<Seq<char>>::empty());
    assert(texts_of(out@).to_multiset().add(all.to_multiset()) =~= all.to_multiset());
    while rest.len() > 0
        invariant
            sorted_by(texts_of(out@), text_order()),
            texts_of(out@).to_multiset().add(texts_of(rest@).to_multiset()) == all.to_multiset(),
        decreases rest.len(),
    {
        let ghost rest_before = texts_of(rest@);
        let ghost out_before = texts_of(out@);
        let item = rest.pop().unwrap();
        let ghost item_text = item@;
        proof {
            assert(texts_of(rest@) =~= rest_before.drop_last());
            assert(rest_before =~= texts_of(rest@).push(item_text));
        }
        let item_chars = chars_of(item.as_str());
        let mut pos: usize = 0;
        let mut found = false;
        while !found && pos < out.len()
            invariant
                pos <= out.len(),
                item_chars@ == item@,
                out_before == texts_of(out@),
                forall|j: int| 0 <= j < pos ==> text_le(out_before[j], item@),
                found ==> pos < out.len() && !text_le(out_before[pos as int], item@),
            decreases out.len() - pos + (if found { 0int } else { 1int }),
        {
            let here = chars_of(out[pos].as_str());
            if chars_le(&here, &item_chars) {
                pos += 1;
            } else {
                found = true;
            }
        }
        proof {
            if pos < out.len() {
                lemma_text_le_connected(out_before[pos as int], item@);
            }
            assert forall|i: int, j: int|
                0 <= i < j < out_before.insert(pos as int, item@).len() implies text_le(
                out_before.insert(pos as int, item@)[i],
                out_before.insert(pos as int, item@)[j],
            ) by {
                let ins = out_before.insert(pos as int, item@);
                if j < pos {
                    assert(text_order()(out_before[i], out_before[j]));
                } else if j == pos {
                } else if i == pos {
                    assert(ins[j] == out_before[j - 1]);
                    if j - 1 > pos {
                        assert(text_order()(out_before[pos as int], out_before[j - 1]));
                        lemma_text_le_transitive(item@, out_before[pos as int], out_before[j - 1]);
                    }
                } else if i < pos {
                    assert(ins[j] == out_before[j - 1]);
                    assert(text_order()(out_before[i], out_before[j - 1]));
                } else {
                    assert(ins[i] == out_before[i - 1]);
                    assert(ins[j] == out_before[j - 1]);
                    assert(text_order()(out_before[i - 1], out_before[j - 1]));
                }
            }
            lemma_insert_to_multiset(out_before, pos as int, item@);
        }
        out.insert(pos, item);
        proof {
            let rest_now = texts_of(rest@);
            assert(texts_of(out@) =~= out_before.insert(pos as int, item_text));
            vstd::seq_lib::to_multiset_build(rest_now, item_text);
            assert(rest_before.to_multiset() =~= rest_now.to_multiset().insert(item_text));
            assert(texts_of(out@).to_multiset() =~= out_before.to_multiset().insert(item_text));
            assert(texts_of(out@).to_multiset().add(rest_now.to_multiset())
                =~= out_before.to_multiset().add(rest_before.to_multiset()));
        }
    }
    assert(texts_of(rest@) =~= Seq::<Seq<char>>::empty());
    assert(texts_of(out@).to_multiset() =~= all.to_multiset());
    out
}

/// The texts of a sequence of entries, each a name and what goes with it.
pub open spec fn entry_views(entries: Seq<(String, String)>) -> Seq<(Seq<char>, Seq<char>)> {
    Seq::new(entries.len(), |i: int| (entries[i].0@, entries[i].1@))
}

/// The sorted entries `sorted` with `entry` among them: behind every entry
/// whose name is before or at its own, and before the first whose name is
/// not.
pub open spec fn insert_entry(
    sorted: Seq<(Seq<char>, Seq<char>)>,
    entry: (Seq<char>, Seq<char>),
) -> Seq<(Seq<char>, Seq<char>)>
    decreases sorted.len(),
{
    if sorted.len() == 0 {
        seq![entry]
    } else if text_le(sorted[0].0, entry.0) {
        seq![sorted[0]] + insert_entry(sorted.skip(1), entry)
    } else {
        seq![entry] + sorted
    }
}

/// The entries in the order of their names. Entries of one name keep the
/// order in which they were given.
pub open spec fn sorted_entries(entries: Seq<(Seq<char>, Seq<char>)>) -> Seq<
    (Seq<char>, Seq<char>),
>
    decreases entries.len(),
{
    if entries.len() == 0 {
        Seq::empty()
    } else {
        insert_entry(sorted_entries(entries.drop_last()), entries.last())
    }
}

/// Whether the names of `entries` are in order.
pub open spec fn names_in_order(entries: Seq<(Seq<char>, Seq<char>)>) -> bool {
    forall|i: int, j: int| 0 <= i < j < entries.len() ==> text_le(entries[i].0, entries[j].0)
}

/// Inserting at the place behind the entries that are before or at the new
/// one, and before the first that is not.
pub proof fn lemma_insert_entry_at(
    sorted: Seq<(Seq<char>, Seq<char>)>,
    entry: (Seq<char>, Seq<char>),
    pos: int,
)
    requires
        0 <= pos <= sorted.len(),
        forall|j: int| 0 <= j < pos ==> text_le(sorted[j].0, entry.0),
        pos < sorted.len() ==> !text_le(sorted[pos].0, entry.0),
    ensures
        insert_entry(sorted, entry) == sorted.insert(pos, entry),
    decreases pos,
{
    if pos == 0 {
        if sorted.len() == 0 {
            assert(sorted.insert(0, entry) =~= seq![entry]);
        } else {
            assert(sorted.insert(0, entry) =~= seq![entry] + sorted);
        }
    } else {
        let rest = sorted.skip(1);
        assert forall|j: int| 0 <= j < pos - 1 implies text_le(rest[j].0, entry.0) by {
            assert(rest[j] == sorted[j + 1]);
        }
        lemma_insert_entry_at(rest, entry, pos - 1);
        assert(sorted.insert(pos, entry) =~= seq![sorted[0]] + rest.insert(pos - 1, entry));
    }
}

/// An entry that is inserted into entries whose names are in order leaves
/// the names in order, and adds no entry but itself.
pub proof fn lemma_insert_keeps_order(
    sorted: Seq<(Seq<char>, Seq<char>)>,
    entry: (Seq<char>, Seq<char>),
)
    requires
        names_in_order(sorted),
    ensures
        names_in_order(insert_entry(sorted, entry)),
        insert_entry(sorted, entry).len() == sorted.len() + 1,
        forall|i: int|
            0 <= i < insert_entry(sorted, entry).len() ==> (#[trigger] insert_entry(sorted, entry)[i]
                == entry || sorted.contains(insert_entry(sorted, entry)[i])),
    decreases sorted.len(),
{
    let out = insert_entry(sorted, entry);
    if sorted.len() == 0 {
    } else if text_le(sorted[0].0, entry.0) {
        let rest = sorted.skip(1);
        assert forall|i: int, j: int| 0 <= i < j < rest.len() implies text_le(
            rest[i].0,
            rest[j].0,
        ) by {
            assert(rest[i] == sorted[i + 1] && rest[j] == sorted[j + 1]);
        }
        lemma_insert_keeps_order(rest, entry);
        let tail = insert_entry(rest, entry);
        assert forall|i: int| 0 <= i < out.len() implies (#[trigger] out[i] == entry
            || sorted.contains(out[i])) by {
            if i == 0 {
                assert(sorted[0] == out[0]);
            } else {
                assert(out[i] == tail[i - 1]);
                if tail[i - 1] != entry {
                    let k = choose|k: int| 0 <= k < rest.len() && rest[k] == tail[i - 1];
                    assert(sorted[k + 1] == tail[i - 1]);
                }
            }
        }
        assert forall|i: int, j: int| 0 <= i < j < out.len() implies text_le(out[i].0, out[j].0) by {
            assert(out[j] == tail[j - 1]);
            if i == 0 {
                if tail[j - 1] != entry {
                    let k = choose|k: int| 0 <= k < rest.len() && rest[k] == tail[j - 1];
                    assert(sorted[k + 1] == out[j]);
                }
            } else {
                assert(out[i] == tail[i - 1]);
            }
        }
    } else {
        lemma_text_le_connected(sorted[0].0, entry.0);
        assert forall|i: int, j: int| 0 <= i < j < out.len() implies text_le(out[i].0, out[j].0) by {
            assert(out[j] == sorted[j - 1]);
            if i == 0 {
                if j - 1 > 0 {
                    lemma_text_le_transitive(entry.0, sorted[0].0, sorted[j - 1].0);
                }
            } else {
                assert(out[i] == sorted[i - 1]);
            }
        }
        assert forall|i: int| 0 <= i < out.len() implies (#[trigger] out[i] == entry
            || sorted.contains(out[i])) by {
            if i > 0 {
                assert(out[i] == sorted[i - 1]);
            }
        }
    }
}

/// Sorted entries have their names in order, and are as many as were given.
pub proof fn lemma_sorted_entries_in_order(entries: Seq<(Seq<char>, Seq<char>)>)
    ensures
        names_in_order(sorted_entries(entries)),
        sorted_entries(entries).len() == entries.len(),
    decreases entries.len(),
{
    if entries.len() > 0 {
        lemma_sorted_entries_in_order(entries.drop_last());
        lemma_insert_keeps_order(sorted_entries(entries.drop_last()), entries.last());
    }
}

/// Sorts entries into the order of their names.
pub fn sort_entries(entries: &Vec<(String, String)>) -> (sorted: Vec<(String, String)>)
    ensures
        entry_views(sorted@) == sorted_entries(entry_views(entries@)),
{
    let ghost all = entry_views(entries@);
    let mut out: Vec<(String, String)> = Vec::new();
    let mut i: usize = 0;
    assert(all.take(0) =~= Seq::empty());
    assert(entry_views(out@) =~= Seq::empty());
    while i < entries.len()
        invariant
            i <= entries.len(),
            all == entry_views(entries@),
            entry_views(out@) == sorted_entries(all.take(i as int)),
        decreases entries.len() - i,
    {
        let ghost before = entry_views(out@);
        let ghost entry = all[i as int];
        let name = chars_of(entries[i].0.as_str());
        let mut pos: usize = 0;
        let mut found = false;
        while !found && pos < out.len()
            invariant
                pos <= out.len(),
                name@ == entry.0,
                before == entry_views(out@),
                forall|j: int| 0 <= j < pos ==> text_le(before[j].0, entry.0),
                found ==> pos < out.len() && !text_le(before[pos as int].0, entry.0),
            decreases out.len() - pos + (if found {
                0int
            } else {
                1int
            }),
        {
            let here = chars_of(out[pos].0.as_str());
            if chars_le(&here, &name) {
                pos += 1;
            } else {
                found = true;
            }
        }
        proof {
            lemma_insert_entry_at(before, entry, pos as int);
            assert(all.take(i + 1).drop_last() =~= all.take(i as int));
            assert(all.take(i + 1).last() == entry);
        }
        out.insert(pos, (entries[i].0.clone(), entries[i].1.clone()));
        assert(entry_views(out@) =~= before.insert(pos as int, entry));
        i += 1;
    }
    assert(all.take(i as int) =~= all);
    out
}

} // verus!
