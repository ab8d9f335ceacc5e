//! The diff engine: a line-by-line summary of two renderings, a unified diff
//! of them, and the report that puts both together.
use crate::text::chars_of;
use crate::text::decimal;
use crate::text::line_views;
use crate::text::lines_of;
use crate::text::push_char;
use crate::text::push_chars;
use crate::text::push_decimal;
use crate::text::push_text;
use crate::text::split_lines;
use crate::text::trim;
use crate::text::trimmed;
use vstd::prelude::*;

verus! {

/// What a piece of a diff says of its text.
#[derive(Debug, Clone, Copy, PartialEq, Eq, Structural)]
pub enum ChangeTag {
    /// The text stands on the left only.
    Delete,
    /// The text stands on the right only.
    Insert,
    /// The text stands on both sides.
    Equal,
}

/// The changes that lead from the lines of `left` to the lines of `right`,
/// each with its line, line ending included.
pub uninterp spec fn line_changes_of(left: Seq<char>, right: Seq<char>) -> Seq<
    (ChangeTag, Seq<char>),
>;

/// The views of a sequence of changes.
pub open spec fn change_views(changes: Seq<(ChangeTag, String)>) -> Seq<(ChangeTag, Seq<char>)> {
    Seq::new(changes.len(), |i: int| (changes[i].0, changes[i].1@))
}

/// The line diff of `similar`: `TextDiff::from_lines` splits both texts into
/// lines that keep their line ending and compares them; `iter_all_changes`
/// walks the outcome in order, unchanged lines included. The outcome
/// depends on the two texts alone.
#[verifier::external_body]
fn line_changes(left: &str, right: &str) -> (changes: Vec<(ChangeTag, String)>)
    ensures
        change_views(changes@) == line_changes_of(left@, right@),
{
    let diff = similar::TextDiff::from_lines(left, right);
    let mut changes = Vec::new();
    for change in diff.iter_all_changes() {
        let tag = match change.tag() {
            similar::ChangeTag::Delete => ChangeTag::Delete,
            similar::ChangeTag::Insert => ChangeTag::Insert,
            similar::ChangeTag::Equal => ChangeTag::Equal,
        };
        changes.push((tag, change.value().to_string()));
    }
    changes
}

/// The sign that a unified diff puts before a line.
pub open spec fn sign_of(tag: ChangeTag) -> char {
    match tag {
        ChangeTag::Delete => '-',
        ChangeTag::Insert => '+',
        ChangeTag::Equal => ' ',
    }
}

/// One line of a unified diff: the sign, the text, and a line feed unless the
/// text ends with one.
pub open spec fn change_line(tag: ChangeTag, value: Seq<char>) -> Seq<char> {
    if value.len() > 0 && value.last() == '\n' {
        seq![sign_of(tag)] + value
    } else {
        (seq![sign_of(tag)] + value).push('\n')
    }
}

/// The unified diff that shows `changes`, one line for each.
pub open spec fn unified_text(changes: Seq<(ChangeTag, Seq<char>)>) -> Seq<char>
    decreases changes.len(),
{
    if changes.len() == 0 {
        Seq::empty()
    } else {
        unified_text(changes.drop_last()) + change_line(changes.last().0, changes.last().1)
    }
}

/// Writes `changes` as a unified diff.
pub fn render_changes(changes: &Vec<(ChangeTag, String)>) -> (out: String)
    ensures
        out@ == unified_text(change_views(changes@)),
{
    let mut out = String::new();
    let ghost all = change_views(changes@);
    let mut i: usize = 0;
    assert(all.take(0) =~= Seq::empty());
    while i < changes.len()
        invariant
            i <= changes.len(),
            all == change_views(changes@),
            out@ == unified_text(all.take(i as int)),
        decreases changes.len() - i,
    {
        let ghost before = out@;
        let sign = match changes[i].0 {
            ChangeTag::Delete => '-',
            ChangeTag::Insert => '+',
            ChangeTag::Equal => ' ',
        };
        push_char(&mut out, sign);
        let value = chars_of(changes[i].1.as_str());
        push_chars(&mut out, &value);
        if value.len() == 0 || value[value.len() - 1] != '\n' {
            push_char(&mut out, '\n');
        }
        proof {
            assert(all.take(i + 1).drop_last() =~= all.take(i as int));
            assert(all.take(i + 1).last() == all[i as int]);
            assert(out@ =~= before + change_line(all[i as int].0, all[i as int].1));
        }
        i += 1;
    }
    assert(all.take(i as int) =~= all);
    out
}

/// A unified diff of two texts, line by line: each line of either text with
/// `-`, `+` or a blank before it.
pub fn unified_diff(left: &str, right: &str) -> (out: String)
    ensures
        out@ == unified_text(line_changes_of(left@, right@)),
{
    let changes = line_changes(left, right);
    render_changes(&changes)
}

/// What the summary says of line `i`, counted from 0, where it reads `a` on
/// the left and `b` on the right.
pub open spec fn differing_line(i: int, a: Seq<char>, b: Seq<char>) -> Seq<char> {
    "  line "@ + decimal((i + 1) as nat) + ": "@ + trimmed(a) + " -> "@ + trimmed(b) + "\n"@
}

/// What the summary says of the first `n` lines of both sides: one entry for
/// each line that differs.
pub open spec fn differing_lines(a: Seq<Seq<char>>, b: Seq<Seq<char>>, n: int) -> Seq<char>
    decreases n,
{
    if n <= 0 {
        Seq::empty()
    } else if a[n - 1] != b[n - 1] {
        differing_lines(a, b, n - 1) + differing_line(n - 1, a[n - 1], b[n - 1])
    } else {
        differing_lines(a, b, n - 1)
    }
}

/// What the summary says of the number of lines, `m` on the left and `n` on
/// the right: nothing where they agree.
pub open spec fn line_count_note(m: nat, n: nat) -> Seq<char> {
    if m != n {
        "  (line count differs: "@ + decimal(m) + " vs "@ + decimal(n) + ")\n"@
    } else {
        Seq::empty()
    }
}

/// The summary of how `left` and `right` differ, line by line.
pub open spec fn line_diff_text(left: Seq<char>, right: Seq<char>) -> Seq<char> {
    let a = lines_of(left);
    let b = lines_of(right);
    let shared = if a.len() <= b.len() {
        a.len() as int
    } else {
        b.len() as int
    };
    let body = differing_lines(a, b, shared) + line_count_note(a.len(), b.len());
    if body.len() == 0 {
        "(states appear equal but PartialEq returned false)"@
    } else {
        body
    }
}

fn same_chars(a: &Vec<char>, b: &Vec<char>) -> (r: bool)
    ensures
        r == (a@ == b@),
{
    if a.len() != b.len() {
        return false;
    }
    let mut i: usize = 0;
    while i < a.len()
        invariant
            i <= a.len(),
            a.len() == b.len(),
            forall|j: int| 0 <= j < i ==> a@[j] == b@[j],
        decreases a.len() - i,
    {
        if a[i] != b[i] {
            return false;
        }
        i += 1;
    }
    assert(a@ =~= b@);
    true
}

/// Compares two texts line by line: names each line that differs, with both
/// readings trimmed, and says so where the numbers of lines differ. Where
/// nothing differs it says that the texts look equal.
pub fn line_diff(left: &str, right: &str) -> (out: String)
    ensures
        out@ == line_diff_text(left@, right@),
{
    let left_chars = chars_of(left);
    let right_chars = chars_of(right);
    let a = split_lines(&left_chars);
    let b = split_lines(&right_chars);
    let shared: usize = if a.len() <= b.len() {
        a.len()
    } else {
        b.len()
    };
    let ghost la = lines_of(left@);
    let ghost lb = lines_of(right@);
    let mut out = String::new();
    let mut i: usize = 0;
    while i < shared
        invariant
            i <= shared,
            shared <= a.len(),
            shared <= b.len(),
            la == line_views(a@),
            lb == line_views(b@),
            out@ == differing_lines(la, lb, i as int),
        decreases shared - i,
    {
        let ghost before = out@;
        if !same_chars(&a[i], &b[i]) {
            push_text(&mut out, "  line ");
            push_decimal(&mut out, (i + 1) as u64);
            push_text(&mut out, ": ");
            let x = trim(&a[i]);
            push_chars(&mut out, &x);
            push_text(&mut out, " -> ");
            let y = trim(&b[i]);
            push_chars(&mut out, &y);
            push_text(&mut out, "\n");
            assert(out@ =~= before + differing_line(i as int, la[i as int], lb[i as int]));
        }
        i += 1;
    }
    let ghost lines = out@;
    if a.len() != b.len() {
        push_text(&mut out, "  (line count differs: ");
        push_decimal(&mut out, a.len() as u64);
        push_text(&mut out, " vs ");
        push_decimal(&mut out, b.len() as u64);
        push_text(&mut out, ")\n");
    }
    assert(out@ =~= lines + line_count_note(la.len(), lb.len()));
    if out.as_str().is_empty() {
        out = "(states appear equal but PartialEq returned false)".to_owned();
    }
    out
}

/// The report of a mismatch: the summary, then the unified diff under a
/// header that names the two sides.
pub open spec fn mismatch_text(summary: Seq<char>, full: Seq<char>) -> Seq<char> {
    "State differences:\n"@ + summary + "\n--- spec (TLA+)\n+++ driver (Rust)\n"@ + full
}

/// Puts a summary and a unified diff together into the report of a mismatch.
pub fn mismatch_report(summary: &str, full: &str) -> (out: String)
    ensures
        out@ == mismatch_text(summary@, full@),
{
    let mut out = String::new();
    push_text(&mut out, "State differences:\n");
    push_text(&mut out, summary);
    push_text(&mut out, "\n--- spec (TLA+)\n+++ driver (Rust)\n");
    push_text(&mut out, full);
    assert(out@ =~= mismatch_text(summary@, full@));
    out
}

/// Whether a text is the report of a mismatch: some summary, then the
/// unified diff of two texts under the header that names the two sides.
pub open spec fn is_mismatch_report(text: Seq<char>) -> bool {
    exists|summary: Seq<char>, left: Seq<char>, right: Seq<char>|
        text == mismatch_text(summary, unified_text(line_changes_of(left, right)))
}

} // verus!
