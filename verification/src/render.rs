//! How texts read in a message: the text that `{:?}` gives for them.
use crate::text::joined;
use crate::text::push_joined;
use crate::text::push_text;
use crate::text::texts_of;
use vstd::prelude::*;

verus! {

/// The text that `{:?}` gives for a string: the string in quotation marks,
/// with the characters escaped that Rust escapes in a string literal.
pub uninterp spec fn debug_of_text(text: Seq<char>) -> Seq<char>;

/// Renders a string with `format!("{:?}", ..)`. The text depends on the
/// string alone.
#[verifier::external_body]
fn debug_str(text: &str) -> (s: String)
    ensures
        s@ == debug_of_text(text@),
{
    format!("{:?}", text)
}

/// The text that `{:?}` gives for each of `texts`.
pub open spec fn debug_of_each(texts: Seq<Seq<char>>) -> Seq<Seq<char>> {
    Seq::new(texts.len(), |i: int| debug_of_text(texts[i]))
}

/// The text that `{:?}` gives for a list of strings: the strings in square
/// brackets, with a comma and a blank between each two.
pub open spec fn debug_of_texts(texts: Seq<Seq<char>>) -> Seq<char> {
    "["@ + joined(debug_of_each(texts), ", "@) + "]"@
}

/// Renders a list of strings as `{:?}` does.
pub fn debug_texts(texts: &Vec<String>) -> (s: String)
    ensures
        s@ == debug_of_texts(texts_of(texts@)),
{
    let mut parts: Vec<String> = Vec::new();
    let mut i: usize = 0;
    while i < texts.len()
        invariant
            i <= texts.len(),
            parts@.len() == i,
            forall|j: int| 0 <= j < i ==> parts@[j]@ == debug_of_text(texts@[j]@),
        decreases texts.len() - i,
    {
        parts.push(debug_str(texts[i].as_str()));
        i += 1;
    }
    assert(texts_of(parts@) =~= debug_of_each(texts_of(texts@)));
    let mut s = String::new();
    push_text(&mut s, "[");
    push_joined(&mut s, &parts, ", ");
    push_text(&mut s, "]");
    assert(s@ =~= debug_of_texts(texts_of(texts@)));
    s
}

} // verus!
