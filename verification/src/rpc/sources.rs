//! The source files of a specification, as they are sent to the server.
use base64::Engine;
use crate::text::ends_with;
use crate::text::has_suffix;
use vstd::prelude::*;

verus! {

/// The character of the standard base64 alphabet for the six bits `d`:
/// the capital letters, the small letters, the digits, `+` and `/`.
pub open spec fn base64_char(d: int) -> char {
    if d < 26 {
        (65 + d) as char
    } else if d < 52 {
        (97 + d - 26) as char
    } else if d < 62 {
        (48 + d - 52) as char
    } else if d == 62 {
        '+'
    } else {
        '/'
    }
}

/// The text that standard base64 with padding gives for `bytes`: four
/// characters for every three bytes, six bits to a character, and for the
/// one or two bytes that are left at the end four characters of which the
/// last two or the last one are `=`.
pub open spec fn base64_of(bytes: Seq<u8>) -> Seq<char>
    decreases bytes.len(),
{
    if bytes.len() == 0 {
        Seq::empty()
    } else if bytes.len() == 1 {
        seq![base64_char(bytes[0] as int / 4), base64_char(bytes[0] as int % 4 * 16), '=', '=']
    } else if bytes.len() == 2 {
        seq![
            base64_char(bytes[0] as int / 4),
            base64_char(bytes[0] as int % 4 * 16 + bytes[1] as int / 16),
            base64_char(bytes[1] as int % 16 * 4),
            '=',
        ]
    } else {
        seq![
            base64_char(bytes[0] as int / 4),
            base64_char(bytes[0] as int % 4 * 16 + bytes[1] as int / 16),
            base64_char(bytes[1] as int % 16 * 4 + bytes[2] as int / 64),
            base64_char(bytes[2] as int % 64),
        ] + base64_of(bytes.skip(3))
    }
}

/// Whether the base64 text of `len` bytes, four characters for every three
/// bytes, has a length that the machine can count.
pub open spec fn encodable(len: nat) -> bool {
    len / 3 * 4 + 4 <= usize::MAX
}

/// Encodes bytes with `base64`'s `STANDARD` engine, which writes the
/// standard alphabet with padding. The engine refuses an input whose text
/// would be too long to count.
#[verifier::external_body]
fn base64_encode(bytes: &[u8]) -> (text: String)
    requires
        encodable(bytes@.len()),
    ensures
        text@ == base64_of(bytes@),
{
    base64::engine::general_purpose::STANDARD.encode(bytes)
}

/// Encodes the contents of the source files for the server, in their order.
pub fn encode_sources(contents: &Vec<Vec<u8>>) -> (sources: Vec<String>)
    requires
        forall|i: int| 0 <= i < contents@.len() ==> encodable(#[trigger] contents@[i]@.len()),
    ensures
        sources@.len() == contents@.len(),
        forall|i: int| 0 <= i < contents@.len() ==> sources@[i]@ == base64_of(contents@[i]@),
{
    let mut sources: Vec<String> = Vec::new();
    let mut i: usize = 0;
    while i < contents.len()
        invariant
            i <= contents.len(),
            sources@.len() == i,
            forall|k: int| 0 <= k < contents@.len() ==> encodable(#[trigger] contents@[k]@.len()),
            forall|j: int| 0 <= j < i ==> sources@[j]@ == base64_of(contents@[j]@),
        decreases contents.len() - i,
    {
        sources.push(base64_encode(contents[i].as_slice()));
        i += 1;
    }
    sources
}

/// Whether a file beside the main module is sent along with it: its name
/// ends with `.tla` behind at least one other character, and it is not the
/// main module itself.
pub open spec fn is_aux_source(path: Seq<char>, name: Seq<char>, spec_path: Seq<char>) -> bool {
    ends_with(name, ".tla"@) && name.len() > 4 && path != spec_path
}

/// Whether the file at `path`, whose name is `name`, is sent along with the
/// main module at `spec_path`.
pub fn wants_aux_source(path: &str, name: &str, spec_path: &str) -> (r: bool)
    ensures
        r == is_aux_source(path@, name@, spec_path@),
{
    let long_enough = name.unicode_len() > 4;
    let same = path.to_owned() == spec_path.to_owned();
    has_suffix(name, ".tla") && long_enough && !same
}

} // verus!
