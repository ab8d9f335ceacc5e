//! Text helpers shared by the rest of the crate: strings and character
//! vectors, decimal numerals, lines, trimming, searching and joining.
use vstd::prelude::*;

verus! {

/// Appends one character to a string, through `String::push`.
#[verifier::external_body]
pub(crate) fn push_char(s: &mut String, c: char)
    ensures
        final(s)@ == old(s)@.push(c),
{
    s.push(c)
}

/// Appends `other` to `s`.
pub fn push_text(s: &mut String, other: &str)
    ensures
        final(s)@ == old(s)@ + other@,
{
    s.append(other);
}

/// The characters of `s`, in order.
pub fn chars_of(s: &str) -> (v: Vec<char>)
    ensures
        v@ == s@,
{
    let mut v: Vec<char> = Vec::new();
    for c in it: s.chars()
        invariant
            v@ == it.seq().take(it.index()),
    {
        v.push(c);
    }
    v
}

/// Appends the characters `v` to `s`.
pub fn push_chars(s: &mut String, v: &Vec<char>)
    ensures
        final(s)@ == old(s)@ + v@,
{
    let mut i: usize = 0;
    while i < v.len()
        invariant
            i <= v.len(),
            s@ == old(s)@ + v@.take(i as int),
        decreases v.len() - i,
    {
        push_char(s, v[i]);
        i += 1;
        assert(v@.take(i as int) =~= v@.take(i - 1).push(v@[i - 1]));
        assert(s@ =~= old(s)@ + v@.take(i as int));
    }
    assert(v@.take(i as int) =~= v@);
}

/// The string made of the characters `v`.
pub fn string_of(v: &Vec<char>) -> (s: String)
    ensures
        s@ == v@,
{
    let mut s = String::new();
    push_chars(&mut s, v);
    assert(s@ =~= v@);
    s
}

/// The decimal digit for `d`, where `0 <= d <= 9`.
pub open spec fn digit_char(d: int) -> char {
    if d == 0 {
        '0'
    } else if d == 1 {
        '1'
    } else if d == 2 {
        '2'
    } else if d == 3 {
        '3'
    } else if d == 4 {
        '4'
    } else if d == 5 {
        '5'
    } else if d == 6 {
        '6'
    } else if d == 7 {
        '7'
    } else if d == 8 {
        '8'
    } else {
        '9'
    }
}

/// The decimal numeral of `n`, without leading zeros.
pub open spec fn decimal(n: nat) -> Seq<char>
    decreases n,
{
    if n < 10 {
        seq![digit_char(n as int)]
    } else {
        decimal(n / 10).push(digit_char((n % 10) as int))
    }
}

/// The decimal numeral of `i`, with a leading `-` when it is negative.
pub open spec fn signed_decimal(i: int) -> Seq<char> {
    if i < 0 {
        seq!['-'] + decimal((-i) as nat)
    } else {
        decimal(i as nat)
    }
}

fn digit_of(d: u64) -> (c: char)
    requires
        d < 10,
    ensures
        c == digit_char(d as int),
{
    if d == 0 {
        '0'
    } else if d == 1 {
        '1'
    } else if d == 2 {
        '2'
    } else if d == 3 {
        '3'
    } else if d == 4 {
        '4'
    } else if d == 5 {
        '5'
    } else if d == 6 {
        '6'
    } else if d == 7 {
        '7'
    } else if d == 8 {
        '8'
    } else {
        '9'
    }
}

/// Appends the decimal numeral of `n` to `s`.
pub fn push_decimal(s: &mut String, n: u64)
    ensures
        final(s)@ == old(s)@ + decimal(n as nat),
    decreases n,
{
    if n < 10 {
        push_char(s, digit_of(n));
        assert(s@ =~= old(s)@ + decimal(n as nat));
    } else {
        push_decimal(s, n / 10);
        push_char(s, digit_of(n % 10));
        assert(s@ =~= old(s)@ + decimal(n as nat));
    }
}

/// Appends the decimal numeral of `i` to `s`, with a leading `-` when it is
/// negative.
pub fn push_signed_decimal(s: &mut String, i: i64)
    ensures
        final(s)@ == old(s)@ + signed_decimal(i as int),
{
    if i < 0 {
        let magnitude: u64 = (-(i + 1)) as u64 + 1;
        push_char(s, '-');
        push_decimal(s, magnitude);
        assert(s@ =~= old(s)@ + signed_decimal(i as int));
    } else {
        push_decimal(s, i as u64);
    }
}

/// The decimal numeral of `n` as a string.
pub fn decimal_string(n: u64) -> (s: String)
    ensures
        s@ == decimal(n as nat),
{
    let mut s = String::new();
    push_decimal(&mut s, n);
    assert(s@ =~= decimal(n as nat));
    s
}

/// Whether `c` is white space: the characters that `char::is_whitespace`
/// accepts.
pub open spec fn is_space(c: char) -> bool {
    let n = c as u32;
    ||| 0x09 <= n <= 0x0d
    ||| n == 0x20
    ||| n == 0x85
    ||| n == 0xa0
    ||| n == 0x1680
    ||| 0x2000 <= n <= 0x200a
    ||| n == 0x2028
    ||| n == 0x2029
    ||| n == 0x202f
    ||| n == 0x205f
    ||| n == 0x3000
}

/// Whether `c` is white space.
pub fn is_whitespace(c: char) -> (r: bool)
    ensures
        r == is_space(c),
{
    let n: u32 = c as u32;
    (0x09 <= n && n <= 0x0d) || n == 0x20 || n == 0x85 || n == 0xa0 || n == 0x1680 || (0x2000 <= n
        && n <= 0x200a) || n == 0x2028 || n == 0x2029 || n == 0x202f || n == 0x205f || n == 0x3000
}

/// `s` without the white space at its start.
pub open spec fn trim_start_of(s: Seq<char>) -> Seq<char>
    decreases s.len(),
{
    if s.len() > 0 && is_space(s[0]) {
        trim_start_of(s.skip(1))
    } else {
        s
    }
}

/// `s` without the white space at its end.
pub open spec fn trim_end_of(s: Seq<char>) -> Seq<char>
    decreases s.len(),
{
    if s.len() > 0 && is_space(s.last()) {
        trim_end_of(s.drop_last())
    } else {
        s
    }
}

/// `s` without the white space at either end.
pub open spec fn trimmed(s: Seq<char>) -> Seq<char> {
    trim_end_of(trim_start_of(s))
}

/// `v` without the white space at either end.
pub fn trim(v: &Vec<char>) -> (r: Vec<char>)
    ensures
        r@ == trimmed(v@),
{
    let mut start: usize = 0;
    assert(v@.skip(0) =~= v@);
    while start < v.len() && is_whitespace(v[start])
        invariant
            start <= v.len(),
            trim_start_of(v@) == trim_start_of(v@.skip(start as int)),
        decreases v.len() - start,
    {
        assert(v@.skip(start as int).skip(1) =~= v@.skip(start + 1));
        start += 1;
    }
    let ghost rest = v@.skip(start as int);
    assert(trim_start_of(v@) == rest);
    let mut end: usize = v.len();
    assert(rest.take(rest.len() as int) =~= rest);
    while end > start && is_whitespace(v[end - 1])
        invariant
            start <= end <= v.len(),
            rest == v@.skip(start as int),
            trim_end_of(rest) == trim_end_of(rest.take(end - start)),
        decreases end,
    {
        assert(rest.take(end - start).drop_last() =~= rest.take(end - start - 1));
        end -= 1;
    }
    assert(trim_end_of(rest) == rest.take(end - start));
    let mut out: Vec<char> = Vec::new();
    let mut i: usize = start;
    while i < end
        invariant
            start <= i <= end <= v.len(),
            out@ == v@.subrange(start as int, i as int),
        decreases end - i,
    {
        out.push(v[i]);
        assert(v@.subrange(start as int, i + 1) =~= v@.subrange(start as int, i as int).push(
            v@[i as int],
        ));
        i += 1;
    }
    assert(out@ =~= rest.take(end - start));
    out
}

/// The place of the first line feed in `s`, or the length of `s` where it
/// holds none.
pub open spec fn first_newline(s: Seq<char>) -> int
    decreases s.len(),
{
    if s.len() == 0 || s[0] == '\n' {
        0
    } else {
        1 + first_newline(s.skip(1))
    }
}

/// `first_newline` is a place in `s`, or its length.
pub proof fn lemma_first_newline_bounds(s: Seq<char>)
    ensures
        0 <= first_newline(s) <= s.len(),
    decreases s.len(),
{
    if s.len() == 0 || s[0] == '\n' {
    } else {
        lemma_first_newline_bounds(s.skip(1));
    }
}

/// `line` without a carriage return at its end.
pub open spec fn without_cr(line: Seq<char>) -> Seq<char> {
    if line.len() > 0 && line.last() == '\r' {
        line.drop_last()
    } else {
        line
    }
}

/// The lines of `s`, as `str::lines` gives them: a line ends with a line
/// feed, or a carriage return and a line feed, neither of which belongs to
/// it; what follows the last line feed is a line unless it is empty.
pub open spec fn lines_of(s: Seq<char>) -> Seq<Seq<char>>
    decreases s.len(),
{
    if s.len() == 0 {
        Seq::empty()
    } else {
        let k = first_newline(s);
        if k >= s.len() {
            seq![s]
        } else {
            proof {
                lemma_first_newline_bounds(s);
            }
            seq![without_cr(s.take(k))] + lines_of(s.skip(k + 1))
        }
    }
}

/// `first_newline` is the one place before which no line feed stands and at
/// which one does, or the sequence ends.
pub proof fn lemma_first_newline(s: Seq<char>, k: int)
    requires
        0 <= k <= s.len(),
        forall|i: int| 0 <= i < k ==> s[i] != '\n',
        k < s.len() ==> s[k] == '\n',
    ensures
        first_newline(s) == k,
    decreases s.len(),
{
    if s.len() == 0 || s[0] == '\n' {
    } else {
        lemma_first_newline(s.skip(1), k - 1);
    }
}

/// The sequence of the views of `lines`.
pub open spec fn line_views(lines: Seq<Vec<char>>) -> Seq<Seq<char>> {
    Seq::new(lines.len(), |i: int| lines[i]@)
}

/// The lines of `v`.
pub fn split_lines(v: &Vec<char>) -> (r: Vec<Vec<char>>)
    ensures
        line_views(r@) == lines_of(v@),
{
    let mut out: Vec<Vec<char>> = Vec::new();
    let mut start: usize = 0;
    assert(v@.skip(0) =~= v@);
    assert(line_views(out@) =~= Seq::<Seq<char>>::empty());
    while start < v.len()
        invariant
            start <= v.len(),
            lines_of(v@) == line_views(out@) + lines_of(v@.skip(start as int)),
        decreases v.len() - start,
    {
        let ghost rest = v@.skip(start as int);
        let mut end: usize = start;
        while end < v.len() && v[end] != '\n'
            invariant
                start <= end <= v.len(),
                forall|i: int| start <= i < end ==> v@[i] != '\n',
            decreases v.len() - end,
        {
            end += 1;
        }
        proof {
            lemma_first_newline(rest, end - start);
        }
        let terminated = end < v.len();
        let mut stop: usize = end;
        if terminated && stop > start && v[stop - 1] == '\r' {
            stop -= 1;
        }
        let mut line: Vec<char> = Vec::new();
        let mut i: usize = start;
        while i < stop
            invariant
                start <= i <= stop <= v.len(),
                line@ == v@.subrange(start as int, i as int),
            decreases stop - i,
        {
            line.push(v[i]);
            assert(v@.subrange(start as int, i + 1) =~= v@.subrange(start as int, i as int).push(
                v@[i as int],
            ));
            i += 1;
        }
        let ghost before = line_views(out@);
        out.push(line);
        proof {
            assert(rest.take(end - start) =~= v@.subrange(start as int, end as int));
            if terminated {
                assert(line@ =~= without_cr(rest.take(end - start)));
                assert(rest.skip(end - start + 1) =~= v@.skip(end + 1));
                assert(line_views(out@) =~= before + seq![line@]);
                assert(lines_of(rest) == seq![line@] + lines_of(v@.skip(end + 1)));
                assert(lines_of(v@) =~= line_views(out@) + lines_of(v@.skip(end + 1)));
            } else {
                assert(line@ =~= rest);
                assert(line_views(out@) =~= before + seq![line@]);
                assert(lines_of(rest) == seq![rest]);
                assert(v@.skip(v.len() as int) =~= Seq::<char>::empty());
                assert(lines_of(v@) =~= line_views(out@) + lines_of(v@.skip(v.len() as int)));
            }
        }
        if terminated {
            start = end + 1;
        } else {
            start = end;
        }
    }
    assert(v@.skip(start as int) =~= Seq::<char>::empty());
    assert(lines_of(v@) =~= line_views(out@));
    out
}

/// The characters of a string that may be absent.
pub open spec fn optional_text(text: Option<String>) -> Option<Seq<char>> {
    match text {
        Some(s) => Some(s@),
        None => None,
    }
}

/// The characters of each of `texts`.
pub open spec fn texts_of(texts: Seq<String>) -> Seq<Seq<char>> {
    Seq::new(texts.len(), |i: int| texts[i]@)
}

/// Whether `s` ends with `suffix`.
pub open spec fn ends_with(s: Seq<char>, suffix: Seq<char>) -> bool {
    suffix.len() <= s.len() && s.skip(s.len() - suffix.len()) == suffix
}

/// Whether `s` ends with `suffix`.
pub fn has_suffix(s: &str, suffix: &str) -> (r: bool)
    ensures
        r == ends_with(s@, suffix@),
{
    let a = chars_of(s);
    let b = chars_of(suffix);
    if b.len() > a.len() {
        return false;
    }
    let offset: usize = a.len() - b.len();
    let mut i: usize = 0;
    while i < b.len()
        invariant
            i <= b.len(),
            a@ == s@,
            b@ == suffix@,
            offset + b.len() == a.len(),
            forall|j: int| 0 <= j < i ==> a@[offset + j] == b@[j],
        decreases b.len() - i,
    {
        if a[offset + i] != b[i] {
            assert(a@.skip(a@.len() - b@.len())[i as int] == a@[offset + i]);
            assert(a@.skip(a@.len() - b@.len())[i as int] != b@[i as int]);
            return false;
        }
        i += 1;
    }
    assert(a@.skip(a@.len() - b@.len()) =~= b@);
    true
}

/// Whether `needle` stands in `haystack` at the place `i`.
pub open spec fn occurs_at(haystack: Seq<char>, needle: Seq<char>, i: int) -> bool {
    0 <= i && i + needle.len() <= haystack.len() && haystack.subrange(i, i + needle.len())
        == needle
}

/// Whether `needle` stands somewhere in `haystack`.
pub open spec fn contains_text(haystack: Seq<char>, needle: Seq<char>) -> bool {
    exists|i: int| occurs_at(haystack, needle, i)
}

fn matches_at(haystack: &Vec<char>, needle: &Vec<char>, at: usize) -> (r: bool)
    requires
        at + needle.len() <= haystack.len(),
    ensures
        r == occurs_at(haystack@, needle@, at as int),
{
    let mut j: usize = 0;
    while j < needle.len()
        invariant
            j <= needle.len(),
            at + needle.len() <= haystack.len(),
            forall|k: int| 0 <= k < j ==> haystack@[at + k] == needle@[k],
        decreases needle.len() - j,
    {
        if haystack[at + j] != needle[j] {
            assert(haystack@.subrange(at as int, at + needle.len())[j as int] == haystack@[at + j]);
            return false;
        }
        j += 1;
    }
    assert(haystack@.subrange(at as int, at + needle.len()) =~= needle@);
    true
}

/// Whether `needle` stands somewhere in `haystack`.
pub fn contains_chars(haystack: &Vec<char>, needle: &Vec<char>) -> (r: bool)
    ensures
        r == contains_text(haystack@, needle@),
{
    if needle.len() > haystack.len() {
        return false;
    }
    let last: usize = haystack.len() - needle.len();
    let mut i: usize = 0;
    while i < last
        invariant
            i <= last,
            last + needle.len() == haystack.len(),
            forall|k: int| 0 <= k < i ==> !occurs_at(haystack@, needle@, k),
        decreases last - i,
    {
        if matches_at(haystack, needle, i) {
            return true;
        }
        i += 1;
    }
    matches_at(haystack, needle, last)
}

/// The texts `parts` one after another, with `separator` between each two.
pub open spec fn joined(parts: Seq<Seq<char>>, separator: Seq<char>) -> Seq<char>
    decreases parts.len(),
{
    if parts.len() == 0 {
        Seq::empty()
    } else if parts.len() == 1 {
        parts[0]
    } else {
        joined(parts.drop_last(), separator) + separator + parts.last()
    }
}

/// Appends the texts `parts` to `s`, with `separator` between each two.
pub fn push_joined(s: &mut String, parts: &Vec<String>, separator: &str)
    ensures
        final(s)@ == old(s)@ + joined(texts_of(parts@), separator@),
{
    let ghost all = texts_of(parts@);
    let mut i: usize = 0;
    assert(all.take(0) =~= Seq::<Seq<char>>::empty());
    assert(s@ =~= old(s)@ + joined(all.take(0), separator@));
    while i < parts.len()
        invariant
            i <= parts.len(),
            all == texts_of(parts@),
            s@ == old(s)@ + joined(all.take(i as int), separator@),
        decreases parts.len() - i,
    {
        let ghost before = s@;
        if i > 0 {
            push_text(s, separator);
        }
        push_text(s, parts[i].as_str());
        proof {
            assert(all.take(i + 1).drop_last() =~= all.take(i as int));
            assert(all.take(i + 1).last() == parts@[i as int]@);
            if i == 0 {
                assert(all.take(1)[0] == parts@[0]@);
            }
            assert(s@ =~= old(s)@ + joined(all.take(i + 1), separator@));
        }
        i += 1;
    }
    assert(all.take(i as int) =~= all);
}

/// Appends one text to a list of texts.
pub fn push_arg(args: &mut Vec<String>, arg: String)
    ensures
        texts_of(final(args)@) == texts_of(old(args)@).push(arg@),
{
    args.push(arg);
    assert(texts_of(args@) =~= texts_of(old(args)@).push(arg@));
}

/// The text `name` followed by the text `value`.
pub fn flag_text(name: &str, value: &str) -> (s: String)
    ensures
        s@ == name@ + value@,
{
    let mut s = String::new();
    push_text(&mut s, name);
    push_text(&mut s, value);
    assert(s@ =~= name@ + value@);
    s
}

/// The text `name` followed by the decimal numeral of `n`.
pub fn flag_number(name: &str, n: usize) -> (s: String)
    ensures
        s@ == name@ + decimal(n as nat),
{
    let mut s = String::new();
    push_text(&mut s, name);
    push_decimal(&mut s, n as u64);
    assert(s@ =~= name@ + decimal(n as nat));
    s
}

/// The count `n`, or the largest count that the machine holds where `n` is
/// larger.
pub open spec fn capped(n: int) -> usize {
    if n > usize::MAX {
        usize::MAX
    } else if n < 0 {
        0
    } else {
        n as usize
    }
}

/// The sum of two counts, or the largest count where the sum is larger.
pub fn add_capped(a: usize, b: usize) -> (sum: usize)
    ensures
        sum == capped(a + b),
{
    if a > usize::MAX - b {
        usize::MAX
    } else {
        a + b
    }
}

} // verus!
