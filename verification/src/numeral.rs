//! Reading integers from their decimal numerals, as a trace writes them.
use crate::text::chars_of;
use crate::value::ItfValue;
use crate::value::ItfView;
use vstd::prelude::*;

verus! {

/// The value of a decimal digit; `None` for any other character.
pub open spec fn digit_value(c: char) -> Option<nat> {
    if c == '0' {
        Some(0)
    } else if c == '1' {
        Some(1)
    } else if c == '2' {
        Some(2)
    } else if c == '3' {
        Some(3)
    } else if c == '4' {
        Some(4)
    } else if c == '5' {
        Some(5)
    } else if c == '6' {
        Some(6)
    } else if c == '7' {
        Some(7)
    } else if c == '8' {
        Some(8)
    } else if c == '9' {
        Some(9)
    } else {
        None
    }
}

/// The number that a sequence of decimal digits stands for; `None` where
/// the sequence is empty or holds anything but digits.
pub open spec fn numeral_value(s: Seq<char>) -> Option<nat>
    decreases s.len(),
{
    if s.len() == 0 {
        None
    } else {
        match digit_value(s.last()) {
            None => None,
            Some(d) => if s.len() == 1 {
                Some(d)
            } else {
                match numeral_value(s.drop_last()) {
                    None => None,
                    Some(v) => Some(v * 10 + d),
                }
            },
        }
    }
}

/// The integer that a numeral stands for: decimal digits, after `-` for a
/// negative one.
pub open spec fn int_of_text(s: Seq<char>) -> Option<int> {
    if s.len() > 0 && s[0] == '-' {
        match numeral_value(s.skip(1)) {
            Some(v) => Some(-(v as int)),
            None => None,
        }
    } else {
        match numeral_value(s) {
            Some(v) => Some(v as int),
            None => None,
        }
    }
}

/// The integer that a numeral stands for, where it fits into 64 bits.
pub open spec fn i64_of_text(s: Seq<char>) -> Option<i64> {
    match int_of_text(s) {
        Some(v) => if i64::MIN <= v <= i64::MAX {
            Some(v as i64)
        } else {
            None
        },
        None => None,
    }
}

/// A numeral is worth no less than any of its beginnings, and a numeral
/// with a beginning that is none is none.
pub proof fn lemma_numeral_grows(s: Seq<char>, k: int)
    requires
        0 < k <= s.len(),
    ensures
        numeral_value(s.take(k)) is None ==> numeral_value(s) is None,
        numeral_value(s) is Some ==> numeral_value(s.take(k))->Some_0 <= numeral_value(s)->Some_0,
    decreases s.len() - k,
{
    if k == s.len() {
        assert(s.take(k) =~= s);
    } else {
        lemma_numeral_grows(s.drop_last(), k);
        assert(s.drop_last().take(k) =~= s.take(k));
    }
}

fn digit_of_char(c: char) -> (r: Option<u64>)
    ensures
        match r {
            Some(d) => d <= 9 && digit_value(c) == Some(d as nat),
            None => digit_value(c) is None,
        },
{
    if c == '0' {
        Some(0)
    } else if c == '1' {
        Some(1)
    } else if c == '2' {
        Some(2)
    } else if c == '3' {
        Some(3)
    } else if c == '4' {
        Some(4)
    } else if c == '5' {
        Some(5)
    } else if c == '6' {
        Some(6)
    } else if c == '7' {
        Some(7)
    } else if c == '8' {
        Some(8)
    } else if c == '9' {
        Some(9)
    } else {
        None
    }
}

/// The magnitude of the largest negative integer of 64 bits.
pub const MAGNITUDE_LIMIT: u64 = 9223372036854775808;

/// Reads the digits of `chars` from `start` on. `None` where they are no
/// numeral, and where the numeral is worth more than any integer of 64 bits
/// in magnitude.
fn parse_magnitude(chars: &Vec<char>, start: usize) -> (r: Option<u64>)
    requires
        start <= chars.len(),
    ensures
        match r {
            Some(v) => v <= MAGNITUDE_LIMIT && numeral_value(chars@.skip(start as int)) == Some(
                v as nat,
            ),
            None => match numeral_value(chars@.skip(start as int)) {
                Some(v) => v > MAGNITUDE_LIMIT,
                None => true,
            },
        },
{
    let ghost digits = chars@.skip(start as int);
    if start == chars.len() {
        return None;
    }
    let mut value: u64 = 0;
    let mut i: usize = start;
    while i < chars.len()
        invariant
            start <= i <= chars.len(),
            start < chars.len(),
            digits == chars@.skip(start as int),
            value <= MAGNITUDE_LIMIT,
            i == start ==> value == 0,
            i > start ==> numeral_value(digits.take(i - start)) == Some(value as nat),
        decreases chars.len() - i,
    {
        let ghost before = digits.take(i - start);
        let ghost now = digits.take(i + 1 - start);
        proof {
            assert(now.last() == chars@[i as int]);
            assert(now.drop_last() =~= before);
            lemma_numeral_grows(digits, i + 1 - start);
        }
        let d = match digit_of_char(chars[i]) {
            Some(d) => d,
            None => {
                return None;
            },
        };
        if value > (MAGNITUDE_LIMIT - d) / 10 {
            assert(numeral_value(now) is Some ==> numeral_value(now)->Some_0 > MAGNITUDE_LIMIT);
            return None;
        }
        value = value * 10 + d;
        i += 1;
    }
    assert(digits.take(i - start) =~= digits);
    Some(value)
}

/// Reads an integer of 64 bits from its decimal numeral.
pub fn parse_i64(text: &str) -> (r: Option<i64>)
    ensures
        r == i64_of_text(text@),
{
    let chars = chars_of(text);
    if chars.len() > 0 && chars[0] == '-' {
        match parse_magnitude(&chars, 1) {
            Some(v) => {
                if v == MAGNITUDE_LIMIT {
                    Some(i64::MIN)
                } else {
                    Some(-(v as i64))
                }
            },
            None => None,
        }
    } else {
        assert(chars@.skip(0) =~= chars@);
        match parse_magnitude(&chars, 0) {
            Some(v) => {
                if v < MAGNITUDE_LIMIT {
                    Some(v as i64)
                } else {
                    None
                }
            },
            None => None,
        }
    }
}

/// The integer of 64 bits that a value holds: a number itself, and a big
/// integer that fits.
pub open spec fn i64_of_value(value: ItfView) -> Option<i64> {
    match value {
        ItfView::Number(n) => Some(n),
        ItfView::BigInt(numeral) => i64_of_text(numeral),
        _ => None,
    }
}

impl ItfValue {
    /// Reads the value as an integer of 64 bits. `None` for a big integer
    /// that does not fit, and for a value that is no integer.
    pub fn as_i64(&self) -> (r: Option<i64>)
        ensures
            r == i64_of_value(self@),
    {
        match self {
            ItfValue::Number(n) => Some(*n),
            ItfValue::BigInt(numeral) => parse_i64(numeral.as_str()),
            _ => None,
        }
    }
}

} // verus!
