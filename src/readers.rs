use vstd::prelude::*;
use crate::decimal::{digit_value, is_digit};

verus! {

/// Whether `c` has Unicode's White_Space property, as `char::is_whitespace` reports it.
pub uninterp spec fn is_white_space(c: char) -> bool;

/// Relies on `char::is_whitespace`: whether `c` has the White_Space property.
#[verifier::external_body]
fn white_space(c: char) -> (r: bool)
    ensures
        r == is_white_space(c),
{
    c.is_whitespace()
}

/// `s` without its leading white space.
pub open spec fn trim_start(s: Seq<char>) -> Seq<char>
    decreases s.len(),
{
    if s.len() > 0 && is_white_space(s[0]) {
        trim_start(s.drop_first())
    } else {
        s
    }
}

/// `s` without its trailing white space.
pub open spec fn trim_end(s: Seq<char>) -> Seq<char>
    decreases s.len(),
{
    if s.len() > 0 && is_white_space(s.last()) {
        trim_end(s.drop_last())
    } else {
        s
    }
}

/// `s` without its leading and trailing white space.
pub open spec fn trimmed(s: Seq<char>) -> Seq<char> {
    trim_end(trim_start(s))
}

/// Whether every character of `s` is an ASCII digit.
pub open spec fn all_digits(s: Seq<char>) -> bool {
    forall|i: int| 0 <= i < s.len() ==> is_digit(#[trigger] s[i])
}

/// The value of the decimal digits `s`, most significant first.
pub open spec fn digits_value(s: Seq<char>) -> nat
    decreases s.len(),
{
    if s.len() == 0 {
        0
    } else {
        digits_value(s.drop_last()) * 10 + digit_value(s.last())
    }
}

/// The value of a non-empty run of decimal digits, if `s` is one.
pub open spec fn parse_digits(s: Seq<char>) -> Option<nat> {
    if s.len() > 0 && all_digits(s) {
        Some(digits_value(s))
    } else {
        None
    }
}

/// The value of `s` read as an unsigned decimal integer: an optional `+`
/// followed by one or more ASCII digits.
pub open spec fn parse_unsigned(s: Seq<char>) -> Option<nat> {
    if s.len() > 0 && s[0] == '+' {
        parse_digits(s.drop_first())
    } else {
        parse_digits(s)
    }
}

/// The value of `s` read as a signed decimal integer: an optional `+` or
/// `-` followed by one or more ASCII digits.
pub open spec fn parse_signed(s: Seq<char>) -> Option<int> {
    if s.len() > 0 && s[0] == '-' {
        match parse_digits(s.drop_first()) {
            Some(v) => Some(-v),
            None => None,
        }
    } else {
        match parse_unsigned(s) {
            Some(v) => Some(v as int),
            None => None,
        }
    }
}

/// A longer run of digits is worth at least as much as its prefix.
proof fn lemma_digits_value_prefix(s: Seq<char>, i: int)
    requires
        0 <= i <= s.len(),
    ensures
        digits_value(s.take(i)) <= digits_value(s),
    decreases s.len() - i,
{
    if i < s.len() {
        lemma_digits_value_prefix(s, i + 1);
        assert(s.take(i + 1).drop_last() =~= s.take(i));
    } else {
        assert(s.take(i) =~= s);
    }
}

/// The value of the digits of `s` from `start` on, where they form a
/// non-empty run of ASCII digits worth at most `limit`.
fn digits_from(s: &str, start: usize, limit: u64) -> (r: Option<u64>)
    requires
        start <= s@.len(),
    ensures
        r == match parse_digits(s@.skip(start as int)) {
            Some(v) => if v <= limit {
                Some(v as u64)
            } else {
                None::<u64>
            },
            None => None,
        },
{
    let ghost t = s@.skip(start as int);
    let len = s.unicode_len();
    if start == len {
        return None;
    }
    let mut acc: u64 = 0;
    let mut i: usize = start;
    while i < len
        invariant
            start <= i <= len,
            len == s@.len(),
            t == s@.skip(start as int),
            acc <= limit,
            acc as nat == digits_value(t.take(i - start)),
            all_digits(t.take(i - start)),
        decreases len - i,
    {
        let c = s.get_char(i);
        assert(t[i - start] == c);
        if !('0' <= c && c <= '9') {
            assert(!all_digits(t));
            return None;
        }
        let d = (c as u32 - 48) as u64;
        assert(t.take(i - start + 1).drop_last() =~= t.take(i - start));
        assert(t.take(i - start + 1).last() == c);
        let next = (acc as u128) * 10 + (d as u128);
        if next > limit as u128 {
            proof {
                lemma_digits_value_prefix(t, i - start + 1);
            }
            assert(all_digits(t) ==> digits_value(t) > limit);
            return None;
        }
        acc = next as u64;
        i = i + 1;
        assert(all_digits(t.take(i - start))) by {
            assert forall|j: int| 0 <= j < t.take(i - start).len() implies is_digit(
                #[trigger] t.take(i - start)[j],
            ) by {
                if j < i - start - 1 {
                    assert(t.take(i - start)[j] == t.take(i - start - 1)[j]);
                }
            }
        }
    }
    assert(t.take(i - start) =~= t);
    Some(acc)
}

/// Leading white space ends where the first other character stands.
proof fn lemma_trim_start_step(s: Seq<char>, i: int)
    requires
        0 <= i < s.len(),
        is_white_space(s[i]),
    ensures
        trim_start(s.skip(i)) == trim_start(s.skip(i + 1)),
{
    assert(s.skip(i).drop_first() =~= s.skip(i + 1));
}

/// Trailing white space begins after the last other character.
proof fn lemma_trim_end_step(s: Seq<char>, j: int)
    requires
        0 < j <= s.len(),
        is_white_space(s[j - 1]),
    ensures
        trim_end(s.take(j)) == trim_end(s.take(j - 1)),
{
    assert(s.take(j).drop_last() =~= s.take(j - 1));
}

/// The text of `s` between its leading and its trailing white space.
fn trim(s: &str) -> (r: &str)
    ensures
        r@ == trimmed(s@),
{
    let len = s.unicode_len();
    let mut start: usize = 0;
    assert(s@.skip(0) =~= s@);
    while start < len && white_space(s.get_char(start))
        invariant
            start <= len,
            len == s@.len(),
            trim_start(s@.skip(start as int)) == trim_start(s@),
        decreases len - start,
    {
        proof {
            lemma_trim_start_step(s@, start as int);
        }
        start = start + 1;
    }
    let ghost rest = s@.skip(start as int);
    assert(rest == trim_start(s@)) by {
        assert(s@.skip(0) =~= s@);
        if start < len {
            assert(rest[0] == s@[start as int]);
        }
    }
    let mut end: usize = len;
    assert(rest.take(len - start) =~= rest);
    while end > start && white_space(s.get_char(end - 1))
        invariant
            start <= end <= len,
            len == s@.len(),
            rest == s@.skip(start as int),
            trim_end(rest.take(end - start)) == trim_end(rest),
        decreases end,
    {
        proof {
            assert(rest[end - start - 1] == s@[end - 1]);
            lemma_trim_end_step(rest, end - start);
        }
        end = end - 1;
    }
    let r = s.substring_char(start, end);
    assert(r@ =~= rest.take(end - start));
    assert(trim_end(rest.take(end - start)) == rest.take(end - start)) by {
        if end > start {
            assert(rest.take(end - start).last() == s@[end - 1]);
        }
    }
    r
}

/// What went wrong with a typed answer.
#[derive(Clone, Copy, Debug, PartialEq, Eq, Structural)]
pub enum InputError {
    /// The answer is not a number of the expected kind, or does not fit it.
    NotANumber,
    /// A count of significant figures of zero.
    NoSignificantFigures,
}

/// The signed integer that the answer `s` holds, between its white space.
pub open spec fn i32_answer(s: Seq<char>) -> Result<i32, InputError> {
    match parse_signed(trimmed(s)) {
        Some(v) => if i32::MIN <= v <= i32::MAX {
            Ok(v as i32)
        } else {
            Err(InputError::NotANumber)
        },
        None => Err(InputError::NotANumber),
    }
}

/// The unsigned integer that the answer `s` holds, between its white space.
pub open spec fn usize_answer(s: Seq<char>) -> Result<usize, InputError> {
    match parse_unsigned(trimmed(s)) {
        Some(v) => if v <= usize::MAX {
            Ok(v as usize)
        } else {
            Err(InputError::NotANumber)
        },
        None => Err(InputError::NotANumber),
    }
}

/// The typed answer `input` without its leading and trailing white space.
pub fn read_string(input: &str) -> (r: String)
    ensures
        r@ == trimmed(input@),
{
    trim(input).to_owned()
}

/// The signed integer typed as `input`: an optional sign and decimal digits,
/// between white space, that fit an `i32`.
pub fn read_i32(input: &str) -> (r: Result<i32, InputError>)
    ensures
        r == i32_answer(input@),
{
    let t = trim(input);
    let len = t.unicode_len();
    if len > 0 && t.get_char(0) == '-' {
        assert(t@.skip(1) =~= t@.drop_first());
        match digits_from(t, 1, 0x8000_0000) {
            Some(v) => Ok((0 - (v as i64)) as i32),
            None => Err(InputError::NotANumber),
        }
    } else {
        let start: usize = if len > 0 && t.get_char(0) == '+' {
            1
        } else {
            0
        };
        assert(t@.skip(1) =~= t@.drop_first());
        assert(t@.skip(0) =~= t@);
        match digits_from(t, start, 0x7fff_ffff) {
            Some(v) => Ok(v as i32),
            None => Err(InputError::NotANumber),
        }
    }
}

/// The unsigned integer typed as `input`: an optional `+` and decimal
/// digits, between white space, that fit a `usize`.
pub fn read_usize(input: &str) -> (r: Result<usize, InputError>)
    ensures
        r == usize_answer(input@),
{
    let t = trim(input);
    let len = t.unicode_len();
    let start: usize = if len > 0 && t.get_char(0) == '+' {
        1
    } else {
        0
    };
    assert(t@.skip(1) =~= t@.drop_first());
    assert(t@.skip(0) =~= t@);
    match digits_from(t, start, usize::MAX as u64) {
        Some(v) => Ok(v as usize),
        None => Err(InputError::NotANumber),
    }
}

/// The display precision for a count of significant figures typed as
/// `input`: digits after the point in scientific notation, one less than
/// the count. A count of zero gives no precision.
pub fn prompt_sigfigs(input: &str) -> (r: Result<usize, InputError>)
    ensures
        r == match usize_answer(input@) {
            Ok(k) => if k == 0 {
                Err(InputError::NoSignificantFigures)
            } else {
                Ok((k - 1) as usize)
            },
            Err(e) => Err(e),
        },
{
    match read_usize(input) {
        Ok(k) => if k == 0 {
            Err(InputError::NoSignificantFigures)
        } else {
            Ok(k - 1)
        },
        Err(e) => Err(e),
    }
}

} // verus!
