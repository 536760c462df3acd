//! Reading numbers and positions that a user typed.

use crate::text::{char_is_space, chars_of, is_space};
use vstd::prelude::*;
use vstd::string::*;

verus! {

/// The text without the white space at its start.
pub open spec fn trimmed_start(s: Seq<char>) -> Seq<char>
    decreases s.len(),
{
    if s.len() > 0 && is_space(s[0]) {
        trimmed_start(s.drop_first())
    } else {
        s
    }
}

/// The text without the white space at its end.
pub open spec fn trimmed_end(s: Seq<char>) -> Seq<char>
    decreases s.len(),
{
    if s.len() > 0 && is_space(s.last()) {
        trimmed_end(s.drop_last())
    } else {
        s
    }
}

/// The text without the white space at either end.
pub open spec fn trimmed(s: Seq<char>) -> Seq<char> {
    trimmed_end(trimmed_start(s))
}

/// A decimal digit.
pub open spec fn is_digit(c: char) -> bool {
    '0' <= c && c <= '9'
}

/// A text of decimal digits only.
pub open spec fn all_digits(s: Seq<char>) -> bool {
    forall|i: int| 0 <= i < s.len() ==> is_digit(#[trigger] s[i])
}

/// The number that a text of decimal digits writes.
pub open spec fn digits_value(s: Seq<char>) -> int
    decreases s.len(),
{
    if s.len() == 0 {
        0
    } else {
        digits_value(s.drop_last()) * 10 + (s.last() as int - 48)
    }
}

/// Whether the text starts with a sign.
pub open spec fn has_sign(s: Seq<char>) -> bool {
    s.len() > 0 && (s[0] == '-' || s[0] == '+')
}

/// The text behind its sign, where it has one.
pub open spec fn unsigned_part(s: Seq<char>) -> Seq<char> {
    if has_sign(s) {
        s.drop_first()
    } else {
        s
    }
}

/// The 32-bit integer that a text writes: an optional sign and at least
/// one decimal digit, nothing else, and a value that fits.
pub open spec fn parsed_i32(s: Seq<char>) -> Option<i32> {
    let body = unsigned_part(s);
    if body.len() == 0 || !all_digits(body) {
        None
    } else {
        let value = if s[0] == '-' {
            -digits_value(body)
        } else {
            digits_value(body)
        };
        if i32::MIN <= value <= i32::MAX {
            Some(value as i32)
        } else {
            None
        }
    }
}

/// The commas of a text.
pub open spec fn is_comma() -> spec_fn(char) -> bool {
    |c: char| c == ','
}

/// What a position text means: two integers with one comma between them,
/// each with white space around it at will.
pub open spec fn position_of(s: Seq<char>) -> Result<(i32, i32), Seq<char>> {
    if s.filter(is_comma()).len() != 1 {
        Err("Position must be in format 'x,y'"@)
    } else {
        let at = s.index_of(',');
        match parsed_i32(trimmed(s.subrange(0, at))) {
            None => Err("Invalid x coordinate"@),
            Some(x) => match parsed_i32(trimmed(s.subrange(at + 1, s.len() as int))) {
                None => Err("Invalid y coordinate"@),
                Some(y) => Ok((x, y)),
            },
        }
    }
}

/// A longer text of digits writes no smaller number.
pub proof fn lemma_digits_value_grows(s: Seq<char>, n: int)
    requires
        all_digits(s),
        0 <= n <= s.len(),
    ensures
        0 <= digits_value(s.subrange(0, n)) <= digits_value(s),
    decreases s.len() - n,
{
    if n == s.len() {
        assert(s.subrange(0, n) =~= s);
        lemma_digits_value_nonnegative(s);
    } else {
        lemma_digits_value_grows(s, n + 1);
        let longer = s.subrange(0, n + 1);
        assert(longer.drop_last() =~= s.subrange(0, n));
        assert(is_digit(s[n]));
        lemma_digits_value_nonnegative(s.subrange(0, n));
    }
}

/// A text of digits writes no negative number.
pub proof fn lemma_digits_value_nonnegative(s: Seq<char>)
    requires
        all_digits(s),
    ensures
        0 <= digits_value(s),
    decreases s.len(),
{
    if s.len() > 0 {
        assert(is_digit(s.last()));
        lemma_digits_value_nonnegative(s.drop_last());
    }
}

/// Trimming the start takes a run of white space away and stops at the
/// first character that is none.
pub proof fn lemma_trimmed_start(s: Seq<char>, a: int)
    requires
        0 <= a <= s.len(),
        forall|i: int| 0 <= i < a ==> is_space(#[trigger] s[i]),
        a < s.len() ==> !is_space(s[a]),
    ensures
        trimmed_start(s) == s.subrange(a, s.len() as int),
    decreases a,
{
    if a == 0 {
        assert(s.subrange(0, s.len() as int) =~= s);
    } else {
        assert(is_space(s[0]));
        let rest = s.drop_first();
        assert forall|i: int| 0 <= i < a - 1 implies is_space(#[trigger] rest[i]) by {
            assert(rest[i] == s[i + 1]);
        }
        lemma_trimmed_start(rest, a - 1);
        assert(rest.subrange(a - 1, rest.len() as int) =~= s.subrange(a, s.len() as int));
    }
}

/// Trimming the end takes a run of white space away and stops at the
/// last character that is none.
pub proof fn lemma_trimmed_end(s: Seq<char>, b: int)
    requires
        0 <= b <= s.len(),
        forall|i: int| b <= i < s.len() ==> is_space(#[trigger] s[i]),
        b > 0 ==> !is_space(s[b - 1]),
    ensures
        trimmed_end(s) == s.subrange(0, b),
    decreases s.len() - b,
{
    if b == s.len() {
        assert(s.subrange(0, b) =~= s);
    } else {
        assert(is_space(s.last()));
        let rest = s.drop_last();
        lemma_trimmed_end(rest, b);
        assert(rest.subrange(0, b) =~= s.subrange(0, b));
    }
}

/// The characters of `s` from `from` up to `to`, without the white space
/// at either end.
fn trim_range(s: &Vec<char>, from: usize, to: usize) -> (r: Vec<char>)
    requires
        from <= to <= s.len(),
    ensures
        r@ == trimmed(s@.subrange(from as int, to as int)),
{
    let ghost part = s@.subrange(from as int, to as int);
    let mut a: usize = from;
    while a < to && char_is_space(s[a])
        invariant
            from <= a <= to <= s.len(),
            forall|i: int| from <= i < a ==> is_space(#[trigger] s@[i]),
        decreases to - a,
    {
        a += 1;
    }
    let mut b: usize = to;
    while b > a && char_is_space(s[b - 1])
        invariant
            a <= b <= to <= s.len(),
            forall|i: int| b <= i < to ==> is_space(#[trigger] s@[i]),
        decreases b,
    {
        b -= 1;
    }
    proof {
        lemma_trimmed_start(part, a - from);
        let mid = s@.subrange(a as int, to as int);
        assert(part.subrange(a - from, part.len() as int) =~= mid);
        lemma_trimmed_end(mid, b - a);
        assert(mid.subrange(0, b - a) =~= s@.subrange(a as int, b as int));
    }
    let mut out: Vec<char> = Vec::new();
    let mut i: usize = a;
    while i < b
        invariant
            a <= i <= b <= s.len(),
            out@ == s@.subrange(a as int, i as int),
        decreases b - i,
    {
        out.push(s[i]);
        i += 1;
        assert(out@ =~= s@.subrange(a as int, i as int));
    }
    out
}

/// The characters of a text without the white space at either end.
pub fn trim_chars(s: &str) -> (r: Vec<char>)
    ensures
        r@ == trimmed(s@),
{
    let chars = chars_of(s);
    assert(chars@.subrange(0, chars.len() as int) =~= s@);
    trim_range(&chars, 0, chars.len())
}

/// Reads a 32-bit integer: an optional sign and decimal digits.
pub fn parse_i32_chars(s: &Vec<char>) -> (r: Option<i32>)
    ensures
        r == parsed_i32(s@),
{
    let n = s.len();
    let negative = n > 0 && s[0] == '-';
    let start: usize = if n > 0 && (s[0] == '-' || s[0] == '+') {
        1
    } else {
        0
    };
    let ghost body = unsigned_part(s@);
    assert(body =~= s@.subrange(start as int, n as int));
    if start == n {
        return None;
    }
    let mut acc: i64 = 0;
    let mut i: usize = start;
    while i < n
        invariant
            start <= i <= n,
            n == s.len(),
            body == s@.subrange(start as int, n as int),
            body == unsigned_part(s@),
            all_digits(body.subrange(0, i - start)),
            acc == digits_value(body.subrange(0, i - start)),
            0 <= acc <= 0x8000_0000,
        decreases n - i,
    {
        let c = s[i];
        if !('0' <= c && c <= '9') {
            assert(!is_digit(body[i - start]));
            return None;
        }
        let d: i64 = (c as u8 - 48) as i64;
        let ghost prefix = body.subrange(0, i - start + 1);
        proof {
            assert(prefix.drop_last() =~= body.subrange(0, i - start));
            assert(prefix.last() == c);
            assert forall|k: int| 0 <= k < prefix.len() implies is_digit(#[trigger] prefix[k]) by {
                if k < i - start {
                    assert(body.subrange(0, i - start)[k] == prefix[k]);
                }
            }
        }
        let next: i64 = acc * 10 + d;
        if next > 0x8000_0000 {
            proof {
                if all_digits(body) {
                    lemma_digits_value_grows(body, i - start + 1);
                }
            }
            return None;
        }
        acc = next;
        i += 1;
    }
    assert(body.subrange(0, n - start) =~= body);
    if negative {
        Some((-acc) as i32)
    } else if acc > 0x7FFF_FFFF {
        None
    } else {
        Some(acc as i32)
    }
}

/// Reads a position written as `x,y`.
pub fn parse_position(s: &str) -> (r: Result<(i32, i32), String>)
    ensures
        match position_of(s@) {
            Ok(p) => r == Ok::<(i32, i32), String>(p),
            Err(message) => r is Err && r->Err_0@ == message,
        },
{
    let chars = chars_of(s);
    let ghost commas = is_comma();
    let mut count: usize = 0;
    let mut at: usize = 0;
    let mut i: usize = 0;
    proof {
        chars@.subrange(0, 0).lemma_filter_len(commas);
    }
    while i < chars.len()
        invariant
            i <= chars.len(),
            chars@ == s@,
            commas == is_comma(),
            count == chars@.subrange(0, i as int).filter(commas).len(),
            count <= i,
            count > 0 ==> at < i && chars@[at as int] == ',' && forall|k: int|
                0 <= k < at ==> chars@[k] != ',',
            count == 0 ==> forall|k: int| 0 <= k < i ==> chars@[k] != ',',
            count == 1 ==> forall|k: int| at < k < i ==> chars@[k] != ',',
        decreases chars.len() - i,
    {
        proof {
            chars@.subrange(0, i as int).lemma_filter_push(chars@[i as int], commas);
            assert(chars@.subrange(0, i + 1) =~= chars@.subrange(0, i as int).push(chars@[i as int]));
        }
        if chars[i] == ',' {
            if count == 0 {
                at = i;
            }
            count += 1;
        }
        i += 1;
    }
    assert(chars@.subrange(0, i as int) =~= chars@);
    if count != 1 {
        return Err("Position must be in format 'x,y'".to_owned());
    }
    proof {
        assert(s@[at as int] == ',');
        let found = s@.index_of(',');
        assert(0 <= found < s@.len() && s@[found] == ',');
        assert(found == at);
    }
    let first = trim_range(&chars, 0, at);
    let second = trim_range(&chars, at + 1, chars.len());
    match parse_i32_chars(&first) {
        None => Err("Invalid x coordinate".to_owned()),
        Some(x) => match parse_i32_chars(&second) {
            None => Err("Invalid y coordinate".to_owned()),
            Some(y) => Ok((x, y)),
        },
    }
}

} // verus!
