//! Small helpers for showing values in a table.

use crate::text::opt_text;
use crate::timefmt::{format_rfc3339, rfc3339_minutes};
use vstd::prelude::*;
use vstd::string::*;
use vstd::utf8::*;

verus! {

/// Where a text that is too long is cut: three bytes before the limit, to
/// leave room for the dots.
pub open spec fn cut_point(max_len: int) -> int {
    if max_len >= 3 {
        max_len - 3
    } else {
        0
    }
}

/// The text shortened to `max_len` bytes: itself where it fits, else its
/// first bytes up to the cut point and three dots.
pub open spec fn truncated(s: Seq<char>, max_len: int) -> Seq<char> {
    let bytes = encode_utf8(s);
    if bytes.len() <= max_len {
        s
    } else {
        decode_utf8(bytes.subrange(0, cut_point(max_len))) + "..."@
    }
}

/// Whether `s` can be shortened to `max_len` bytes: it fits, or the cut
/// does not fall inside a character.
pub open spec fn can_truncate(s: Seq<char>, max_len: int) -> bool {
    encode_utf8(s).len() > max_len ==> is_char_boundary(encode_utf8(s), cut_point(max_len))
}

/// What is shown for a timestamp: its display form, or the text as it
/// came where it is no timestamp.
pub open spec fn shown_timestamp(formatted: Option<Seq<char>>, raw: Seq<char>) -> Seq<char> {
    match formatted {
        Some(t) => t,
        None => raw,
    }
}

/// Shortens a text to `max_len` bytes, with three dots where something
/// was cut. The cut must not fall inside a character.
pub fn truncate(s: &str, max_len: usize) -> (r: String)
    requires
        can_truncate(s@, max_len as int),
    ensures
        r@ == truncated(s@, max_len as int),
{
    proof {
        encode_utf8_valid_utf8(s@);
    }
    if s.as_bytes().len() <= max_len {
        s.to_owned()
    } else {
        let cut: usize = if max_len >= 3 {
            max_len - 3
        } else {
            0
        };
        let (head, _tail) = s.split_at(cut);
        proof {
            encode_utf8_decode_utf8(head@);
            assert(head.spec_bytes() == s.spec_bytes().subrange(0, cut as int));
            assert(head@ == decode_utf8(encode_utf8(s@).subrange(0, cut_point(max_len as int))));
        }
        head.to_owned().concat("...")
    }
}

/// Whether [`truncate`] can shorten `s` to `max_len` bytes.
pub fn fits_truncate(s: &str, max_len: usize) -> (r: bool)
    ensures
        r == can_truncate(s@, max_len as int),
{
    proof {
        encode_utf8_valid_utf8(s@);
    }
    if s.as_bytes().len() <= max_len {
        true
    } else {
        let cut: usize = if max_len >= 3 {
            max_len - 3
        } else {
            0
        };
        s.is_char_boundary(cut)
    }
}

/// Shortens a text to `max_len` bytes where that can be done, and says
/// where it cannot.
pub fn try_truncate(s: &str, max_len: usize) -> (r: Option<String>)
    ensures
        match r {
            Some(t) => can_truncate(s@, max_len as int) && t@ == truncated(s@, max_len as int),
            None => !can_truncate(s@, max_len as int),
        },
{
    if fits_truncate(s, max_len) {
        Some(truncate(s, max_len))
    } else {
        None
    }
}

/// What is shown for a timestamp, given its display form where it has one.
pub fn timestamp_or_raw(formatted: Option<String>, raw: &str) -> (r: String)
    ensures
        r@ == shown_timestamp(opt_text(formatted), raw@),
{
    match formatted {
        Some(t) => t,
        None => raw.to_owned(),
    }
}

/// A timestamp for display: date, hour and minute where the text is an
/// RFC 3339 timestamp, else the text unchanged.
pub fn format_timestamp_str(timestamp: &str) -> (r: String)
    ensures
        r@ == shown_timestamp(rfc3339_minutes(timestamp@), timestamp@),
{
    timestamp_or_raw(format_rfc3339(timestamp), timestamp)
}

} // verus!
