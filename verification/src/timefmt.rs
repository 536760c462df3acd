//! Timestamps as the platform sends them, shortened for display.

use crate::text::opt_text;
use vstd::prelude::*;

verus! {

/// The display form of an RFC 3339 timestamp: what
/// `chrono::DateTime::parse_from_rfc3339` reads from the text, formatted
/// with `%Y-%m-%d %H:%M` in the offset the text itself gives; `None` where
/// the text is no such timestamp.
pub uninterp spec fn rfc3339_minutes(timestamp: Seq<char>) -> Option<Seq<char>>;

/// Parses the text with `chrono::DateTime::parse_from_rfc3339` and, where
/// that succeeds, formats the result with `DateTime::format` and the
/// pattern `%Y-%m-%d %H:%M`. Both depend on the text alone: the offset is
/// the one written in it.
#[verifier::external_body]
pub(crate) fn format_rfc3339(timestamp: &str) -> (r: Option<String>)
    ensures
        opt_text(r) == rfc3339_minutes(timestamp@),
{
    chrono::DateTime::parse_from_rfc3339(timestamp)
        .ok()
        .map(|dt| dt.format("%Y-%m-%d %H:%M").to_string())
}

} // verus!
