//! Fresh identifiers.

use vstd::prelude::*;

verus! {

/// Number of characters of a UUID in its hyphenated form.
pub const UUID_TEXT_LEN: usize = 36;

/// Draws a random UUID with `uuid::Uuid::new_v4` and writes it with
/// `to_string`, which gives the hyphenated form in lower case. Which
/// identifier comes out is chance; its length is not.
#[verifier::external_body]
pub(crate) fn random_uuid() -> (id: String)
    ensures
        id@.len() == UUID_TEXT_LEN,
{
    uuid::Uuid::new_v4().to_string()
}

} // verus!
