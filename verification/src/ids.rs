//! Generation of opaque record identifiers.

use vstd::prelude::*;

verus! {

/// Relies on uuid::Uuid::new_v4 and its Display form: a random version-4
/// identifier rendered as 36 hyphenated lower-case hexadecimal characters.
/// The value is random, so nothing beyond its shape is promised.
#[verifier::external_body]
pub fn fresh_id() -> (r: String)
    ensures
        r@.len() == 36,
{
    uuid::Uuid::new_v4().to_string()
}

} // verus!
