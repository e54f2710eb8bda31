//! Generation of fresh opaque identifiers (account ids and session tokens).

use vstd::prelude::*;

verus! {

/// Relies on `uuid::Uuid::new_v4` and its `Display` impl: a freshly drawn
/// random version-4 UUID, rendered in the hyphenated form of 36 characters.
/// The value is random, so nothing is promised beyond its length.
#[verifier::external_body]
pub(crate) fn fresh_id() -> (r: String)
    ensures
        r@.len() == 36,
{
    uuid::Uuid::new_v4().to_string()
}

} // verus!
