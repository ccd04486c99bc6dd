//! Fresh identifiers.
use vstd::prelude::*;

verus! {

/// `uuid::Uuid::new_v4` in its hyphenated form. Chance decides which, so only
/// the length is claimed. It panics where the system gives no randomness.
#[verifier::external_body]
pub(crate) fn fresh_id() -> (r: String)
    ensures
        r@.len() == 36,
{
    uuid::Uuid::new_v4().to_string()
}

} // verus!
