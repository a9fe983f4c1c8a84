//! Identities of callers and accounts.
use vstd::prelude::*;

verus! {

/// `candid::Principal` is carried through the library as an opaque identity:
/// records store it and hand it back, and nothing here looks inside it.
#[verifier::external_type_specification]
#[verifier::external_body]
pub struct ExPrincipal(candid::Principal);

} // verus!
