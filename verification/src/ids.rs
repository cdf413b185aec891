//! Trusted source of fresh 128-bit identifiers.

use vstd::prelude::*;

verus! {

/// Relies on `uuid::Uuid::new_v4`: a freshly drawn random identifier whose
/// version nibble is 4. Freshness is not promised — the store checks the
/// value against its rows.
#[verifier::external_body]
pub(crate) fn fresh_id() -> (r: u128)
    ensures
        (r >> 76) & 0xf == 4,
{
    uuid::Uuid::new_v4().as_u128()
}

} // verus!
