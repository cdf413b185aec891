//! Trusted boundary to the bcrypt password-hash primitive.
//!
//! The digest a hash call returns is named, not written out: `bcrypt_verify`
//! stands for what `bcrypt::verify` answers on a cleartext and a digest, and
//! every contract about credentials speaks through that name.

use vstd::prelude::*;

verus! {

/// What `bcrypt::verify(password, digest)` answers: `Some(b)` when the digest
/// parses and verification yields `b`, `None` when `bcrypt::verify` errors.
/// Both are functions of the two arguments alone.
pub uninterp spec fn bcrypt_verify(password: Seq<char>, digest: Seq<char>) -> Option<bool>;

/// The shape of a bcrypt digest string: 60 characters, `$2`-prefixed.
pub open spec fn is_bcrypt_digest(s: Seq<char>) -> bool {
    &&& s.len() == 60
    &&& s[0] == '$'
    &&& s[1] == '2'
}

/// Relies on `bcrypt::hash`: on success the digest is a 60-character
/// `$2`-prefixed string that `bcrypt::verify` accepts against the cleartext
/// it was computed from, and a cost outside 4 through 31 is always refused.
/// The salt is drawn fresh, so nothing more is promised of the digest's value.
#[verifier::external_body]
pub(crate) fn hash_password(password: &str, cost: u32) -> (r: Option<String>)
    ensures
        r matches Some(digest) ==> {
            &&& is_bcrypt_digest(digest@)
            &&& bcrypt_verify(password@, digest@) == Some(true)
        },
        !(4 <= cost <= 31) ==> r is None,
{
    bcrypt::hash(password, cost).ok()
}

/// Relies on `bcrypt::verify`: deterministic in both arguments; the answer
/// is exactly what the name `bcrypt_verify` stands for.
#[verifier::external_body]
pub(crate) fn verify_password(password: &str, digest: &str) -> (r: Option<bool>)
    ensures
        r == bcrypt_verify(password@, digest@),
{
    match bcrypt::verify(password, digest) {
        Ok(b) => Some(b),
        Err(_) => None,
    }
}

} // verus!
