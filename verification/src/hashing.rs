//! Password hashing: salted, adaptive one-way hashes with a fixed work
//! factor, and constant-effort verification.
//!
//! The hash text embeds its own salt, so verification needs no side
//! channel.  A malformed stored hash behaves as a wrong password — it is
//! reported as a mismatch, never raised — so a corrupt record cannot be
//! told apart from bad credentials.

use vstd::prelude::*;

verus! {

/// The fixed work factor for new password hashes.
pub const HASH_COST: u32 = 12;

/// What `bcrypt::verify` says of a password against a stored hash text.
/// The verdict is a function of the two arguments alone: the salt and the
/// cost are read back out of the hash text.
pub uninterp spec fn bcrypt_matches(password: Seq<u8>, hash_text: Seq<char>) -> bool;

/// Relies on `bcrypt::hash`: on success the output is a 60-character hash
/// text that `bcrypt::verify` accepts for exactly this password; it fails
/// only when the cost lies outside the allowed range or OS randomness is
/// unavailable.
#[verifier::external_body]
fn bcrypt_hash(password: &Vec<u8>, cost: u32) -> (r: Option<String>)
    ensures
        r matches Some(h) ==> bcrypt_matches(password@, h@) && h@.len() == 60,
{
    bcrypt::hash(password.as_slice(), cost).ok()
}

/// Relies on `bcrypt::verify`: recompute from the salt and cost embedded
/// in the hash text and compare in constant time; a hash text that is not
/// exactly 60 ASCII characters opening with `$` is rejected as a mismatch,
/// never an exception.
#[verifier::external_body]
fn bcrypt_check(password: &Vec<u8>, hash_text: &str) -> (r: bool)
    ensures
        r == bcrypt_matches(password@, hash_text@),
        hash_text@.len() != 60 ==> r == false,
        hash_text@.len() > 0 && hash_text@[0] != '$' ==> r == false,
{
    bcrypt::verify(password.as_slice(), hash_text).unwrap_or(false)
}

/// Hash a password with the fixed work factor.  `None` only when the
/// platform could not produce salt material.
pub fn hash_password(password: &Vec<u8>) -> (r: Option<String>)
    ensures
        r matches Some(h) ==> bcrypt_matches(password@, h@) && h@.len() == 60,
{
    bcrypt_hash(password, HASH_COST)
}

/// Check a password against a stored hash text.  Never raises: a hash
/// text of the wrong shape simply does not match.
pub fn check_password(password: &Vec<u8>, hash_text: &str) -> (r: bool)
    ensures
        r == bcrypt_matches(password@, hash_text@),
        hash_text@.len() != 60 ==> r == false,
        hash_text@.len() > 0 && hash_text@[0] != '$' ==> r == false,
{
    bcrypt_check(password, hash_text)
}

} // verus!
