//! The authenticator: store lookup result plus password, to an identity.
//!
//! The store lookup itself is the caller's: it resolves the username to an
//! optional record and hands the result in.  Everything decided here — and
//! in particular that a missing user and a wrong password are one and the
//! same error — is verified.

use vstd::prelude::*;

use crate::errors::CredentialError;
use crate::user::User;

verus! {

/// Whether this lookup result and password authenticate: the user must
/// exist and the password must match its stored hash.
pub open spec fn spec_authenticated(user: Option<User>, password: Seq<u8>) -> bool {
    match user {
        Some(u) => u.spec_password_accepted(password),
        None => false,
    }
}

/// Decide authentication for a username lookup result and a password.
///
/// A lookup miss and a password mismatch return the very same
/// `InvalidCredentials`, so the two are indistinguishable to the caller.
pub fn authenticate(user: Option<User>, password: &Vec<u8>) -> (r: Result<
    User,
    CredentialError,
>)
    ensures
        match r {
            Ok(u) => spec_authenticated(user, password@) && user == Some(u),
            Err(e) => e == CredentialError::InvalidCredentials && !spec_authenticated(
                user,
                password@,
            ),
        },
{
    match user {
        Some(u) => {
            if u.verify_password(password) {
                Ok(u)
            } else {
                Err(CredentialError::InvalidCredentials)
            }
        },
        None => Err(CredentialError::InvalidCredentials),
    }
}

} // verus!
