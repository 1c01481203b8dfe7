//! The error taxonomy of the authentication core.

use vstd::prelude::*;

verus! {

/// Why a presented token (or the request that carried it) was refused.
#[derive(Clone, Copy, Debug, PartialEq, Eq, Structural)]
pub enum TokenError {
    /// The token is structurally invalid or its signature does not match.
    Malformed,
    /// The signature is valid but the expiry instant has passed.
    Expired,
    /// The request carried no authorization credential at all.
    MissingCredential,
}

/// Why a username/password pair was refused.  A lookup miss and a password
/// mismatch are merged on purpose: the two must be indistinguishable to the
/// caller, so that the response does not reveal whether a username exists.
#[derive(Clone, Copy, Debug, PartialEq, Eq, Structural)]
pub enum CredentialError {
    /// The username is unknown or the password does not match.
    InvalidCredentials,
}

/// A configuration fault that must stop the process before it serves.
#[derive(Clone, Copy, Debug, PartialEq, Eq, Structural)]
pub enum ConfigError {
    /// No signing-secret material was provided.
    MissingSecret,
}

impl TokenError {
    /// The fixed message the request boundary surfaces for this rejection.
    pub fn message(&self) -> (r: &'static str)
        ensures
            *self == TokenError::Malformed ==> r@ == "Invalid token!"@,
            *self == TokenError::Expired ==> r@ == "Expired token!"@,
            *self == TokenError::MissingCredential ==> r@ == "Missing token!"@,
    {
        match self {
            TokenError::Malformed => "Invalid token!",
            TokenError::Expired => "Expired token!",
            TokenError::MissingCredential => "Missing token!",
        }
    }
}

} // verus!
