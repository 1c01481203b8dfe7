//! The token gate: the per-request authorization decision.
//!
//! One inbound `Authorization` header value (or its absence) is read into
//! a decision: no header rejects with a missing-credential error; a
//! `Bearer` credential goes to the token codec; a `Basic` credential —
//! only when that mode is enabled — decodes to a username/password pair
//! that the caller resolves against the store and hands to
//! [`basic_login`].  Everything decided here is stateless across requests.

use vstd::prelude::*;
use vstd::utf8::{decode_utf8, encode_utf8, valid_utf8};

use crate::authn::{authenticate, spec_authenticated};
use crate::bytesutil::{
    bytes_eq, find_byte, spec_find_byte, spec_trim, subvec, trim_bytes,
};
use crate::codec::{bytes_to_string, spec_token_accept, verify_token_bytes, Jwt};
use crate::config::AuthConfig;
use crate::errors::{CredentialError, TokenError};
use crate::user::User;

verus! {

/// What `base64::decode` (standard alphabet, padded) returns for the given
/// bytes: the decoded payload, or nothing when the input is not acceptable
/// base64.
pub uninterp spec fn b64std_decoded(bytes: Seq<u8>) -> Option<Seq<u8>>;

/// Relies on `base64::decode`: standard-alphabet, padded base64 decoding;
/// the decoded payload on acceptable input, an error otherwise.
#[verifier::external_body]
fn b64std_decode(v: &Vec<u8>) -> (r: Option<Vec<u8>>)
    ensures
        r is Some <==> b64std_decoded(v@) is Some,
        r matches Some(w) ==> b64std_decoded(v@) == Some(w@),
{
    base64::decode(v.as_slice()).ok()
}

/// The decision the request gate reaches for one request.
pub enum AuthDecision {
    /// A bearer token verified; its claims are the request's identity.
    Verified(Jwt),
    /// The request is refused with this error.
    Rejected(TokenError),
    /// A well-formed Basic credential was presented while Basic mode is
    /// enabled: the caller must look the username up and decide with
    /// [`basic_login`].
    BasicCandidate {
        /// The username before the first colon of the decoded payload.
        username: String,
        /// The password after the first colon; it may itself contain
        /// colons.
        password: Vec<u8>,
    },
}

/// The scheme word `Bearer`.
pub open spec fn spec_bearer_scheme() -> Seq<u8> {
    seq![66u8, 101u8, 97u8, 114u8, 101u8, 114u8]
}

/// The scheme word `Basic`.
pub open spec fn spec_basic_scheme() -> Seq<u8> {
    seq![66u8, 97u8, 115u8, 105u8, 99u8]
}

/// The scheme and trimmed credential of a header value: the part before
/// the first space, and the rest with surrounding ASCII whitespace
/// removed.  Nothing when the header has no space at all.
pub open spec fn spec_split_credential(hb: Seq<u8>) -> Option<(Seq<u8>, Seq<u8>)> {
    match spec_find_byte(hb, 32u8, 0) {
        None => None,
        Some(sp) => Some(
            (hb.subrange(0, sp), spec_trim(hb.subrange(sp + 1, hb.len() as int))),
        ),
    }
}

/// What the request gate decides for a Basic credential payload (after base64
/// decoding): the payload must be valid UTF-8 and contain a colon; the
/// username is everything before the first colon, the password everything
/// after it.
pub open spec fn spec_basic_split(payload: Seq<u8>) -> Option<(Seq<char>, Seq<u8>)> {
    if !valid_utf8(payload) {
        None
    } else {
        match spec_find_byte(payload, 58u8, 0) {
            None => None,
            Some(ci) => Some(
                (
                    decode_utf8(payload.subrange(0, ci)),
                    payload.subrange(ci + 1, payload.len() as int),
                ),
            ),
        }
    }
}

fn bearer_scheme() -> (r: Vec<u8>)
    ensures
        r@ == spec_bearer_scheme(),
{
    let mut v: Vec<u8> = Vec::new();
    v.push(66);
    v.push(101);
    v.push(97);
    v.push(114);
    v.push(101);
    v.push(114);
    proof {
        assert(v@ =~= spec_bearer_scheme());
    }
    v
}

fn basic_scheme() -> (r: Vec<u8>)
    ensures
        r@ == spec_basic_scheme(),
{
    let mut v: Vec<u8> = Vec::new();
    v.push(66);
    v.push(97);
    v.push(115);
    v.push(105);
    v.push(99);
    proof {
        assert(v@ =~= spec_basic_scheme());
    }
    v
}

/// Decide one request from its `Authorization` header value.
///
/// The contract walks the same states the request gate does: absent header,
/// unsplittable or empty credential, `Bearer` (handed to the codec, whose
/// verdict maps onto the decision), `Basic` (only when enabled: decoded
/// and split into a candidate for [`basic_login`]), and any other scheme
/// rejected.
pub fn authorize_header(cfg: &AuthConfig, header: Option<&str>, now_ms: u64) -> (r: AuthDecision)
    ensures
        ({
            match header {
                None => r == AuthDecision::Rejected(TokenError::MissingCredential),
                Some(h) => {
                    let hb = encode_utf8(h@);
                    match spec_split_credential(hb) {
                        None => r == AuthDecision::Rejected(TokenError::Malformed),
                        Some((scheme, tok)) => if tok.len() == 0 {
                            r == AuthDecision::Rejected(TokenError::Malformed)
                        } else if scheme == spec_bearer_scheme() {
                            match spec_token_accept(cfg.spec_secret(), tok) {
                                None => r == AuthDecision::Rejected(TokenError::Malformed),
                                Some(p) => if !valid_utf8(p.0) {
                                    r == AuthDecision::Rejected(TokenError::Malformed)
                                } else if p.1 <= now_ms {
                                    r == AuthDecision::Rejected(TokenError::Expired)
                                } else {
                                    r matches AuthDecision::Verified(claims) && claims.sub@
                                        == decode_utf8(p.0) && claims.exp == p.1
                                },
                            }
                        } else if scheme == spec_basic_scheme() {
                            if !cfg.spec_basic_enabled() {
                                r == AuthDecision::Rejected(TokenError::Malformed)
                            } else {
                                match b64std_decoded(tok) {
                                    None => r == AuthDecision::Rejected(TokenError::Malformed),
                                    Some(payload) => match spec_basic_split(payload) {
                                        None => r == AuthDecision::Rejected(
                                            TokenError::Malformed,
                                        ),
                                        Some(q) => r matches AuthDecision::BasicCandidate {
                                            username,
                                            password,
                                        } && username@ == q.0 && password@ == q.1,
                                    },
                                }
                            }
                        } else {
                            r == AuthDecision::Rejected(TokenError::Malformed)
                        },
                    }
                },
            }
        }),
{
    let h = match header {
        None => { return AuthDecision::Rejected(TokenError::MissingCredential); },
        Some(h) => h,
    };
    let hb = vstd::string::StrSliceExecFns::as_bytes_vec(h);
    let hn = hb.len();
    let sp = match find_byte(&hb, 32, 0) {
        None => { return AuthDecision::Rejected(TokenError::Malformed); },
        Some(k) => k,
    };
    let scheme = subvec(&hb, 0, sp);
    let rest = subvec(&hb, sp + 1, hn);
    let tok = trim_bytes(&rest);
    if tok.len() == 0 {
        return AuthDecision::Rejected(TokenError::Malformed);
    }
    let bearer = bearer_scheme();
    let basic = basic_scheme();
    if bytes_eq(&scheme, &bearer) {
        match verify_token_bytes(cfg.secret_ref(), &tok, now_ms) {
            Ok(claims) => AuthDecision::Verified(claims),
            Err(e) => AuthDecision::Rejected(e),
        }
    } else if bytes_eq(&scheme, &basic) {
        if !cfg.basic_enabled() {
            return AuthDecision::Rejected(TokenError::Malformed);
        }
        let payload = match b64std_decode(&tok) {
            None => { return AuthDecision::Rejected(TokenError::Malformed); },
            Some(p) => p,
        };
        let pn = payload.len();
        let whole = subvec(&payload, 0, pn);
        proof {
            assert(whole@ =~= payload@);
        }
        match bytes_to_string(whole) {
            None => { return AuthDecision::Rejected(TokenError::Malformed); },
            Some(_) => {},
        };
        let ci = match find_byte(&payload, 58, 0) {
            None => { return AuthDecision::Rejected(TokenError::Malformed); },
            Some(k) => k,
        };
        let ub = subvec(&payload, 0, ci);
        let pb = subvec(&payload, ci + 1, pn);
        proof {
            vstd::utf8::is_char_boundary_iff_not_is_continuation_byte(payload@, ci as int);
            vstd::utf8::valid_utf8_split(payload@, ci as int);
        }
        match bytes_to_string(ub) {
            Some(username) => AuthDecision::BasicCandidate { username, password: pb },
            None => {
                // The payload is valid UTF-8 and the colon is a character
                // boundary, so the username part cannot fail to convert.
                proof {
                    assert(false);
                }
                AuthDecision::Rejected(TokenError::Malformed)
            },
        }
    } else {
        AuthDecision::Rejected(TokenError::Malformed)
    }
}

/// Decide a Basic-credential request from the store's lookup result and
/// the presented password.
///
/// On success the identity is a claims object with the user's identifier
/// as subject and no real expiry: it serves this one request and is never
/// re-encoded into a shareable token.  A lookup miss and a password
/// mismatch return the very same error.
pub fn basic_login(user: Option<User>, password: &Vec<u8>) -> (r: Result<Jwt, CredentialError>)
    ensures
        match r {
            Ok(claims) => spec_authenticated(user, password@) && (user matches Some(u)
                && claims.sub@ == u.spec_id()) && claims.exp == u64::MAX,
            Err(e) => e == CredentialError::InvalidCredentials && !spec_authenticated(
                user,
                password@,
            ),
        },
{
    match authenticate(user, password) {
        Ok(u) => {
            let sub = u.id_ref().clone();
            Ok(Jwt { sub, exp: u64::MAX })
        },
        Err(e) => Err(e),
    }
}

} // verus!
