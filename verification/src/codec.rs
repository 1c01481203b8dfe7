//! The token codec: issue and verify signed claims tokens.
//!
//! A token is `base64url(header) "." base64url(claims) "." signature`, where
//! the header is the fixed text for the HMAC-SHA-512 algorithm, the claims
//! are the JSON object of [`crate::jsonenc`], and the signature is the
//! HMAC-SHA-512 tag of everything before the second dot, in base64url.  The
//! framing — splitting, header comparison, claims parsing, expiry — is
//! verified; only the base64 alphabet and the MAC itself are taken from
//! outside crates, behind named, trusted wrappers.

use vstd::prelude::*;
use vstd::utf8::{decode_utf8, encode_utf8, valid_utf8};

use crate::bytesutil::{
    bytes_eq, find_byte, lemma_ascii_bytes_valid_utf8, lemma_find_byte_found,
    lemma_find_byte_none, spec_find_byte, subvec,
};
use crate::errors::TokenError;
use crate::jsonenc::{
    parse_claims, spec_claims_json, spec_parse_claims, write_claims,
};

verus! {

/// What `base64::encode_config` with the url-safe, unpadded alphabet
/// returns for the given bytes.
pub uninterp spec fn b64url_of(bytes: Seq<u8>) -> Seq<u8>;

/// What `base64::decode_config` with the url-safe, unpadded alphabet
/// returns for the given bytes: the decoded payload, or nothing when the
/// input is not acceptable base64.
pub uninterp spec fn b64url_decoded(bytes: Seq<u8>) -> Option<Seq<u8>>;

/// What `jsonwebtoken::crypto::sign` returns with the HMAC-SHA-512
/// algorithm: the base64url text of the tag over `message` under `secret`.
pub uninterp spec fn hs512_sig(secret: Seq<u8>, message: Seq<u8>) -> Seq<u8>;

/// Relies on `base64::encode_config` with `URL_SAFE_NO_PAD`: the encoding
/// of the payload, over the 64-character url-safe alphabet (ASCII letters,
/// digits, `-` and `_` — never a dot), and `decode_config` inverts it.
#[verifier::external_body]
fn b64url_encode(v: &Vec<u8>) -> (r: Vec<u8>)
    ensures
        r@ == b64url_of(v@),
        b64url_decoded(r@) == Some(v@),
        forall|i: int| 0 <= i < r@.len() ==> #[trigger] r@[i] < 128 && r@[i] != 46,
{
    base64::encode_config(v.as_slice(), base64::URL_SAFE_NO_PAD).into_bytes()
}

/// Relies on `base64::decode_config` with `URL_SAFE_NO_PAD`: the decoded
/// payload on acceptable input, an error otherwise.
#[verifier::external_body]
fn b64url_decode(v: &Vec<u8>) -> (r: Option<Vec<u8>>)
    ensures
        r is Some <==> b64url_decoded(v@) is Some,
        r matches Some(w) ==> b64url_decoded(v@) == Some(w@),
{
    base64::decode_config(v.as_slice(), base64::URL_SAFE_NO_PAD).ok()
}

/// Relies on `jsonwebtoken::crypto::sign` with `Algorithm::HS512`, which
/// for HMAC never fails and returns the tag in base64url (so ASCII, and
/// never containing a dot).
#[verifier::external_body]
fn hs512_sign(secret: &Vec<u8>, message: &Vec<u8>) -> (r: Vec<u8>)
    ensures
        r@ == hs512_sig(secret@, message@),
        forall|i: int| 0 <= i < r@.len() ==> #[trigger] r@[i] < 128 && r@[i] != 46,
{
    jsonwebtoken::crypto::sign(
        message.as_slice(),
        &jsonwebtoken::EncodingKey::from_secret(secret.as_slice()),
        jsonwebtoken::Algorithm::HS512,
    ).unwrap_or_default().into_bytes()
}

/// Relies on `jsonwebtoken::crypto::verify` with `Algorithm::HS512`, which
/// re-signs the message and compares the presented signature text with the
/// computed one in constant time.
#[verifier::external_body]
fn hs512_check(signature: &Vec<u8>, message: &Vec<u8>, secret: &Vec<u8>) -> (r: bool)
    ensures
        r == (signature@ == hs512_sig(secret@, message@)),
{
    match std::str::from_utf8(signature.as_slice()) {
        Ok(sig) => jsonwebtoken::crypto::verify(
            sig,
            message.as_slice(),
            &jsonwebtoken::DecodingKey::from_secret(secret.as_slice()),
            jsonwebtoken::Algorithm::HS512,
        ).unwrap_or(false),
        Err(_) => false,
    }
}

/// Relies on `String::from_utf8`: succeeds exactly on valid UTF-8 and
/// yields the decoded characters.
#[verifier::external_body]
pub(crate) fn bytes_to_string(v: Vec<u8>) -> (r: Option<String>)
    ensures
        r is Some <==> valid_utf8(v@),
        r matches Some(s) ==> s@ == decode_utf8(v@),
{
    String::from_utf8(v).ok()
}

/// Claims carried inside a signed token: the subject (the authenticated
/// user's identifier) and the expiry instant in epoch milliseconds.  The
/// token is valid strictly before `exp`.
#[derive(Clone, Debug)]
pub struct Jwt {
    /// Subject: the identifier of the user the token was issued to.
    pub sub: String,
    /// Expiry instant, milliseconds since the Unix epoch; the token is
    /// valid only while `exp` lies strictly in the future.
    pub exp: u64,
}

/// The fixed token header `{"typ":"JWT","alg":"HS512"}` as bytes.
pub open spec fn spec_header_json() -> Seq<u8> {
    seq![
        123u8, 34u8, 116u8, 121u8, 112u8, 34u8, 58u8, 34u8, 74u8, 87u8, 84u8, 34u8, 44u8, 34u8,
        97u8, 108u8, 103u8, 34u8, 58u8, 34u8, 72u8, 83u8, 53u8, 49u8, 50u8, 34u8, 125u8,
    ]
}

fn header_json() -> (r: Vec<u8>)
    ensures
        r@ == spec_header_json(),
{
    let mut v: Vec<u8> = Vec::new();
    v.push(123);
    v.push(34);
    v.push(116);
    v.push(121);
    v.push(112);
    v.push(34);
    v.push(58);
    v.push(34);
    v.push(74);
    v.push(87);
    v.push(84);
    v.push(34);
    v.push(44);
    v.push(34);
    v.push(97);
    v.push(108);
    v.push(103);
    v.push(34);
    v.push(58);
    v.push(34);
    v.push(72);
    v.push(83);
    v.push(53);
    v.push(49);
    v.push(50);
    v.push(34);
    v.push(125);
    proof {
        assert(v@ =~= spec_header_json());
    }
    v
}

/// The three dot-separated segments of a token, provided it has exactly
/// two dots.
pub open spec fn spec_token_split(t: Seq<u8>) -> Option<(Seq<u8>, Seq<u8>, Seq<u8>)> {
    match spec_find_byte(t, 46u8, 0) {
        None => None,
        Some(d1) => match spec_find_byte(t, 46u8, d1 + 1) {
            None => None,
            Some(d2) => if spec_find_byte(t, 46u8, d2 + 1) is Some {
                None
            } else {
                Some(
                    (
                        t.subrange(0, d1),
                        t.subrange(d1 + 1, d2),
                        t.subrange(d2 + 1, t.len() as int),
                    ),
                )
            },
        },
    }
}

/// The part of the token that is signed: encoded header, dot, encoded
/// claims.
pub open spec fn spec_signing_input(sub: Seq<u8>, exp: u64) -> Seq<u8> {
    b64url_of(spec_header_json()) + seq![46u8] + b64url_of(spec_claims_json(sub, exp))
}

/// The full token issued for this subject and expiry under this secret.
pub open spec fn spec_token_bytes(secret: Seq<u8>, sub: Seq<u8>, exp: u64) -> Seq<u8> {
    spec_signing_input(sub, exp) + seq![46u8] + hs512_sig(secret, spec_signing_input(sub, exp))
}

/// What verification accepts: the subject bytes and expiry of `t`, if `t`
/// splits into three segments, carries the fixed header, its signature
/// matches under `secret`, and its claims parse.
pub open spec fn spec_token_accept(secret: Seq<u8>, t: Seq<u8>) -> Option<(Seq<u8>, u64)> {
    match spec_token_split(t) {
        None => None,
        Some((h, c, g)) => if h != b64url_of(spec_header_json()) {
            None
        } else if g != hs512_sig(secret, h + seq![46u8] + c) {
            None
        } else {
            match b64url_decoded(c) {
                None => None,
                Some(cb) => spec_parse_claims(cb),
            }
        },
    }
}

/// Issue the token for `sub` expiring at the instant `exp`, signed with
/// `secret`.
///
/// The second clause is the issue/verify round trip: the token this
/// function returns is exactly what [`verify_token`] accepts, and it
/// carries this subject and this expiry.
pub fn issue_at(secret: &Vec<u8>, sub: &str, exp: u64) -> (r: String)
    ensures
        encode_utf8(r@) == spec_token_bytes(secret@, encode_utf8(sub@), exp),
        spec_token_accept(secret@, encode_utf8(r@)) == Some((encode_utf8(sub@), exp)),
{
    let sb = vstd::string::StrSliceExecFns::as_bytes_vec(sub);
    let cb = write_claims(&sb, exp);
    let hj = header_json();
    let h = b64url_encode(&hj);
    let c = b64url_encode(&cb);
    let ghost hseq = h@;
    let ghost cseq = c@;
    let mut msg = h;
    msg.push(46);
    let mut ctail = c;
    msg.append(&mut ctail);
    proof {
        assert(msg@ =~= hseq + seq![46u8] + cseq);
    }
    let g = hs512_sign(secret, &msg);
    let ghost gseq = g@;
    let ghost msgseq = msg@;
    let mut t = msg;
    t.push(46);
    let mut gtail = g;
    t.append(&mut gtail);
    proof {
        assert(t@ =~= msgseq + seq![46u8] + gseq);
        lemma_token_shape(t@, hseq, cseq, gseq, secret@, sb@, exp, cb@);
    }
    let ghost tseq = t@;
    match bytes_to_string(t) {
        Some(s) => {
            proof {
                vstd::utf8::decode_utf8_encode_utf8(tseq);
            }
            s
        },
        None => {
            // The token bytes are all ASCII, so the conversion cannot fail.
            proof {
                assert(false);
            }
            String::new()
        },
    }
}

/// The assembled token splits back into its three segments, is accepted,
/// and is valid UTF-8.
proof fn lemma_token_shape(
    t: Seq<u8>,
    h: Seq<u8>,
    c: Seq<u8>,
    g: Seq<u8>,
    secret: Seq<u8>,
    sub: Seq<u8>,
    exp: u64,
    cb: Seq<u8>,
)
    requires
        t == h + seq![46u8] + c + seq![46u8] + g,
        h == b64url_of(spec_header_json()),
        c == b64url_of(cb),
        cb == spec_claims_json(sub, exp),
        g == hs512_sig(secret, h + seq![46u8] + c),
        b64url_decoded(c) == Some(cb),
        forall|i: int| 0 <= i < h.len() ==> #[trigger] h[i] < 128 && h[i] != 46,
        forall|i: int| 0 <= i < c.len() ==> #[trigger] c[i] < 128 && c[i] != 46,
        forall|i: int| 0 <= i < g.len() ==> #[trigger] g[i] < 128 && g[i] != 46,
    ensures
        spec_token_accept(secret, t) == Some((sub, exp)),
        t == spec_token_bytes(secret, sub, exp),
        valid_utf8(t),
{
    let d1 = h.len() as int;
    let d2 = h.len() + 1 + c.len() as int;
    assert(t[d1] == 46);
    assert(t[d2] == 46);
    assert(forall|i: int| 0 <= i < d1 ==> t[i] == h[i] && t[i] != 46);
    assert(forall|i: int| d1 < i < d2 ==> t[i] == c[i - d1 - 1] && t[i] != 46);
    assert(forall|i: int| d2 < i < t.len() ==> t[i] == g[i - d2 - 1] && t[i] != 46);
    lemma_find_byte_found(t, 46u8, 0, d1);
    lemma_find_byte_found(t, 46u8, d1 + 1, d2);
    lemma_find_byte_none(t, 46u8, d2 + 1);
    assert(t.subrange(0, d1) =~= h);
    assert(t.subrange(d1 + 1, d2) =~= c);
    assert(t.subrange(d2 + 1, t.len() as int) =~= g);
    assert(spec_token_split(t) == Some((h, c, g)));
    assert(t.subrange(0, d2) =~= h + seq![46u8] + c);
    crate::jsonenc::lemma_claims_round_trip(sub, exp);
    assert(spec_token_accept(secret, t) == Some((sub, exp)));
    assert(t =~= spec_token_bytes(secret, sub, exp));
    assert(forall|i: int| 0 <= i < t.len() ==> #[trigger] t[i] < 128);
    lemma_ascii_bytes_valid_utf8(t);
}

/// Validate a presented token against the secret at the instant `now_ms`.
///
/// The contract is exact: `Malformed` exactly when the token is not (up to
/// the redundant digit forms the claims parser also accepts) a token this
/// codec signs under `secret`; `Expired` exactly when it is but its expiry
/// is not strictly in the future; otherwise the embedded claims come back.
pub fn verify_token_bytes(secret: &Vec<u8>, tb: &Vec<u8>, now_ms: u64) -> (r: Result<
    Jwt,
    TokenError,
>)
    ensures
        match spec_token_accept(secret@, tb@) {
            None => r == Err::<Jwt, TokenError>(TokenError::Malformed),
            Some(p) => if !valid_utf8(p.0) {
                r == Err::<Jwt, TokenError>(TokenError::Malformed)
            } else if p.1 <= now_ms {
                r == Err::<Jwt, TokenError>(TokenError::Expired)
            } else {
                r matches Ok(claims) && claims.sub@ == decode_utf8(p.0) && claims.exp == p.1
            },
        },
{
    let n = tb.len();
    proof {
        assert(tb@.len() == n);
    }
    let d1 = match find_byte(tb, 46, 0) {
        None => { return Err(TokenError::Malformed); },
        Some(k) => k,
    };
    let d2 = match find_byte(tb, 46, d1 + 1) {
        None => { return Err(TokenError::Malformed); },
        Some(k) => k,
    };
    match find_byte(tb, 46, d2 + 1) {
        Some(_) => { return Err(TokenError::Malformed); },
        None => {},
    };
    let h = subvec(tb, 0, d1);
    let c = subvec(tb, d1 + 1, d2);
    let g = subvec(tb, d2 + 1, tb.len());
    let hj = header_json();
    let hexpected = b64url_encode(&hj);
    if !bytes_eq(&h, &hexpected) {
        return Err(TokenError::Malformed);
    }
    let msg = subvec(tb, 0, d2);
    proof {
        assert(msg@ =~= h@ + seq![46u8] + c@);
    }
    if !hs512_check(&g, &msg, secret) {
        return Err(TokenError::Malformed);
    }
    let cb = match b64url_decode(&c) {
        None => { return Err(TokenError::Malformed); },
        Some(v) => v,
    };
    let parsed = match parse_claims(&cb) {
        None => { return Err(TokenError::Malformed); },
        Some(p) => p,
    };
    let sub = match bytes_to_string(parsed.0) {
        None => { return Err(TokenError::Malformed); },
        Some(s) => s,
    };
    if parsed.1 <= now_ms {
        return Err(TokenError::Expired);
    }
    Ok(Jwt { sub, exp: parsed.1 })
}

/// Validate a presented token text against the secret at the instant
/// `now_ms`; see [`verify_token_bytes`] for the exact contract over the
/// token's bytes.
pub fn verify_token(secret: &Vec<u8>, token: &str, now_ms: u64) -> (r: Result<Jwt, TokenError>)
    ensures
        ({
            let tb = encode_utf8(token@);
            match spec_token_accept(secret@, tb) {
                None => r == Err::<Jwt, TokenError>(TokenError::Malformed),
                Some(p) => if !valid_utf8(p.0) {
                    r == Err::<Jwt, TokenError>(TokenError::Malformed)
                } else if p.1 <= now_ms {
                    r == Err::<Jwt, TokenError>(TokenError::Expired)
                } else {
                    r matches Ok(claims) && claims.sub@ == decode_utf8(p.0) && claims.exp == p.1
                },
            }
        }),
{
    let tb = vstd::string::StrSliceExecFns::as_bytes_vec(token);
    verify_token_bytes(secret, &tb, now_ms)
}

} // verus!
