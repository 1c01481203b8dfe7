//! The token codec: issue, verify, expiry, tampering.

use jwt_auth::codec::{issue_at, verify_token};
use jwt_auth::config::{create_token, expiry_instant, parse_u64, resolved_hours, AuthConfig};
use jwt_auth::clock::timestamp_u64;
use jwt_auth::errors::{ConfigError, TokenError};

fn secret() -> Vec<u8> {
    b"a-test-signing-secret".to_vec()
}

#[test]
fn issue_then_verify_returns_the_subject() {
    let s = secret();
    let t = issue_at(&s, "user-42", 10_000);
    let claims = verify_token(&s, t.as_str(), 9_999).expect("fresh token must verify");
    assert_eq!(claims.sub.as_str(), "user-42");
    assert_eq!(claims.exp, 10_000);
}

#[test]
fn issued_token_expiry_lies_in_the_future() {
    let s = secret();
    let cfg = AuthConfig::new(s.clone(), None, false).unwrap();
    let now = timestamp_u64();
    let t = create_token(&cfg, "user-42");
    assert!(!t.is_empty());
    let claims = verify_token(&s, t.as_str(), now).expect("fresh token must verify");
    assert_eq!(claims.sub.as_str(), "user-42");
    assert!(claims.exp > now);
}

#[test]
fn header_segment_is_the_fixed_hs512_header() {
    let s = secret();
    let t = issue_at(&s, "user-42", 10_000);
    let first = t.split('.').next().unwrap();
    assert_eq!(first, "eyJ0eXAiOiJKV1QiLCJhbGciOiJIUzUxMiJ9");
}

#[test]
fn signature_segment_matches_the_real_signer() {
    let s = secret();
    let t = issue_at(&s, "user-42", 10_000);
    let parts: Vec<&str> = t.split('.').collect();
    assert_eq!(parts.len(), 3);
    let message = format!("{}.{}", parts[0], parts[1]);
    let key = jsonwebtoken::EncodingKey::from_secret(&s);
    let sig = jsonwebtoken::crypto::sign(
        message.as_bytes(),
        &key,
        jsonwebtoken::Algorithm::HS512,
    )
    .unwrap();
    assert_eq!(parts[2], sig.as_str());
}

#[test]
fn expiry_is_strict_at_the_boundary() {
    let s = secret();
    let t = issue_at(&s, "user-42", 5_000);
    assert_eq!(verify_token(&s, t.as_str(), 4_999).unwrap().exp, 5_000);
    assert_eq!(verify_token(&s, t.as_str(), 5_000).unwrap_err(), TokenError::Expired);
    assert_eq!(verify_token(&s, t.as_str(), 5_001).unwrap_err(), TokenError::Expired);
}

#[test]
fn a_different_secret_yields_malformed() {
    let t = issue_at(&secret(), "user-42", 10_000);
    let other = b"another-secret-entirely".to_vec();
    assert_eq!(verify_token(&other, t.as_str(), 0).unwrap_err(), TokenError::Malformed);
}

#[test]
fn a_flipped_signature_bit_yields_malformed() {
    let s = secret();
    let t = issue_at(&s, "user-42", 10_000);
    // Swap the last signature character for a different alphabet character.
    let mut flipped: Vec<char> = t.chars().collect();
    let last = *flipped.last().unwrap();
    *flipped.last_mut().unwrap() = if last == 'A' { 'B' } else { 'A' };
    let forged: String = flipped.into_iter().collect();
    assert_ne!(forged, t);
    assert_eq!(verify_token(&s, forged.as_str(), 0).unwrap_err(), TokenError::Malformed);
}

#[test]
fn a_tampered_claims_segment_yields_malformed() {
    let s = secret();
    let t1 = issue_at(&s, "user-42", 10_000);
    let t2 = issue_at(&s, "user-43", 10_000);
    let p1: Vec<&str> = t1.split('.').collect();
    let p2: Vec<&str> = t2.split('.').collect();
    // Claims of one token with the signature of the other.
    let spliced = format!("{}.{}.{}", p1[0], p2[1], p1[2]);
    assert_eq!(verify_token(&s, spliced.as_str(), 0).unwrap_err(), TokenError::Malformed);
}

#[test]
fn structurally_broken_tokens_yield_malformed() {
    let s = secret();
    for bad in ["", "abc", "a.b", "a.b.c", "a.b.c.d", "..", "eyJ0.eyJz."] {
        assert_eq!(verify_token(&s, bad, 0).unwrap_err(), TokenError::Malformed);
    }
}

#[test]
fn subject_with_quote_and_backslash_round_trips() {
    let s = secret();
    let odd = "a\"b\\c";
    let t = issue_at(&s, odd, 10_000);
    let claims = verify_token(&s, t.as_str(), 0).unwrap();
    assert_eq!(claims.sub.as_str(), odd);
}

#[test]
fn subject_with_non_ascii_text_round_trips() {
    let s = secret();
    let odd = "usu\u{e9}-42\u{1f511}";
    let t = issue_at(&s, odd, 10_000);
    let claims = verify_token(&s, t.as_str(), 0).unwrap();
    assert_eq!(claims.sub.as_str(), odd);
}

#[test]
fn config_refuses_an_empty_secret() {
    assert_eq!(
        AuthConfig::new(Vec::new(), None, false).unwrap_err(),
        ConfigError::MissingSecret
    );
}

#[test]
fn expiry_hours_floor_and_default() {
    assert_eq!(resolved_hours(Some(0)), resolved_hours(Some(1)));
    assert_eq!(resolved_hours(Some(0)), 1);
    assert_eq!(resolved_hours(None), 24);
    assert_eq!(resolved_hours(Some(7)), 7);
    assert_eq!(expiry_instant(1_000, 0), expiry_instant(1_000, 0));
    assert_eq!(expiry_instant(1_000, 1), 1_000 + 3_600_000);
    assert_eq!(expiry_instant(1_000, 24), 1_000 + 24 * 3_600_000);
    assert_eq!(expiry_instant(u64::MAX - 5, 1), u64::MAX);
}

#[test]
fn parse_u64_reads_exactly_plain_decimals() {
    assert_eq!(parse_u64("24"), Some(24));
    assert_eq!(parse_u64("0"), Some(0));
    assert_eq!(parse_u64("007"), Some(7));
    assert_eq!(parse_u64("18446744073709551615"), Some(u64::MAX));
    assert_eq!(parse_u64("18446744073709551616"), None);
    assert_eq!(parse_u64(""), None);
    assert_eq!(parse_u64("12x"), None);
    assert_eq!(parse_u64("-3"), None);
    assert_eq!(parse_u64(" 3"), None);
}

#[test]
fn independently_signed_token_with_wellformed_claims_is_accepted() {
    let s = secret();
    let claims = base64::encode_config("{\"sub\":\"bob\",\"exp\":42}", base64::URL_SAFE_NO_PAD);
    let message = format!("eyJ0eXAiOiJKV1QiLCJhbGciOiJIUzUxMiJ9.{}", claims);
    let key = jsonwebtoken::EncodingKey::from_secret(&s);
    let sig = jsonwebtoken::crypto::sign(
        message.as_bytes(),
        &key,
        jsonwebtoken::Algorithm::HS512,
    )
    .unwrap();
    let token = format!("{}.{}", message, sig);
    let got = verify_token(&s, token.as_str(), 41).unwrap();
    assert_eq!(got.sub.as_str(), "bob");
    assert_eq!(got.exp, 42);
    assert_eq!(verify_token(&s, token.as_str(), 42).unwrap_err(), TokenError::Expired);
}

#[test]
fn signed_token_with_broken_claims_is_malformed() {
    let s = secret();
    let key = jsonwebtoken::EncodingKey::from_secret(&s);
    for bad_claims in ["{}", "{\"sub\":\"bob\"}", "{\"exp\":42}", "not json"] {
        let claims = base64::encode_config(bad_claims, base64::URL_SAFE_NO_PAD);
        let message = format!("eyJ0eXAiOiJKV1QiLCJhbGciOiJIUzUxMiJ9.{}", claims);
        let sig = jsonwebtoken::crypto::sign(
            message.as_bytes(),
            &key,
            jsonwebtoken::Algorithm::HS512,
        )
        .unwrap();
        let token = format!("{}.{}", message, sig);
        assert_eq!(
            verify_token(&s, token.as_str(), 0).unwrap_err(),
            TokenError::Malformed,
            "claims {bad_claims:?}"
        );
    }
}

#[test]
fn claims_wire_form_is_exact() {
    let sub = b"alice".to_vec();
    let c = jwt_auth::jsonenc::write_claims(&sub, 123);
    assert_eq!(c, b"{\"sub\":\"alice\",\"exp\":123}".to_vec());
    let (back_sub, back_exp) = jwt_auth::jsonenc::parse_claims(&c).unwrap();
    assert_eq!(back_sub, sub);
    assert_eq!(back_exp, 123);
}

#[test]
fn claims_parser_rejects_broken_objects() {
    for bad in [
        &b""[..],
        &b"{}"[..],
        &b"{\"sub\":\"a\",\"exp\":}"[..],
        &b"{\"sub\":\"a\",\"exp\":12"[..],
        &b"{\"sub\":\"a\"}"[..],
        &b"{\"sub\":\"a\",\"exp\":99999999999999999999999}"[..],
    ] {
        assert!(jwt_auth::jsonenc::parse_claims(&bad.to_vec()).is_none());
    }
}
