//! The request gate, the Basic fallback, the envelope, and the helpers.

use jwt_auth::bool_ext::BoolExt;
use jwt_auth::clock::{timestamp_u128, timestamp_u64, DurationMillis, TimestampExt};
use jwt_auth::codec::issue_at;
use jwt_auth::config::AuthConfig;
use jwt_auth::errors::TokenError;
use jwt_auth::gate::{authorize_header, basic_login, AuthDecision};
use jwt_auth::status::ApiStatus;
use jwt_auth::user::User;

fn cfg(basic: bool) -> AuthConfig {
    AuthConfig::new(b"a-test-signing-secret".to_vec(), None, basic).unwrap()
}

fn alice() -> User {
    let mut u = User::from_parts("id-alice".to_string(), "alice".to_string(), None);
    assert!(u.set_password(&b"correct".to_vec()));
    u
}

#[test]
fn missing_header_is_rejected_as_missing() {
    let d = authorize_header(&cfg(false), None, 0);
    assert!(matches!(d, AuthDecision::Rejected(TokenError::MissingCredential)));
}

#[test]
fn missing_header_envelope_is_exact() {
    let d = authorize_header(&cfg(false), None, 0);
    let e = match d {
        AuthDecision::Rejected(e) => e,
        _ => panic!("expected a rejection"),
    };
    let body = ApiStatus::error(e.message().to_string()).to_json();
    assert_eq!(body.as_str(), "{\"ok\":false,\"error\":\"Missing token!\"}");
}

#[test]
fn valid_bearer_token_is_verified() {
    let c = cfg(false);
    let t = issue_at(&b"a-test-signing-secret".to_vec(), "id-alice", 10_000);
    let header = format!("Bearer {}", t);
    let d = authorize_header(&c, Some(header.as_str()), 9_000);
    match d {
        AuthDecision::Verified(claims) => {
            assert_eq!(claims.sub.as_str(), "id-alice");
            assert_eq!(claims.exp, 10_000);
        },
        _ => panic!("expected a verified decision"),
    }
}

#[test]
fn bearer_token_survives_extra_whitespace() {
    let c = cfg(false);
    let t = issue_at(&b"a-test-signing-secret".to_vec(), "id-alice", 10_000);
    let header = format!("Bearer   {}  ", t);
    let d = authorize_header(&c, Some(header.as_str()), 9_000);
    assert!(matches!(d, AuthDecision::Verified(_)));
}

#[test]
fn expired_bearer_token_is_rejected_as_expired() {
    let c = cfg(false);
    let t = issue_at(&b"a-test-signing-secret".to_vec(), "id-alice", 5_000);
    let header = format!("Bearer {}", t);
    let d = authorize_header(&c, Some(header.as_str()), 5_000);
    match d {
        AuthDecision::Rejected(e) => assert_eq!(e, TokenError::Expired),
        _ => panic!("expected a rejection"),
    }
}

#[test]
fn garbage_and_unknown_schemes_are_rejected_as_invalid() {
    let c = cfg(false);
    for h in ["Bearer", "Bearer ", "Bearer junk", "Token abc", " Bearer x", "x"] {
        let d = authorize_header(&c, Some(h), 0);
        match d {
            AuthDecision::Rejected(e) => assert_eq!(e, TokenError::Malformed, "header {h:?}"),
            _ => panic!("expected a rejection for header {h:?}"),
        }
    }
}

#[test]
fn basic_credentials_pass_when_enabled() {
    let c = cfg(true);
    let header = format!("Basic {}", base64::encode("alice:correct"));
    let d = authorize_header(&c, Some(header.as_str()), 0);
    match d {
        AuthDecision::BasicCandidate { username, password } => {
            assert_eq!(username.as_str(), "alice");
            assert_eq!(password, b"correct".to_vec());
            let claims = basic_login(Some(alice()), &password).expect("must log in");
            assert_eq!(claims.sub.as_str(), "id-alice");
            assert_eq!(claims.exp, u64::MAX);
        },
        _ => panic!("expected a basic candidate"),
    }
}

#[test]
fn basic_password_may_contain_colons() {
    let c = cfg(true);
    let header = format!("Basic {}", base64::encode("alice:pa:ss"));
    let d = authorize_header(&c, Some(header.as_str()), 0);
    match d {
        AuthDecision::BasicCandidate { username, password } => {
            assert_eq!(username.as_str(), "alice");
            assert_eq!(password, b"pa:ss".to_vec());
        },
        _ => panic!("expected a basic candidate"),
    }
}

#[test]
fn basic_credentials_are_rejected_when_disabled() {
    let c = cfg(false);
    let header = format!("Basic {}", base64::encode("alice:correct"));
    let d = authorize_header(&c, Some(header.as_str()), 0);
    assert!(matches!(d, AuthDecision::Rejected(TokenError::Malformed)));
}

#[test]
fn broken_basic_payloads_are_rejected() {
    let c = cfg(true);
    // Not base64 at all; no colon; invalid UTF-8.
    let bad_utf8 = base64::encode([0xffu8, 0xfe, b':', b'x']);
    for h in [
        "Basic !!!not-base64!!!".to_string(),
        format!("Basic {}", base64::encode("no-colon-here")),
        format!("Basic {}", bad_utf8),
    ] {
        let d = authorize_header(&c, Some(h.as_str()), 0);
        assert!(
            matches!(d, AuthDecision::Rejected(TokenError::Malformed)),
            "header {h:?}"
        );
    }
}

#[test]
fn basic_login_fails_on_wrong_password_or_missing_user() {
    assert!(basic_login(Some(alice()), &b"wrong".to_vec()).is_err());
    assert!(basic_login(None, &b"correct".to_vec()).is_err());
}

#[test]
fn status_envelope_shapes() {
    assert_eq!(ApiStatus::ok().to_json().as_str(), "{\"ok\":true}");
    assert!(ApiStatus::ok().is_ok());
    let e = ApiStatus::error("Not Found".to_string());
    assert!(!e.is_ok());
    assert_eq!(e.to_json().as_str(), "{\"ok\":false,\"error\":\"Not Found\"}");
}

#[test]
fn status_envelope_escapes_quotes_and_backslashes() {
    let e = ApiStatus::error("a\"b\\c".to_string());
    assert_eq!(e.to_json().as_str(), "{\"ok\":false,\"error\":\"a\\\"b\\\\c\"}");
}

#[test]
fn status_envelope_carries_non_ascii_messages() {
    let e = ApiStatus::error("caf\u{e9}".to_string());
    assert_eq!(e.to_json().as_str(), "{\"ok\":false,\"error\":\"caf\u{e9}\"}");
}

#[test]
fn rejection_messages_are_fixed() {
    assert_eq!(TokenError::Malformed.message(), "Invalid token!");
    assert_eq!(TokenError::Expired.message(), "Expired token!");
    assert_eq!(TokenError::MissingCredential.message(), "Missing token!");
}

#[test]
fn may_true_reads_affirmative_words() {
    for yes in ["y", "yes", "Y", "true", "T", "1", "1x"] {
        assert!(Some(yes.to_string()).may_true(), "{yes:?}");
    }
    for no in ["", "no", "false", "0", "x", "\u{e9}"] {
        assert!(!Some(no.to_string()).may_true(), "{no:?}");
    }
    let absent: Option<String> = None;
    assert!(!absent.may_true());
}

#[test]
fn clock_reads_a_plausible_instant() {
    let ms = timestamp_u64();
    // After 2020-01-01 and before the year 5000, in milliseconds.
    assert!(ms > 1_577_836_800_000);
    assert!(ms < 95_617_584_000_000);
    assert!(timestamp_u128() >= ms as u128);
    let later = DurationMillis(60_000).timestamp_from_now();
    assert!(later > ms);
}
