//! Password hashing, user records, and the authenticator.

use jwt_auth::authn::authenticate;
use jwt_auth::errors::CredentialError;
use jwt_auth::hashing::{check_password, hash_password};
use jwt_auth::user::User;

#[test]
fn hash_then_verify_accepts_the_same_password() {
    let p = b"correct".to_vec();
    let h = hash_password(&p).expect("hashing must succeed");
    assert!(check_password(&p, h.as_str()));
}

#[test]
fn hash_then_verify_rejects_another_password() {
    let p1 = b"correct".to_vec();
    let p2 = b"wrong".to_vec();
    let h = hash_password(&p1).expect("hashing must succeed");
    assert!(!check_password(&p2, h.as_str()));
}

#[test]
fn hash_output_embeds_its_parameters() {
    let p = b"correct".to_vec();
    let h = hash_password(&p).expect("hashing must succeed");
    assert_eq!(h.len(), 60);
    assert!(h.starts_with("$2b$12$"));
    // The stored text alone suffices for the real bcrypt to verify.
    assert!(bcrypt::verify(b"correct", h.as_str()).unwrap());
}

#[test]
fn verify_on_malformed_hash_is_false_not_a_panic() {
    let p = b"anything".to_vec();
    assert!(!check_password(&p, "not-a-valid-hash"));
    assert!(!check_password(&p, ""));
    let sixty_junk = "x".repeat(60);
    assert!(!check_password(&p, sixty_junk.as_str()));
}

#[test]
fn set_password_then_verify_password() {
    let mut u = User::new("alice".to_string());
    assert!(!u.verify_password(&b"correct".to_vec()));
    assert!(u.set_password(&b"correct".to_vec()));
    assert!(u.verify_password(&b"correct".to_vec()));
    assert!(!u.verify_password(&b"wrong".to_vec()));
}

#[test]
fn record_without_hash_never_authenticates() {
    let u = User::from_parts("id-1".to_string(), "alice".to_string(), None);
    assert!(!u.verify_password(&b"anything".to_vec()));
    assert!(!u.verify_password(&b"".to_vec()));
}

#[test]
fn record_with_corrupt_hash_behaves_as_wrong_password() {
    let u = User::from_parts(
        "id-1".to_string(),
        "alice".to_string(),
        Some("corrupted!".to_string()),
    );
    assert!(!u.verify_password(&b"anything".to_vec()));
}

#[test]
fn authenticate_success_returns_the_record() {
    let mut u = User::new("alice".to_string());
    assert!(u.set_password(&b"correct".to_vec()));
    let got = authenticate(Some(u), &b"correct".to_vec()).expect("must authenticate");
    assert_eq!(got.username_ref().as_str(), "alice");
}

#[test]
fn authenticate_merges_miss_and_mismatch() {
    let mut u = User::new("alice".to_string());
    assert!(u.set_password(&b"correct".to_vec()));
    let wrong = authenticate(Some(u), &b"wrong".to_vec());
    let missing = authenticate(None, &b"correct".to_vec());
    assert_eq!(wrong.unwrap_err(), CredentialError::InvalidCredentials);
    assert_eq!(missing.unwrap_err(), CredentialError::InvalidCredentials);
}

#[test]
fn user_new_has_empty_id_and_no_password() {
    let u = User::new("bob".to_string());
    assert_eq!(u.id_ref().as_str(), "");
    assert!(u.password_ref().is_none());
}
