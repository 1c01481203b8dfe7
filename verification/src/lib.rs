//! Credential-verification and session-token core.
//!
//! Clients submit a username/password pair; the core checks it against a
//! stored salted bcrypt hash and, on success, issues a signed, time-limited
//! bearer token.  Later requests present that token in an `Authorization`
//! header, and the request gate decides whether the request carries a verified
//! identity.
//!
//! The crate holds only the decision logic: password hashing and
//! verification, token issue and validation, and the per-request
//! authorization gate.  Everything that touches the outside world (HTTP
//! routing, the user store, process configuration) lives with the caller,
//! which hands the core plain values and takes plain verdicts back.

pub mod authn;
pub mod bool_ext;
pub mod bytesutil;
pub mod codec;
pub mod jsonenc;
pub mod clock;
pub mod config;
pub mod errors;
pub mod gate;
pub mod hashing;
pub mod status;
pub mod user;

pub use codec::Jwt;
pub use config::AuthConfig;
pub use errors::{ConfigError, CredentialError, TokenError};
pub use gate::AuthDecision;
pub use status::ApiStatus;
pub use user::User;
