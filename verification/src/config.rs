//! The process configuration the core consumes, built once at startup.
//!
//! The signing secret is required — an empty secret is a startup error,
//! never a first-use surprise.  The expiry window is measured in hours,
//! with a floor of one hour for any configured value below it and a
//! default of 24 hours when nothing is configured.

use vstd::prelude::*;
use vstd::utf8::encode_utf8;

use crate::clock::timestamp_u64;
use crate::codec::{issue_at, spec_token_accept, spec_token_bytes};
use crate::errors::ConfigError;
use crate::jsonenc::{spec_all_digits, spec_digits_val, lemma_digits_val_prefix_le};

verus! {

/// The default expiry window, in hours.
pub const DEFAULT_EXPIRE_HOURS: u64 = 24;

/// One hour in milliseconds.
pub const HOUR_MILLIS: u64 = 3600000;

/// The numeric reading of a decimal text: defined exactly when the text is
/// nonempty, all digits, and fits in a `u64`.
pub open spec fn spec_parse_u64(b: Seq<u8>) -> Option<u64> {
    if b.len() >= 1 && spec_all_digits(b) && spec_digits_val(b) <= u64::MAX {
        Some(spec_digits_val(b) as u64)
    } else {
        None
    }
}

fn parse_u64_bytes(v: &Vec<u8>) -> (r: Option<u64>)
    ensures
        r == spec_parse_u64(v@),
{
    if v.len() == 0 {
        return None;
    }
    let mut i: usize = 0;
    let mut acc: u64 = 0;
    while i < v.len()
        invariant
            i <= v@.len(),
            spec_all_digits(v@.subrange(0, i as int)),
            acc == spec_digits_val(v@.subrange(0, i as int)),
        decreases v@.len() - i,
    {
        let b = v[i];
        if b < 48 || b > 57 {
            proof {
                assert(!spec_all_digits(v@));
            }
            return None;
        }
        let d = b - 48;
        proof {
            assert(v@.subrange(0, i + 1).drop_last() =~= v@.subrange(0, i as int));
            assert(spec_digits_val(v@.subrange(0, i + 1)) == acc * 10 + d);
            assert(spec_all_digits(v@.subrange(0, i + 1)));
        }
        if acc > (u64::MAX - (d as u64)) / 10 {
            proof {
                vstd::arithmetic::div_mod::lemma_fundamental_div_mod(u64::MAX - (d as u64), 10);
                assert(acc * 10 + d > u64::MAX);
                if spec_all_digits(v@) {
                    lemma_digits_val_prefix_le(v@, i + 1);
                    assert(v@.subrange(0, i + 1) =~= v@.subrange(0, i + 1));
                    assert(spec_digits_val(v@) > u64::MAX);
                }
            }
            return None;
        }
        proof {
            vstd::arithmetic::div_mod::lemma_fundamental_div_mod(u64::MAX - (d as u64), 10);
            assert(acc * 10 + d <= u64::MAX);
        }
        acc = acc * 10 + (d as u64);
        i = i + 1;
    }
    proof {
        assert(v@.subrange(0, v@.len() as int) =~= v@);
    }
    Some(acc)
}

/// Read a decimal number from configuration text; `None` when the text is
/// not a plain decimal `u64`.
pub fn parse_u64(s: &str) -> (r: Option<u64>)
    ensures
        r == spec_parse_u64(encode_utf8(s@)),
{
    let v = vstd::string::StrSliceExecFns::as_bytes_vec(s);
    parse_u64_bytes(&v)
}

/// The expiry window that a configured value resolves to: absent means the
/// 24-hour default, anything below one hour is raised to the one-hour
/// floor, anything else is taken as configured.
pub open spec fn spec_resolved_hours(cfg: Option<u64>) -> u64 {
    match cfg {
        None => DEFAULT_EXPIRE_HOURS,
        Some(h) => if h < 1 {
            1
        } else {
            h
        },
    }
}

/// Resolve the configured expiry window.
pub fn resolved_hours(cfg: Option<u64>) -> (r: u64)
    ensures
        r == spec_resolved_hours(cfg),
        r >= 1,
{
    match cfg {
        None => DEFAULT_EXPIRE_HOURS,
        Some(h) => if h < 1 {
            1
        } else {
            h
        },
    }
}

/// The expiry instant of a token issued at `now_ms` with a window of
/// `hours`, saturating at the largest representable instant.
pub open spec fn spec_expiry(now_ms: u64, hours: u64) -> u64 {
    if now_ms + hours * HOUR_MILLIS > u64::MAX {
        u64::MAX
    } else {
        (now_ms + hours * HOUR_MILLIS) as u64
    }
}

/// Compute the expiry instant; with a window of at least an hour it lies
/// strictly after `now_ms` whenever the clock itself is not saturated.
pub fn expiry_instant(now_ms: u64, hours: u64) -> (r: u64)
    ensures
        r == spec_expiry(now_ms, hours),
        hours >= 1 && now_ms < u64::MAX ==> r > now_ms,
{
    if hours > u64::MAX / HOUR_MILLIS {
        proof {
            vstd::arithmetic::div_mod::lemma_fundamental_div_mod(u64::MAX as int, HOUR_MILLIS as int);
        }
        u64::MAX
    } else {
        proof {
            vstd::arithmetic::div_mod::lemma_fundamental_div_mod(u64::MAX as int, HOUR_MILLIS as int);
        }
        let window = hours * HOUR_MILLIS;
        if now_ms > u64::MAX - window {
            u64::MAX
        } else {
            now_ms + window
        }
    }
}

/// The immutable configuration object, built once at startup and passed by
/// reference into the token codec and the request gate.
#[derive(Clone, Debug)]
pub struct AuthConfig {
    pub(crate) secret: Vec<u8>,
    pub(crate) expire_hours: u64,
    pub(crate) basic_enabled: bool,
}

impl AuthConfig {
    /// The signing secret.
    pub closed spec fn spec_secret(&self) -> Seq<u8> {
        self.secret@
    }

    /// The resolved expiry window in hours.
    pub closed spec fn spec_expire_hours(&self) -> u64 {
        self.expire_hours
    }

    /// Whether the Basic-credential fallback is enabled.
    pub closed spec fn spec_basic_enabled(&self) -> bool {
        self.basic_enabled
    }

    /// A configuration the constructor can have produced: nonempty secret,
    /// floor-respecting window.
    pub open spec fn wf(&self) -> bool {
        self.spec_secret().len() > 0 && self.spec_expire_hours() >= 1
    }

    /// Build the configuration.  An empty secret is refused — the process
    /// must not start serving without signing key material.  The expiry
    /// window resolves as [`spec_resolved_hours`] says.
    pub fn new(secret: Vec<u8>, expire_hours: Option<u64>, basic_enabled: bool) -> (r: Result<
        AuthConfig,
        ConfigError,
    >)
        ensures
            secret@.len() == 0 ==> r == Err::<AuthConfig, ConfigError>(ConfigError::MissingSecret),
            secret@.len() > 0 ==> (r matches Ok(c) && c.spec_secret() == secret@
                && c.spec_expire_hours() == spec_resolved_hours(expire_hours)
                && c.spec_basic_enabled() == basic_enabled && c.wf()),
    {
        if secret.len() == 0 {
            return Err(ConfigError::MissingSecret);
        }
        let hours = resolved_hours(expire_hours);
        Ok(AuthConfig { secret, expire_hours: hours, basic_enabled })
    }

    /// Whether the Basic-credential fallback is enabled.
    pub fn basic_enabled(&self) -> (r: bool)
        ensures
            r == self.spec_basic_enabled(),
    {
        self.basic_enabled
    }

    /// The signing secret, by reference.
    pub fn secret_ref(&self) -> (r: &Vec<u8>)
        ensures
            r@ == self.spec_secret(),
    {
        &self.secret
    }
}

/// Issue a token for `sub` under this configuration, expiring one
/// configured window after the present instant.
///
/// Whatever the clock read, the returned token is one that verification
/// under the same secret accepts, carrying exactly this subject.
pub fn create_token(cfg: &AuthConfig, sub: &str) -> (r: String)
    ensures
        exists|e: u64|
            spec_token_accept(cfg.spec_secret(), encode_utf8(r@)) == Some(
                (encode_utf8(sub@), e),
            ) && encode_utf8(r@) == spec_token_bytes(cfg.spec_secret(), encode_utf8(sub@), e),
{
    let now = timestamp_u64();
    let exp = expiry_instant(now, cfg.expire_hours);
    let t = issue_at(&cfg.secret, sub, exp);
    proof {
        assert(spec_token_accept(cfg.spec_secret(), encode_utf8(t@)) == Some(
            (encode_utf8(sub@), exp),
        ) && encode_utf8(t@) == spec_token_bytes(cfg.spec_secret(), encode_utf8(sub@), exp));
    }
    t
}

/// Law: a configured expiry of zero hours behaves exactly as the one-hour
/// floor, and absent configuration exactly as the 24-hour default — the
/// resolved window is the same, so the expiry instant and every issued
/// token are the same.
pub proof fn lemma_expiry_floor_and_default(now_ms: u64, secret: Seq<u8>, sub: Seq<u8>)
    ensures
        spec_resolved_hours(Some(0)) == spec_resolved_hours(Some(1)),
        spec_resolved_hours(None) == DEFAULT_EXPIRE_HOURS,
        spec_expiry(now_ms, spec_resolved_hours(Some(0))) == spec_expiry(
            now_ms,
            spec_resolved_hours(Some(1)),
        ),
        spec_token_bytes(secret, sub, spec_expiry(now_ms, spec_resolved_hours(Some(0))))
            == spec_token_bytes(secret, sub, spec_expiry(now_ms, spec_resolved_hours(Some(1)))),
{
}

} // verus!
