//! Issuing and revoking gateway sessions.
//!
//! A session is issued for a pool of the configuration and a lifetime; its
//! token is drawn from the operating system's random generator. The pool
//! `default` needs no entry in the configuration.

use crate::codec::base64url_encode;
use crate::codec::base64url_nopad;
use crate::codec::os_random;
use crate::config::find_pool;
use crate::config::find_pool_spec;
use crate::config::PoolEntry;
use crate::gateway_sessions::deleted;
use crate::gateway_sessions::GatewaySession;
use crate::gateway_sessions::GatewaySessionView;
use crate::kv::KvReply;
use crate::kv::KvReplyView;
use crate::kv::option_view;
use crate::num::clamp_i64;
use crate::num::div_1000;
use crate::num::div_toward_zero;
use crate::num::saturating_add;
use crate::num::saturating_mul_1000;
use crate::num::saturating_sub;
use crate::text::str_eq;
use vstd::prelude::*;
use vstd::string::StringExecFns;

verus! {

/// Lifetime of a session that is issued without one, in seconds.
pub const DEFAULT_SESSION_TTL_SECONDS: i64 = 86_400;

/// Number of random bytes in a gateway token.
pub const GATEWAY_TOKEN_BYTES: usize = 32;

/// Why no session was issued or revoked.
#[derive(Debug, Clone, Copy, PartialEq, Eq, Structural)]
pub enum GatewayError {
    /// The pool is not configured.
    UnknownPool,
    /// The pool has no labels.
    EmptyPool,
    /// The lifetime is zero or negative.
    InvalidTtl,
    /// The operating system gave no random bytes.
    RandomUnavailable,
    /// There is no session for the token.
    SessionNotFound,
    /// The key/value store failed.
    KvUnavailable,
}

/// A session that was issued: what to store, under which token, for how long.
#[derive(Debug, PartialEq, Eq)]
pub struct IssuedSession {
    pub token: String,
    pub session: GatewaySession,
    pub ttl_seconds: i64,
}

/// Mathematical value of an [`IssuedSession`].
pub struct IssuedSessionView {
    pub token: Seq<char>,
    pub session: GatewaySessionView,
    pub ttl_seconds: i64,
}

impl View for IssuedSession {
    type V = IssuedSessionView;

    open spec fn view(&self) -> IssuedSessionView {
        IssuedSessionView {
            token: self.token@,
            session: self.session@,
            ttl_seconds: self.ttl_seconds,
        }
    }
}

/// The gateway token for its random bytes: `gw_` and the bytes in base64url.
pub open spec fn gateway_token_spec(random: Seq<u8>) -> Seq<char> {
    "gw_"@ + base64url_nopad(random)
}

/// Builds the gateway token for its random bytes.
pub fn generate_gateway_token(random: &[u8]) -> (r: String)
    requires
        crate::codec::is_encodable(random@.len()),
    ensures
        r@ == gateway_token_spec(random@),
        r@.len() == 3 + crate::codec::base64url_len(random@.len()),
{
    proof {
        reveal_strlit("gw_");
    }
    let mut token = String::from_str("gw_");
    let encoded = base64url_encode(random);
    token.append(encoded.as_str());
    token
}

/// The policy key of the sessions of a pool: none for the pool `default`,
/// which needs no configuration; the pool's own for a configured pool with
/// labels.
pub open spec fn session_policy_key_spec(pools: Seq<PoolEntry>, pool_id: Seq<char>) -> Result<
    Option<Seq<char>>,
    GatewayError,
> {
    if pool_id == "default"@ {
        Ok(None)
    } else {
        match find_pool_spec(pools, pool_id) {
            None => Err(GatewayError::UnknownPool),
            Some(pool) => if pool.labels@.len() == 0 {
                Err(GatewayError::EmptyPool)
            } else {
                Ok(option_view(pool.policy_key))
            },
        }
    }
}

/// The session to issue.
///
/// The pool is checked first, then the lifetime, which defaults to
/// [`DEFAULT_SESSION_TTL_SECONDS`] and must be positive, then the random
/// bytes. The session is issued at `now_ms` and expires its lifetime later,
/// saturating.
pub open spec fn issue_spec(
    pools: Seq<PoolEntry>,
    pool_id: Seq<char>,
    ttl_seconds: Option<i64>,
    note: Option<Seq<char>>,
    now_ms: i64,
    random: Option<Seq<u8>>,
) -> Result<IssuedSessionView, GatewayError> {
    let ttl = match ttl_seconds {
        Some(t) => t,
        None => DEFAULT_SESSION_TTL_SECONDS,
    };
    match session_policy_key_spec(pools, pool_id) {
        Err(e) => Err(e),
        Ok(policy_key) => if ttl <= 0 {
            Err(GatewayError::InvalidTtl)
        } else {
            match random {
                None => Err(GatewayError::RandomUnavailable),
                Some(bytes) => Ok(
                    IssuedSessionView {
                        token: gateway_token_spec(bytes),
                        session: GatewaySessionView {
                            account_pool_id: pool_id,
                            policy_key,
                            issued_at_ms: now_ms,
                            expires_at_ms: clamp_i64(now_ms + clamp_i64(ttl * 1000)) as i64,
                            note,
                        },
                        ttl_seconds: ttl,
                    },
                ),
            }
        },
    }
}

fn session_policy_key(pools: &[PoolEntry], pool_id: &str) -> (r: Result<
    Option<String>,
    GatewayError,
>)
    ensures
        match r {
            Ok(key) => session_policy_key_spec(pools@, pool_id@) == Ok::<
                Option<Seq<char>>,
                GatewayError,
            >(option_view(key)),
            Err(e) => session_policy_key_spec(pools@, pool_id@) == Err::<
                Option<Seq<char>>,
                GatewayError,
            >(e),
        },
{
    if str_eq(pool_id, "default") {
        return Ok(None);
    }
    match find_pool(pools, pool_id) {
        None => Err(GatewayError::UnknownPool),
        Some(pool) => {
            if pool.labels.len() == 0 {
                Err(GatewayError::EmptyPool)
            } else {
                Ok(pool.policy_key.clone())
            }
        },
    }
}

/// Issues a session with the random bytes for its token given by the
/// caller. See [`issue_spec`].
pub fn issue_with(
    pools: &[PoolEntry],
    pool_id: &str,
    ttl_seconds: Option<i64>,
    note: Option<String>,
    now_ms: i64,
    random: Option<Vec<u8>>,
) -> (r: Result<IssuedSession, GatewayError>)
    requires
        random matches Some(bytes) ==> crate::codec::is_encodable(bytes@.len()),
    ensures
        match r {
            Ok(issued) => issue_spec(
                pools@,
                pool_id@,
                ttl_seconds,
                option_view(note),
                now_ms,
                crate::account_token_provider::option_bytes_view(random),
            ) == Ok::<IssuedSessionView, GatewayError>(issued@),
            Err(e) => issue_spec(
                pools@,
                pool_id@,
                ttl_seconds,
                option_view(note),
                now_ms,
                crate::account_token_provider::option_bytes_view(random),
            ) == Err::<IssuedSessionView, GatewayError>(e),
        },
        r matches Ok(issued) ==> issued.token@.len() == 3 + crate::codec::base64url_len(
            random->Some_0@.len(),
        ),
{
    let policy_key = match session_policy_key(pools, pool_id) {
        Ok(key) => key,
        Err(e) => {
            return Err(e);
        },
    };
    let ttl: i64 = match ttl_seconds {
        Some(t) => t,
        None => DEFAULT_SESSION_TTL_SECONDS,
    };
    if ttl <= 0 {
        return Err(GatewayError::InvalidTtl);
    }
    let bytes = match random {
        Some(b) => b,
        None => {
            return Err(GatewayError::RandomUnavailable);
        },
    };
    let token = generate_gateway_token(bytes.as_slice());
    let session = GatewaySession {
        account_pool_id: String::from_str(pool_id),
        policy_key,
        issued_at_ms: now_ms,
        expires_at_ms: saturating_add(now_ms, saturating_mul_1000(ttl)),
        note,
    };
    Ok(IssuedSession { token, session, ttl_seconds: ttl })
}

/// Issues a session: [`issue_spec`] for what the operating system's random
/// generator gave.
pub fn issue(
    pools: &[PoolEntry],
    pool_id: &str,
    ttl_seconds: Option<i64>,
    note: Option<String>,
    now_ms: i64,
) -> (r: Result<IssuedSession, GatewayError>)
    ensures
        exists|random: Option<Seq<u8>>|
            (random matches Some(bytes) ==> bytes.len() == GATEWAY_TOKEN_BYTES) && (match r {
                Ok(issued) => #[trigger] issue_spec(
                    pools@,
                    pool_id@,
                    ttl_seconds,
                    option_view(note),
                    now_ms,
                    random,
                ) == Ok::<IssuedSessionView, GatewayError>(issued@),
                Err(e) => issue_spec(
                    pools@,
                    pool_id@,
                    ttl_seconds,
                    option_view(note),
                    now_ms,
                    random,
                ) == Err::<IssuedSessionView, GatewayError>(e),
            }),
        r matches Ok(issued) ==> issued.token@.len() == 46,
{
    let random = os_random(GATEWAY_TOKEN_BYTES);
    let ghost drawn = crate::account_token_provider::option_bytes_view(random);
    let r = issue_with(pools, pool_id, ttl_seconds, note, now_ms, random);
    proof {
        let spec = issue_spec(pools@, pool_id@, ttl_seconds, option_view(note), now_ms, drawn);
        assert(match r {
            Ok(issued) => spec == Ok::<IssuedSessionView, GatewayError>(issued@),
            Err(e) => spec == Err::<IssuedSessionView, GatewayError>(e),
        });
    }
    r
}

/// The seconds until a session expires, rounded towards zero; zero or less
/// for a session that has expired.
pub fn expires_in_seconds(expires_at_ms: i64, now_ms: i64) -> (r: i64)
    ensures
        r == div_toward_zero(clamp_i64(expires_at_ms - now_ms), 1000),
{
    div_1000(saturating_sub(expires_at_ms, now_ms))
}

/// Judges the reply to the deletion of a session: revoking succeeds if a
/// key was removed.
pub fn revoke(reply: &KvReply) -> (r: Result<(), GatewayError>)
    ensures
        r == (match reply@ {
            KvReplyView::Deleted(n) => if n > 0 {
                Ok::<(), GatewayError>(())
            } else {
                Err::<(), GatewayError>(GatewayError::SessionNotFound)
            },
            _ => Err::<(), GatewayError>(GatewayError::KvUnavailable),
        }),
{
    match deleted(reply) {
        Ok(true) => Ok(()),
        Ok(false) => Err(GatewayError::SessionNotFound),
        Err(_) => Err(GatewayError::KvUnavailable),
    }
}

} // verus!
