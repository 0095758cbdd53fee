//! Per-account upstream credentials, cached in the key/value store and
//! refreshed by one replica at a time.
//!
//! [`get`] starts an acquisition and [`resume`] continues it. A step either
//! asks the caller for outside work (a cache read or write, the refresh
//! lock, a pause, the account's credential store) or ends the acquisition.
//! Times are passed in by the caller, in milliseconds.

use crate::codec::base64url_decode;
use crate::codec::base64url_encode;
use crate::codec::base64url_nopad;
use crate::codec::base64url_nopad_decoded;
use crate::codec::json_integer;
use crate::codec::json_integer_member;
use crate::codec::os_random;
use crate::kv::Expiry;
use crate::kv::KvCommand;
use crate::kv::KvCommandView;
use crate::kv::option_view;
use crate::num::clamp_i64;
use crate::num::div_1000;
use crate::num::div_toward_zero;
use crate::num::saturating_add;
use crate::num::saturating_mul_1000;
use crate::num::saturating_sub;
use crate::text::chars_of;
use crate::text::index_of_from;
use crate::text::index_of_from_spec;
use crate::text::substring;
use vstd::prelude::*;
use vstd::string::StringExecFns;

verus! {

/// Lifetime of the refresh lock, and the longest that a replica waits for
/// another one's refresh.
pub const REFRESH_LOCK_TTL_MS: i64 = 15_000;

/// Pause between two looks at the cache while another replica refreshes.
pub const LOCK_WAIT_POLL_MS: i64 = 200;

/// What is sent upstream on behalf of an account.
#[derive(Debug, PartialEq, Eq)]
pub struct AuthMaterial {
    /// The `Authorization` value, `Bearer ` included.
    pub authorization: String,
    pub chatgpt_account_id: Option<String>,
    /// When the access token expires.
    pub expires_at_ms: i64,
}

/// Mathematical value of an [`AuthMaterial`].
pub struct AuthMaterialView {
    pub authorization: Seq<char>,
    pub chatgpt_account_id: Option<Seq<char>>,
    pub expires_at_ms: i64,
}

impl View for AuthMaterial {
    type V = AuthMaterialView;

    open spec fn view(&self) -> AuthMaterialView {
        AuthMaterialView {
            authorization: self.authorization@,
            chatgpt_account_id: option_view(self.chatgpt_account_id),
            expires_at_ms: self.expires_at_ms,
        }
    }
}

impl Clone for AuthMaterial {
    fn clone(&self) -> (r: AuthMaterial)
        ensures
            r@ == self@,
    {
        AuthMaterial {
            authorization: self.authorization.clone(),
            chatgpt_account_id: self.chatgpt_account_id.clone(),
            expires_at_ms: self.expires_at_ms,
        }
    }
}

/// What the account's credential store holds.
#[derive(Debug, PartialEq, Eq)]
pub struct TokenData {
    /// A signed token of three dot-separated base64url segments.
    pub access_token: String,
    pub chatgpt_account_id: Option<String>,
}

/// Mathematical value of a [`TokenData`].
pub struct TokenDataView {
    pub access_token: Seq<char>,
    pub chatgpt_account_id: Option<Seq<char>>,
}

impl View for TokenData {
    type V = TokenDataView;

    open spec fn view(&self) -> TokenDataView {
        TokenDataView {
            access_token: self.access_token@,
            chatgpt_account_id: option_view(self.chatgpt_account_id),
        }
    }
}

/// Why no credential could be had.
#[derive(Debug, Clone, Copy, PartialEq, Eq, Structural)]
pub enum TokenError {
    /// The safety window is negative.
    NegativeSafetyWindow,
    /// The key/value store failed.
    KvUnavailable,
    /// The cached record could not be read back.
    CacheUnreadable,
    /// The operating system gave no random bytes for the lock value.
    RandomUnavailable,
    /// The account has no credentials.
    MissingAuth,
    /// The account's credentials could not be read.
    TokenDataUnreadable,
    /// The access token has no payload segment.
    JwtMissingPayload,
    /// The access token has no signature segment.
    JwtMissingSignature,
    /// The payload segment is not base64url.
    JwtPayloadEncoding,
    /// The payload is not JSON with an integer `exp`.
    JwtPayloadClaims,
    /// The credential store could not refresh the token.
    RefreshFailed,
    /// The token expires too soon to be cached.
    RefusedToCache,
    /// An event arrived that the acquisition was not waiting for.
    UnexpectedEvent,
}

impl TokenError {
    /// Whether the failure is the key/value store's.
    pub fn is_kv_unavailable(&self) -> (r: bool)
        ensures
            r == (*self == TokenError::KvUnavailable),
    {
        match self {
            TokenError::KvUnavailable => true,
            _ => false,
        }
    }
}

/// The cache key of an account.
pub open spec fn cache_key_spec(account_id: Seq<char>) -> Seq<char> {
    "gw:acct_token:"@ + account_id
}

/// The key of an account's refresh lock.
pub open spec fn lock_key_spec(account_id: Seq<char>) -> Seq<char> {
    "gw:lock:acct_token_refresh:"@ + account_id
}

/// Builds the cache key of an account.
pub fn cache_key(account_id: &str) -> (r: String)
    ensures
        r@ == cache_key_spec(account_id@),
{
    let mut key = String::from_str("gw:acct_token:");
    key.append(account_id);
    key
}

/// Builds the key of an account's refresh lock.
pub fn lock_key(account_id: &str) -> (r: String)
    ensures
        r@ == lock_key_spec(account_id@),
{
    let mut key = String::from_str("gw:lock:acct_token_refresh:");
    key.append(account_id);
    key
}

/// The safety window in milliseconds.
pub open spec fn safety_ms_spec(token_safety_window_seconds: i64) -> int {
    clamp_i64(token_safety_window_seconds * 1000)
}

/// Whether a credential that expires at `expires_at_ms` may still be used
/// at `now_ms`: more than the safety window is left of it.
pub open spec fn is_fresh_spec(
    expires_at_ms: i64,
    now_ms: i64,
    token_safety_window_seconds: i64,
) -> bool {
    clamp_i64(expires_at_ms - now_ms) > safety_ms_spec(token_safety_window_seconds)
}

/// Tells whether a credential may still be used.
pub fn is_fresh(expires_at_ms: i64, now_ms: i64, token_safety_window_seconds: i64) -> (r: bool)
    ensures
        r == is_fresh_spec(expires_at_ms, now_ms, token_safety_window_seconds),
{
    saturating_sub(expires_at_ms, now_ms) > saturating_mul_1000(token_safety_window_seconds)
}

/// The lifetime of a cache entry, in seconds: what is left of the
/// credential, in whole seconds, less the safety window.
pub open spec fn cache_ttl_spec(
    expires_at_ms: i64,
    now_ms: i64,
    token_safety_window_seconds: i64,
) -> int {
    div_toward_zero(clamp_i64(expires_at_ms - now_ms), 1000) - token_safety_window_seconds
}

/// The lifetime to cache a credential for, or the refusal to cache it.
///
/// A negative safety window is refused; so is a credential whose lifetime
/// would not be positive.
pub fn cache_ttl_seconds(expires_at_ms: i64, now_ms: i64, token_safety_window_seconds: i64) -> (r:
    Result<i64, TokenError>)
    ensures
        token_safety_window_seconds < 0 ==> r == Err::<i64, TokenError>(
            TokenError::NegativeSafetyWindow,
        ),
        token_safety_window_seconds >= 0 && cache_ttl_spec(
            expires_at_ms,
            now_ms,
            token_safety_window_seconds,
        ) <= 0 ==> r == Err::<i64, TokenError>(TokenError::RefusedToCache),
        token_safety_window_seconds >= 0 && cache_ttl_spec(
            expires_at_ms,
            now_ms,
            token_safety_window_seconds,
        ) > 0 ==> r == Ok::<i64, TokenError>(
            cache_ttl_spec(expires_at_ms, now_ms, token_safety_window_seconds) as i64,
        ),
{
    if token_safety_window_seconds < 0 {
        return Err(TokenError::NegativeSafetyWindow);
    }
    let whole_seconds = div_1000(saturating_sub(expires_at_ms, now_ms));
    if whole_seconds <= token_safety_window_seconds {
        Err(TokenError::RefusedToCache)
    } else {
        Ok(whole_seconds - token_safety_window_seconds)
    }
}

/// A credential that is cached is fresh when it is written: positive cache
/// lifetime means that more than the safety window is left.
pub proof fn lemma_cached_material_is_fresh(
    expires_at_ms: i64,
    now_ms: i64,
    token_safety_window_seconds: i64,
)
    requires
        token_safety_window_seconds >= 0,
        cache_ttl_spec(expires_at_ms, now_ms, token_safety_window_seconds) > 0,
    ensures
        is_fresh_spec(expires_at_ms, now_ms, token_safety_window_seconds),
        expires_at_ms - now_ms > token_safety_window_seconds * 1000,
{
    let left = clamp_i64(expires_at_ms - now_ms);
    assert(left >= 0);
    assert(left / 1000 > token_safety_window_seconds);
    assert(left >= (token_safety_window_seconds + 1) * 1000) by (nonlinear_arith)
        requires
            left >= 0,
            left / 1000 > token_safety_window_seconds,
    ;
}

/// The payload segment of a signed token: what stands between the first
/// and the second dot.
pub open spec fn jwt_payload_segment_spec(jwt: Seq<char>) -> Result<Seq<char>, TokenError> {
    let first = index_of_from_spec(jwt, '.', 0);
    let second = index_of_from_spec(jwt, '.', first + 1);
    if first >= jwt.len() {
        Err(TokenError::JwtMissingPayload)
    } else if second >= jwt.len() {
        Err(TokenError::JwtMissingSignature)
    } else {
        Ok(jwt.subrange(first + 1, second))
    }
}

/// Cuts the payload segment out of a signed token.
pub fn jwt_payload_segment(jwt: &str) -> (r: Result<String, TokenError>)
    ensures
        match r {
            Ok(segment) => jwt_payload_segment_spec(jwt@) == Ok::<Seq<char>, TokenError>(segment@),
            Err(e) => jwt_payload_segment_spec(jwt@) == Err::<Seq<char>, TokenError>(e),
        },
{
    let chars = chars_of(jwt);
    let first = index_of_from(chars.as_slice(), '.', 0);
    if first >= chars.len() {
        return Err(TokenError::JwtMissingPayload);
    }
    let second = index_of_from(chars.as_slice(), '.', first + 1);
    if second >= chars.len() {
        return Err(TokenError::JwtMissingSignature);
    }
    Ok(substring(jwt, first + 1, second))
}

/// The expiry in milliseconds that a decoded payload gives.
pub open spec fn expiry_from_payload_spec(payload: Option<Seq<u8>>) -> Result<i64, TokenError> {
    match payload {
        None => Err(TokenError::JwtPayloadEncoding),
        Some(bytes) => match json_integer(bytes, "exp"@) {
            None => Err(TokenError::JwtPayloadClaims),
            Some(exp) => Ok(clamp_i64(exp * 1000) as i64),
        },
    }
}

/// The expiry in milliseconds of a signed token.
pub open spec fn jwt_exp_ms_spec(jwt: Seq<char>) -> Result<i64, TokenError> {
    match jwt_payload_segment_spec(jwt) {
        Err(e) => Err(e),
        Ok(segment) => expiry_from_payload_spec(base64url_nopad_decoded(segment)),
    }
}

/// The expiry in milliseconds for the claim `exp`, given in seconds; the
/// error for a payload without such a claim.
pub fn expiry_from_claim(exp: Option<i64>) -> (r: Result<i64, TokenError>)
    ensures
        r == (match exp {
            None => Err::<i64, TokenError>(TokenError::JwtPayloadClaims),
            Some(seconds) => Ok::<i64, TokenError>(clamp_i64(seconds * 1000) as i64),
        }),
{
    match exp {
        None => Err(TokenError::JwtPayloadClaims),
        Some(seconds) => Ok(saturating_mul_1000(seconds)),
    }
}

/// Reads the expiry of a signed token: the claim `exp` of its payload, in
/// milliseconds, saturating.
pub fn jwt_exp_ms(jwt: &str) -> (r: Result<i64, TokenError>)
    ensures
        r == jwt_exp_ms_spec(jwt@),
{
    match jwt_payload_segment(jwt) {
        Err(e) => Err(e),
        Ok(segment) => match base64url_decode(segment.as_str()) {
            None => Err(TokenError::JwtPayloadEncoding),
            Some(payload) => expiry_from_claim(json_integer_member(payload.as_slice(), "exp")),
        },
    }
}

/// The value written to the refresh lock for 16 random bytes.
pub fn lock_value(random: &[u8]) -> (r: String)
    requires
        crate::codec::is_encodable(random@.len()),
    ensures
        r@ == base64url_nopad(random@),
        r@.len() == crate::codec::base64url_len(random@.len()),
{
    base64url_encode(random)
}

/// A fresh random value for the refresh lock: 16 bytes from the operating
/// system in base64url, or the error when it gives none.
pub fn random_value() -> (r: Result<String, TokenError>)
    ensures
        match r {
            Ok(value) => value@.len() == 22 && exists|random: Seq<u8>|
                random.len() == 16 && value@ == #[trigger] base64url_nopad(random),
            Err(e) => e == TokenError::RandomUnavailable,
        },
{
    match os_random(16) {
        Some(bytes) => Ok(lock_value(bytes.as_slice())),
        None => Err(TokenError::RandomUnavailable),
    }
}

/// The credential for token data that expires at `expires_at_ms`.
pub open spec fn material_spec(data: TokenDataView, expires_at_ms: i64) -> AuthMaterialView {
    AuthMaterialView {
        authorization: "Bearer "@ + data.access_token,
        chatgpt_account_id: data.chatgpt_account_id,
        expires_at_ms,
    }
}

/// Composes the credential from the store's token data.
pub fn compose_material(data: TokenData, expires_at_ms: i64) -> (r: AuthMaterial)
    ensures
        r@ == material_spec(data@, expires_at_ms),
{
    let mut authorization = String::from_str("Bearer ");
    authorization.append(data.access_token.as_str());
    AuthMaterial { authorization, chatgpt_account_id: data.chatgpt_account_id, expires_at_ms }
}

/// Where an acquisition stands while it waits.
#[derive(Debug, PartialEq, Eq)]
pub enum TokenPhase {
    /// The cache is being read for the first time; the acquisition began at
    /// `start_ms`.
    CacheLookup { start_ms: i64 },
    /// The refresh lock was asked for.
    LockRequest { start_ms: i64 },
    /// Another replica holds the lock; this one pauses before it looks at
    /// the cache again, and gives up waiting at `deadline_ms`.
    Pause { deadline_ms: i64 },
    /// The cache is being read again.
    PollLookup { deadline_ms: i64 },
    /// The account's credentials are being loaded; `refreshed` tells whether
    /// they were refreshed in this acquisition.
    Credentials { refreshed: bool },
    /// The credential store is refreshing the token.
    Refresh,
    /// `material` is being written to the cache.
    CacheWrite { material: AuthMaterial },
}

/// Mathematical value of a [`TokenPhase`].
pub enum TokenPhaseView {
    CacheLookup { start_ms: i64 },
    LockRequest { start_ms: i64 },
    Pause { deadline_ms: i64 },
    PollLookup { deadline_ms: i64 },
    Credentials { refreshed: bool },
    Refresh,
    CacheWrite { material: AuthMaterialView },
}

impl View for TokenPhase {
    type V = TokenPhaseView;

    open spec fn view(&self) -> TokenPhaseView {
        match *self {
            TokenPhase::CacheLookup { start_ms } => TokenPhaseView::CacheLookup { start_ms },
            TokenPhase::LockRequest { start_ms } => TokenPhaseView::LockRequest { start_ms },
            TokenPhase::Pause { deadline_ms } => TokenPhaseView::Pause { deadline_ms },
            TokenPhase::PollLookup { deadline_ms } => TokenPhaseView::PollLookup { deadline_ms },
            TokenPhase::Credentials { refreshed } => TokenPhaseView::Credentials { refreshed },
            TokenPhase::Refresh => TokenPhaseView::Refresh,
            TokenPhase::CacheWrite { material } => TokenPhaseView::CacheWrite {
                material: material@,
            },
        }
    }
}

/// The outside work that an acquisition asks for.
#[derive(Debug, PartialEq, Eq)]
pub enum TokenAsk {
    /// `GET key`, the value parsed as a credential: [`read_cache_command`].
    ReadCache { key: String },
    /// `SET key value NX PX ttl_ms`: [`lock_command`].
    AcquireLock { key: String, value: String, ttl_ms: i64 },
    /// Wait for `millis` milliseconds.
    Sleep { millis: i64 },
    /// Read the account's token data from its credential store.
    LoadCredentials,
    /// Have the credential store refresh the account's token.
    RefreshCredentials,
    /// `SET key <material> EX ttl_seconds`: [`write_cache_command`] with
    /// the stored form of the material.
    WriteCache { key: String, material: AuthMaterial, ttl_seconds: i64 },
}

/// Mathematical value of a [`TokenAsk`].
pub enum TokenAskView {
    ReadCache { key: Seq<char> },
    AcquireLock { key: Seq<char>, value: Seq<char>, ttl_ms: i64 },
    Sleep { millis: i64 },
    LoadCredentials,
    RefreshCredentials,
    WriteCache { key: Seq<char>, material: AuthMaterialView, ttl_seconds: i64 },
}

impl View for TokenAsk {
    type V = TokenAskView;

    open spec fn view(&self) -> TokenAskView {
        match *self {
            TokenAsk::ReadCache { key } => TokenAskView::ReadCache { key: key@ },
            TokenAsk::AcquireLock { key, value, ttl_ms } => TokenAskView::AcquireLock {
                key: key@,
                value: value@,
                ttl_ms,
            },
            TokenAsk::Sleep { millis } => TokenAskView::Sleep { millis },
            TokenAsk::LoadCredentials => TokenAskView::LoadCredentials,
            TokenAsk::RefreshCredentials => TokenAskView::RefreshCredentials,
            TokenAsk::WriteCache { key, material, ttl_seconds } => TokenAskView::WriteCache {
                key: key@,
                material: material@,
                ttl_seconds,
            },
        }
    }
}

/// What came of the outside work.
#[derive(Debug, PartialEq, Eq)]
pub enum TokenEvent {
    /// The cache was read: the credential found, if any.
    Cache(Option<AuthMaterial>),
    /// The cache holds a value that is not a credential.
    CacheUnreadable,
    /// The lock was asked for: whether this replica got it.
    Lock(bool),
    /// The pause is over.
    Slept,
    /// The credential store was read: the token data, if the account has any.
    Credentials(Option<TokenData>),
    /// The credential store could not be read.
    CredentialsUnreadable,
    /// The refresh ended: whether it succeeded.
    Refreshed(bool),
    /// The cache was written.
    CacheWritten,
    /// The key/value store failed.
    KvUnavailable,
}

/// Mathematical value of a [`TokenEvent`].
pub enum TokenEventView {
    Cache(Option<AuthMaterialView>),
    CacheUnreadable,
    Lock(bool),
    Slept,
    Credentials(Option<TokenDataView>),
    CredentialsUnreadable,
    Refreshed(bool),
    CacheWritten,
    KvUnavailable,
}

impl View for TokenEvent {
    type V = TokenEventView;

    open spec fn view(&self) -> TokenEventView {
        match *self {
            TokenEvent::Cache(found) => TokenEventView::Cache(
                match found {
                    Some(m) => Some(m@),
                    None => None,
                },
            ),
            TokenEvent::CacheUnreadable => TokenEventView::CacheUnreadable,
            TokenEvent::Lock(acquired) => TokenEventView::Lock(acquired),
            TokenEvent::Slept => TokenEventView::Slept,
            TokenEvent::Credentials(data) => TokenEventView::Credentials(
                match data {
                    Some(d) => Some(d@),
                    None => None,
                },
            ),
            TokenEvent::CredentialsUnreadable => TokenEventView::CredentialsUnreadable,
            TokenEvent::Refreshed(ok) => TokenEventView::Refreshed(ok),
            TokenEvent::CacheWritten => TokenEventView::CacheWritten,
            TokenEvent::KvUnavailable => TokenEventView::KvUnavailable,
        }
    }
}

/// What an acquisition needs next, or how it ended.
#[derive(Debug, PartialEq, Eq)]
pub enum TokenStep {
    /// Do `ask` and resume in `phase` with what came of it.
    Ask { ask: TokenAsk, phase: TokenPhase },
    /// The credential to use.
    Done(AuthMaterial),
    /// No credential.
    Failed(TokenError),
}

/// Mathematical value of a [`TokenStep`].
pub enum TokenStepView {
    Ask { ask: TokenAskView, phase: TokenPhaseView },
    Done(AuthMaterialView),
    Failed(TokenError),
}

impl View for TokenStep {
    type V = TokenStepView;

    open spec fn view(&self) -> TokenStepView {
        match *self {
            TokenStep::Ask { ask, phase } => TokenStepView::Ask { ask: ask@, phase: phase@ },
            TokenStep::Done(m) => TokenStepView::Done(m@),
            TokenStep::Failed(e) => TokenStepView::Failed(e),
        }
    }
}

/// The command that reads the cache under `key`.
pub fn read_cache_command(key: String) -> (r: KvCommand)
    ensures
        r@ == (KvCommandView::Get { key: key@ }),
{
    KvCommand::Get { key }
}

/// The command that asks for the refresh lock: `SET key value NX PX
/// ttl_ms`. The key is written only if it is absent, so that one replica at
/// a time holds the lock, and the store's expiry releases it.
pub fn lock_command(key: String, value: String, ttl_ms: i64) -> (r: KvCommand)
    ensures
        r@ == (KvCommandView::Put {
            key: key@,
            value: value@,
            only_if_absent: true,
            expiry: Expiry::Millis(ttl_ms),
        }),
{
    KvCommand::Put { key, value, only_if_absent: true, expiry: Expiry::Millis(ttl_ms) }
}

/// The command that writes a credential in its stored form to the cache:
/// `SET key encoded EX ttl_seconds`, whatever the key held.
pub fn write_cache_command(key: String, encoded: String, ttl_seconds: i64) -> (r: KvCommand)
    ensures
        r@ == (KvCommandView::Put {
            key: key@,
            value: encoded@,
            only_if_absent: false,
            expiry: Expiry::Seconds(ttl_seconds),
        }),
{
    KvCommand::Put { key, value: encoded, only_if_absent: false, expiry: Expiry::Seconds(ttl_seconds) }
}

/// The first step of an acquisition that begins at `now_ms`: a negative
/// safety window is refused, otherwise the cache is read.
pub open spec fn token_start_spec(
    account_id: Seq<char>,
    token_safety_window_seconds: i64,
    now_ms: i64,
) -> TokenStepView {
    if token_safety_window_seconds < 0 {
        TokenStepView::Failed(TokenError::NegativeSafetyWindow)
    } else {
        TokenStepView::Ask {
            ask: TokenAskView::ReadCache { key: cache_key_spec(account_id) },
            phase: TokenPhaseView::CacheLookup { start_ms: now_ms },
        }
    }
}

/// The step that caches `material` at `now_ms`, or refuses to.
pub open spec fn store_spec(
    account_id: Seq<char>,
    token_safety_window_seconds: i64,
    now_ms: i64,
    material: AuthMaterialView,
) -> TokenStepView {
    if token_safety_window_seconds < 0 {
        TokenStepView::Failed(TokenError::NegativeSafetyWindow)
    } else if cache_ttl_spec(material.expires_at_ms, now_ms, token_safety_window_seconds) <= 0 {
        TokenStepView::Failed(TokenError::RefusedToCache)
    } else {
        TokenStepView::Ask {
            ask: TokenAskView::WriteCache {
                key: cache_key_spec(account_id),
                material,
                ttl_seconds: cache_ttl_spec(
                    material.expires_at_ms,
                    now_ms,
                    token_safety_window_seconds,
                ) as i64,
            },
            phase: TokenPhaseView::CacheWrite { material },
        }
    }
}

/// The step that follows the loading of the account's token data.
///
/// The token's expiry is read from its payload. A token that is not fresh
/// is refreshed once; after that, or if it is fresh, the credential is
/// composed and cached.
pub open spec fn after_credentials_spec(
    account_id: Seq<char>,
    token_safety_window_seconds: i64,
    now_ms: i64,
    data: TokenDataView,
    refreshed: bool,
) -> TokenStepView {
    match jwt_exp_ms_spec(data.access_token) {
        Err(e) => TokenStepView::Failed(e),
        Ok(expires_at_ms) => {
            if !refreshed && !is_fresh_spec(expires_at_ms, now_ms, token_safety_window_seconds) {
                TokenStepView::Ask {
                    ask: TokenAskView::RefreshCredentials,
                    phase: TokenPhaseView::Refresh,
                }
            } else {
                store_spec(
                    account_id,
                    token_safety_window_seconds,
                    now_ms,
                    material_spec(data, expires_at_ms),
                )
            }
        },
    }
}

/// The step that loads the account's credentials.
pub open spec fn load_step(refreshed: bool) -> TokenStepView {
    TokenStepView::Ask {
        ask: TokenAskView::LoadCredentials,
        phase: TokenPhaseView::Credentials { refreshed },
    }
}

/// The step that pauses before the next look at the cache.
pub open spec fn pause_step(deadline_ms: i64) -> TokenStepView {
    TokenStepView::Ask {
        ask: TokenAskView::Sleep { millis: LOCK_WAIT_POLL_MS },
        phase: TokenPhaseView::Pause { deadline_ms },
    }
}

/// The step that follows `event` in `phase` at `now_ms`, where `random` is
/// what the operating system gave for the lock value.
///
/// * A cached credential is used if it is fresh: at the start of the
///   acquisition for the first look, at the time of the look afterwards.
/// * Without one, the replica asks for the refresh lock. With the lock it
///   loads the credentials, refreshes them if they are stale, and caches
///   the result.
/// * Without the lock it looks at the cache every `LOCK_WAIT_POLL_MS`. When
///   `REFRESH_LOCK_TTL_MS` have passed since the start and the cache still
///   has nothing fresh, it loads the credentials itself.
/// * A failure of the key/value store ends the acquisition in any phase.
pub open spec fn token_resume_spec(
    account_id: Seq<char>,
    token_safety_window_seconds: i64,
    phase: TokenPhaseView,
    event: TokenEventView,
    now_ms: i64,
    random: Option<Seq<u8>>,
) -> TokenStepView {
    match (phase, event) {
        (_, TokenEventView::KvUnavailable) => TokenStepView::Failed(TokenError::KvUnavailable),
        (TokenPhaseView::CacheLookup { start_ms }, TokenEventView::Cache(found)) => {
            if found is Some && is_fresh_spec(
                found->Some_0.expires_at_ms,
                start_ms,
                token_safety_window_seconds,
            ) {
                TokenStepView::Done(found->Some_0)
            } else {
                match random {
                    None => TokenStepView::Failed(TokenError::RandomUnavailable),
                    Some(bytes) => TokenStepView::Ask {
                        ask: TokenAskView::AcquireLock {
                            key: lock_key_spec(account_id),
                            value: base64url_nopad(bytes),
                            ttl_ms: REFRESH_LOCK_TTL_MS,
                        },
                        phase: TokenPhaseView::LockRequest { start_ms },
                    },
                }
            }
        },
        (TokenPhaseView::CacheLookup { .. }, TokenEventView::CacheUnreadable) => {
            TokenStepView::Failed(TokenError::CacheUnreadable)
        },
        (TokenPhaseView::PollLookup { .. }, TokenEventView::CacheUnreadable) => {
            TokenStepView::Failed(TokenError::CacheUnreadable)
        },
        (TokenPhaseView::LockRequest { start_ms }, TokenEventView::Lock(acquired)) => {
            if acquired {
                load_step(false)
            } else {
                pause_step(clamp_i64(start_ms + REFRESH_LOCK_TTL_MS) as i64)
            }
        },
        (TokenPhaseView::Pause { deadline_ms }, TokenEventView::Slept) => TokenStepView::Ask {
            ask: TokenAskView::ReadCache { key: cache_key_spec(account_id) },
            phase: TokenPhaseView::PollLookup { deadline_ms },
        },
        (TokenPhaseView::PollLookup { deadline_ms }, TokenEventView::Cache(found)) => {
            if found is Some && is_fresh_spec(
                found->Some_0.expires_at_ms,
                now_ms,
                token_safety_window_seconds,
            ) {
                TokenStepView::Done(found->Some_0)
            } else if now_ms >= deadline_ms {
                load_step(false)
            } else {
                pause_step(deadline_ms)
            }
        },
        (TokenPhaseView::Credentials { refreshed }, TokenEventView::Credentials(data)) => {
            match data {
                None => TokenStepView::Failed(TokenError::MissingAuth),
                Some(d) => after_credentials_spec(
                    account_id,
                    token_safety_window_seconds,
                    now_ms,
                    d,
                    refreshed,
                ),
            }
        },
        (TokenPhaseView::Credentials { .. }, TokenEventView::CredentialsUnreadable) => {
            TokenStepView::Failed(TokenError::TokenDataUnreadable)
        },
        (TokenPhaseView::Refresh, TokenEventView::Refreshed(ok)) => {
            if ok {
                load_step(true)
            } else {
                TokenStepView::Failed(TokenError::RefreshFailed)
            }
        },
        (TokenPhaseView::CacheWrite { material }, TokenEventView::CacheWritten) => {
            TokenStepView::Done(material)
        },
        _ => TokenStepView::Failed(TokenError::UnexpectedEvent),
    }
}

/// Starts the acquisition of the credential of `account_id` at `now_ms`.
/// See [`token_start_spec`].
pub fn get(account_id: &str, token_safety_window_seconds: i64, now_ms: i64) -> (step: TokenStep)
    ensures
        step@ == token_start_spec(account_id@, token_safety_window_seconds, now_ms),
{
    if token_safety_window_seconds < 0 {
        return TokenStep::Failed(TokenError::NegativeSafetyWindow);
    }
    TokenStep::Ask {
        ask: TokenAsk::ReadCache { key: cache_key(account_id) },
        phase: TokenPhase::CacheLookup { start_ms: now_ms },
    }
}

/// Caches `material`, or refuses to. See [`store_spec`].
pub fn put_cached(
    account_id: &str,
    material: AuthMaterial,
    token_safety_window_seconds: i64,
    now_ms: i64,
) -> (step: TokenStep)
    ensures
        step@ == store_spec(account_id@, token_safety_window_seconds, now_ms, material@),
{
    match cache_ttl_seconds(material.expires_at_ms, now_ms, token_safety_window_seconds) {
        Err(e) => TokenStep::Failed(e),
        Ok(ttl_seconds) => TokenStep::Ask {
            ask: TokenAsk::WriteCache {
                key: cache_key(account_id),
                material: material.clone(),
                ttl_seconds,
            },
            phase: TokenPhase::CacheWrite { material },
        },
    }
}

/// Decides what follows the loading of the account's token data. See
/// [`after_credentials_spec`].
pub fn load_from_auth(
    account_id: &str,
    token_safety_window_seconds: i64,
    now_ms: i64,
    data: TokenData,
    refreshed: bool,
) -> (step: TokenStep)
    ensures
        step@ == after_credentials_spec(
            account_id@,
            token_safety_window_seconds,
            now_ms,
            data@,
            refreshed,
        ),
{
    match jwt_exp_ms(data.access_token.as_str()) {
        Err(e) => TokenStep::Failed(e),
        Ok(expires_at_ms) => {
            if !refreshed && !is_fresh(expires_at_ms, now_ms, token_safety_window_seconds) {
                TokenStep::Ask {
                    ask: TokenAsk::RefreshCredentials,
                    phase: TokenPhase::Refresh,
                }
            } else {
                put_cached(
                    account_id,
                    compose_material(data, expires_at_ms),
                    token_safety_window_seconds,
                    now_ms,
                )
            }
        },
    }
}

fn load_credentials(refreshed: bool) -> (step: TokenStep)
    ensures
        step@ == load_step(refreshed),
{
    TokenStep::Ask { ask: TokenAsk::LoadCredentials, phase: TokenPhase::Credentials { refreshed } }
}

fn pause(deadline_ms: i64) -> (step: TokenStep)
    ensures
        step@ == pause_step(deadline_ms),
{
    TokenStep::Ask {
        ask: TokenAsk::Sleep { millis: LOCK_WAIT_POLL_MS },
        phase: TokenPhase::Pause { deadline_ms },
    }
}

/// The bytes of an optional byte vector.
pub open spec fn option_bytes_view(o: Option<Vec<u8>>) -> Option<Seq<u8>> {
    match o {
        Some(v) => Some(v@),
        None => None,
    }
}

/// Continues an acquisition, with the random bytes for the lock value
/// given by the caller. See [`token_resume_spec`].
pub fn resume_with(
    account_id: &str,
    token_safety_window_seconds: i64,
    phase: TokenPhase,
    event: TokenEvent,
    now_ms: i64,
    random: Option<Vec<u8>>,
) -> (step: TokenStep)
    requires
        random matches Some(bytes) ==> crate::codec::is_encodable(bytes@.len()),
    ensures
        step@ == token_resume_spec(
            account_id@,
            token_safety_window_seconds,
            phase@,
            event@,
            now_ms,
            option_bytes_view(random),
        ),
{
    match (phase, event) {
        (_, TokenEvent::KvUnavailable) => TokenStep::Failed(TokenError::KvUnavailable),
        (TokenPhase::CacheLookup { start_ms }, TokenEvent::Cache(found)) => {
            match found {
                Some(m) => {
                    if is_fresh(m.expires_at_ms, start_ms, token_safety_window_seconds) {
                        return TokenStep::Done(m);
                    }
                },
                None => {},
            }
            match random {
                None => TokenStep::Failed(TokenError::RandomUnavailable),
                Some(bytes) => TokenStep::Ask {
                    ask: TokenAsk::AcquireLock {
                        key: lock_key(account_id),
                        value: lock_value(bytes.as_slice()),
                        ttl_ms: REFRESH_LOCK_TTL_MS,
                    },
                    phase: TokenPhase::LockRequest { start_ms },
                },
            }
        },
        (TokenPhase::CacheLookup { .. }, TokenEvent::CacheUnreadable) => TokenStep::Failed(
            TokenError::CacheUnreadable,
        ),
        (TokenPhase::PollLookup { .. }, TokenEvent::CacheUnreadable) => TokenStep::Failed(
            TokenError::CacheUnreadable,
        ),
        (TokenPhase::LockRequest { start_ms }, TokenEvent::Lock(acquired)) => {
            if acquired {
                load_credentials(false)
            } else {
                pause(saturating_add(start_ms, REFRESH_LOCK_TTL_MS))
            }
        },
        (TokenPhase::Pause { deadline_ms }, TokenEvent::Slept) => TokenStep::Ask {
            ask: TokenAsk::ReadCache { key: cache_key(account_id) },
            phase: TokenPhase::PollLookup { deadline_ms },
        },
        (TokenPhase::PollLookup { deadline_ms }, TokenEvent::Cache(found)) => {
            match found {
                Some(m) => {
                    if is_fresh(m.expires_at_ms, now_ms, token_safety_window_seconds) {
                        return TokenStep::Done(m);
                    }
                },
                None => {},
            }
            if now_ms >= deadline_ms {
                load_credentials(false)
            } else {
                pause(deadline_ms)
            }
        },
        (TokenPhase::Credentials { refreshed }, TokenEvent::Credentials(data)) => {
            match data {
                None => TokenStep::Failed(TokenError::MissingAuth),
                Some(d) => load_from_auth(
                    account_id,
                    token_safety_window_seconds,
                    now_ms,
                    d,
                    refreshed,
                ),
            }
        },
        (TokenPhase::Credentials { .. }, TokenEvent::CredentialsUnreadable) => TokenStep::Failed(
            TokenError::TokenDataUnreadable,
        ),
        (TokenPhase::Refresh, TokenEvent::Refreshed(ok)) => {
            if ok {
                load_credentials(true)
            } else {
                TokenStep::Failed(TokenError::RefreshFailed)
            }
        },
        (TokenPhase::CacheWrite { material }, TokenEvent::CacheWritten) => TokenStep::Done(
            material,
        ),
        _ => TokenStep::Failed(TokenError::UnexpectedEvent),
    }
}

/// Continues an acquisition. The random bytes for the lock value, which
/// are needed after the first look at the cache, are drawn from the operating
/// system; the step is the one that [`token_resume_spec`] gives for what was
/// drawn.
pub fn resume(
    account_id: &str,
    token_safety_window_seconds: i64,
    phase: TokenPhase,
    event: TokenEvent,
    now_ms: i64,
) -> (step: TokenStep)
    ensures
        exists|random: Option<Seq<u8>>|
            (random matches Some(bytes) ==> bytes.len() == 16) && step@
                == #[trigger] token_resume_spec(
                account_id@,
                token_safety_window_seconds,
                phase@,
                event@,
                now_ms,
                random,
            ),
{
    let random = match phase {
        TokenPhase::CacheLookup { .. } => os_random(16),
        _ => None,
    };
    let step = resume_with(account_id, token_safety_window_seconds, phase, event, now_ms, random);
    assert(step@ == token_resume_spec(
        account_id@,
        token_safety_window_seconds,
        phase@,
        event@,
        now_ms,
        option_bytes_view(random),
    ));
    step
}

/// A credential that comes out of the cache is fresh when it is read:
/// whenever a look at the cache ends the acquisition, the credential found
/// expires more than the safety window after the instant by which the look
/// is judged, which is the start of the acquisition for the first look and
/// the time of the look for the later ones.
pub proof fn lemma_cache_hit_is_fresh(
    account_id: Seq<char>,
    token_safety_window_seconds: i64,
    phase: TokenPhaseView,
    found: Option<AuthMaterialView>,
    now_ms: i64,
    random: Option<Seq<u8>>,
)
    requires
        token_resume_spec(
            account_id,
            token_safety_window_seconds,
            phase,
            TokenEventView::Cache(found),
            now_ms,
            random,
        ) is Done,
    ensures
        found is Some,
        token_resume_spec(
            account_id,
            token_safety_window_seconds,
            phase,
            TokenEventView::Cache(found),
            now_ms,
            random,
        ) == TokenStepView::Done(found->Some_0),
        phase matches TokenPhaseView::CacheLookup { start_ms } ==> is_fresh_spec(
            found->Some_0.expires_at_ms,
            start_ms,
            token_safety_window_seconds,
        ),
        phase matches TokenPhaseView::PollLookup { .. } ==> is_fresh_spec(
            found->Some_0.expires_at_ms,
            now_ms,
            token_safety_window_seconds,
        ),
        phase is CacheLookup || phase is PollLookup,
        ({
            let read_at = match phase {
                TokenPhaseView::CacheLookup { start_ms } => start_ms,
                _ => now_ms,
            };
            found->Some_0.expires_at_ms - read_at > safety_ms_spec(token_safety_window_seconds)
        }),
{
}

/// Nothing is written to the cache that is not fresh: a step that writes
/// `material` at `now_ms` is taken only if more than the safety window is
/// left of it, and the entry's lifetime is positive.
pub proof fn lemma_cache_write_is_fresh(
    account_id: Seq<char>,
    token_safety_window_seconds: i64,
    now_ms: i64,
    material: AuthMaterialView,
)
    requires
        store_spec(account_id, token_safety_window_seconds, now_ms, material) is Ask,
    ensures
        is_fresh_spec(material.expires_at_ms, now_ms, token_safety_window_seconds),
        ({
            let step = store_spec(account_id, token_safety_window_seconds, now_ms, material);
            step->ask matches TokenAskView::WriteCache { ttl_seconds, .. } && ttl_seconds > 0
        }),
{
    lemma_cached_material_is_fresh(material.expires_at_ms, now_ms, token_safety_window_seconds);
}

/// A token that is still too close to its expiry after the refresh is not
/// cached and fails the acquisition.
pub proof fn lemma_stale_token_is_refused(
    account_id: Seq<char>,
    token_safety_window_seconds: i64,
    now_ms: i64,
    data: TokenDataView,
    expires_at_ms: i64,
)
    requires
        token_safety_window_seconds >= 0,
        jwt_exp_ms_spec(data.access_token) == Ok::<i64, TokenError>(expires_at_ms),
        cache_ttl_spec(expires_at_ms, now_ms, token_safety_window_seconds) <= 0,
    ensures
        token_resume_spec(
            account_id,
            token_safety_window_seconds,
            TokenPhaseView::Credentials { refreshed: true },
            TokenEventView::Credentials(Some(data)),
            now_ms,
            None,
        ) == TokenStepView::Failed(TokenError::RefusedToCache),
{
}

/// How a replica waits for another one's refresh. At each look at the
/// cache, a fresh credential ends the wait and is used as it is, without a
/// call to the credential store. Without one, the replica pauses again
/// while the deadline has not come, and at or after the deadline it loads
/// the credentials itself, so that the wait never outlasts the deadline.
pub proof fn lemma_waiting_replica(
    account_id: Seq<char>,
    token_safety_window_seconds: i64,
    deadline_ms: i64,
    found: Option<AuthMaterialView>,
    now_ms: i64,
)
    ensures
        ({
            let step = token_resume_spec(
                account_id,
                token_safety_window_seconds,
                TokenPhaseView::PollLookup { deadline_ms },
                TokenEventView::Cache(found),
                now_ms,
                None,
            );
            let fresh = found is Some && is_fresh_spec(
                found->Some_0.expires_at_ms,
                now_ms,
                token_safety_window_seconds,
            );
            &&& fresh ==> step == TokenStepView::Done(found->Some_0)
            &&& !fresh && now_ms < deadline_ms ==> step == pause_step(deadline_ms)
            &&& !fresh && now_ms >= deadline_ms ==> step == load_step(false)
        }),
{
}

/// The deadline of a wait is `REFRESH_LOCK_TTL_MS` after the start of the
/// acquisition.
pub proof fn lemma_wait_deadline(
    account_id: Seq<char>,
    token_safety_window_seconds: i64,
    start_ms: i64,
    now_ms: i64,
)
    requires
        start_ms + REFRESH_LOCK_TTL_MS <= i64::MAX,
    ensures
        token_resume_spec(
            account_id,
            token_safety_window_seconds,
            TokenPhaseView::LockRequest { start_ms },
            TokenEventView::Lock(false),
            now_ms,
            None,
        ) == pause_step((start_ms + REFRESH_LOCK_TTL_MS) as i64),
{
}

} // verus!
