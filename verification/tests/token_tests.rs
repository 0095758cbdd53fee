use base64::Engine;
use codex_mgr::account_token_provider::cache_key;
use codex_mgr::account_token_provider::cache_ttl_seconds;
use codex_mgr::account_token_provider::compose_material;
use codex_mgr::account_token_provider::expiry_from_claim;
use codex_mgr::account_token_provider::get;
use codex_mgr::account_token_provider::is_fresh;
use codex_mgr::account_token_provider::jwt_exp_ms;
use codex_mgr::account_token_provider::jwt_payload_segment;
use codex_mgr::account_token_provider::load_from_auth;
use codex_mgr::account_token_provider::lock_command;
use codex_mgr::account_token_provider::lock_key;
use codex_mgr::account_token_provider::lock_value;
use codex_mgr::account_token_provider::put_cached;
use codex_mgr::account_token_provider::random_value;
use codex_mgr::account_token_provider::read_cache_command;
use codex_mgr::account_token_provider::resume;
use codex_mgr::account_token_provider::resume_with;
use codex_mgr::account_token_provider::write_cache_command;
use codex_mgr::account_token_provider::AuthMaterial;
use codex_mgr::account_token_provider::TokenAsk;
use codex_mgr::account_token_provider::TokenData;
use codex_mgr::account_token_provider::TokenError;
use codex_mgr::account_token_provider::TokenEvent;
use codex_mgr::account_token_provider::TokenPhase;
use codex_mgr::account_token_provider::TokenStep;
use codex_mgr::account_token_provider::LOCK_WAIT_POLL_MS;
use codex_mgr::account_token_provider::REFRESH_LOCK_TTL_MS;
use codex_mgr::kv::Expiry;
use codex_mgr::kv::KvCommand;

fn jwt_with_payload(payload: &[u8]) -> String {
    let engine = base64::engine::general_purpose::URL_SAFE_NO_PAD;
    format!("{}.{}.sig", engine.encode(b"{\"alg\":\"none\"}"), engine.encode(payload))
}

fn jwt(exp: i64) -> String {
    jwt_with_payload(format!("{{\"exp\":{exp},\"sub\":\"x\"}}").as_bytes())
}

fn material(expires_at_ms: i64) -> AuthMaterial {
    AuthMaterial {
        authorization: "Bearer cached".to_string(),
        chatgpt_account_id: Some("acct".to_string()),
        expires_at_ms,
    }
}

fn data(exp: i64) -> TokenData {
    TokenData { access_token: jwt(exp), chatgpt_account_id: Some("ws-1".to_string()) }
}

#[test]
fn keys_of_an_account() {
    assert_eq!(cache_key("acct-9"), "gw:acct_token:acct-9");
    assert_eq!(lock_key("acct-9"), "gw:lock:acct_token_refresh:acct-9");
    assert_eq!(REFRESH_LOCK_TTL_MS, 15_000);
    assert_eq!(LOCK_WAIT_POLL_MS, 200);
}

#[test]
fn freshness_needs_more_than_the_safety_window() {
    assert!(is_fresh(120_001, 0, 120));
    assert!(!is_fresh(120_000, 0, 120));
    assert!(!is_fresh(0, 1, 0));
    assert!(is_fresh(1, 0, 0));
    assert!(!is_fresh(i64::MAX, 0, i64::MAX));
    assert!(is_fresh(i64::MAX, i64::MIN, 1));
    assert!(!is_fresh(i64::MIN, i64::MAX, 0));
}

#[test]
fn cache_ttl_is_whole_seconds_less_the_window() {
    assert_eq!(cache_ttl_seconds(1_000_000, 0, 120), Ok(880));
    assert_eq!(cache_ttl_seconds(1_000_999, 0, 120), Ok(880));
    assert_eq!(cache_ttl_seconds(121_000, 0, 120), Ok(1));
    assert_eq!(cache_ttl_seconds(120_999, 0, 120), Err(TokenError::RefusedToCache));
    assert_eq!(cache_ttl_seconds(120_000, 0, 120), Err(TokenError::RefusedToCache));
    assert_eq!(cache_ttl_seconds(0, 5_000, 0), Err(TokenError::RefusedToCache));
    assert_eq!(cache_ttl_seconds(0, 999, 0), Err(TokenError::RefusedToCache));
    assert_eq!(cache_ttl_seconds(1_000, 0, 0), Ok(1));
    assert_eq!(cache_ttl_seconds(5_000, 0, -1), Err(TokenError::NegativeSafetyWindow));
    assert_eq!(cache_ttl_seconds(i64::MAX, i64::MIN, 0), Ok(i64::MAX / 1000));
    assert_eq!(cache_ttl_seconds(i64::MIN, i64::MAX, i64::MAX), Err(TokenError::RefusedToCache));
}

#[test]
fn jwt_payload_is_the_second_segment() {
    assert_eq!(jwt_payload_segment("a.b.c"), Ok("b".to_string()));
    assert_eq!(jwt_payload_segment("a.b.c.d"), Ok("b".to_string()));
    assert_eq!(jwt_payload_segment("..") , Ok(String::new()));
    assert_eq!(jwt_payload_segment("a..c"), Ok(String::new()));
    assert_eq!(jwt_payload_segment(""), Err(TokenError::JwtMissingPayload));
    assert_eq!(jwt_payload_segment("abc"), Err(TokenError::JwtMissingPayload));
    assert_eq!(jwt_payload_segment("a.b"), Err(TokenError::JwtMissingSignature));
    assert_eq!(jwt_payload_segment("a."), Err(TokenError::JwtMissingSignature));
}

#[test]
fn jwt_expiry_in_milliseconds() {
    assert_eq!(
        jwt_exp_ms("eyJhbGciOiJub25lIn0.eyJleHAiOiAxNzAwMDAwMDAwLCAic3ViIjogIngifQ.sig"),
        Ok(1_700_000_000_000)
    );
    assert_eq!(jwt_exp_ms(&jwt(1)), Ok(1000));
    assert_eq!(jwt_exp_ms(&jwt(0)), Ok(0));
    assert_eq!(jwt_exp_ms(&jwt(-7)), Ok(-7000));
    assert_eq!(jwt_exp_ms(&jwt(i64::MAX)), Ok(i64::MAX));
    assert_eq!(jwt_exp_ms(&jwt(i64::MIN)), Ok(i64::MIN));
    assert_eq!(jwt_exp_ms(&jwt(i64::MAX / 1000)), Ok(i64::MAX / 1000 * 1000));
    assert_eq!(jwt_exp_ms(&jwt(i64::MAX / 1000 + 1)), Ok(i64::MAX));
}

#[test]
fn jwt_errors_are_distinct() {
    assert_eq!(jwt_exp_ms("nodots"), Err(TokenError::JwtMissingPayload));
    assert_eq!(jwt_exp_ms("a.b"), Err(TokenError::JwtMissingSignature));
    assert_eq!(jwt_exp_ms("a.!!!.c"), Err(TokenError::JwtPayloadEncoding));
    assert_eq!(jwt_exp_ms("a.eyJ9=.c"), Err(TokenError::JwtPayloadEncoding));
    assert_eq!(jwt_exp_ms(&jwt_with_payload(b"not json")), Err(TokenError::JwtPayloadClaims));
    assert_eq!(jwt_exp_ms(&jwt_with_payload(b"{}")), Err(TokenError::JwtPayloadClaims));
    assert_eq!(
        jwt_exp_ms(&jwt_with_payload(b"{\"exp\":\"soon\"}")),
        Err(TokenError::JwtPayloadClaims)
    );
    assert_eq!(jwt_exp_ms(&jwt_with_payload(b"{\"exp\":1.5}")), Err(TokenError::JwtPayloadClaims));
    assert_eq!(jwt_exp_ms(&jwt_with_payload(b"[1]")), Err(TokenError::JwtPayloadClaims));
    assert_eq!(jwt_exp_ms("a..c"), Err(TokenError::JwtPayloadClaims));
}

#[test]
fn expiry_from_claim_saturates() {
    assert_eq!(expiry_from_claim(None), Err(TokenError::JwtPayloadClaims));
    assert_eq!(expiry_from_claim(Some(2)), Ok(2000));
    assert_eq!(expiry_from_claim(Some(i64::MAX)), Ok(i64::MAX));
    assert_eq!(expiry_from_claim(Some(i64::MIN)), Ok(i64::MIN));
}

#[test]
fn lock_value_is_base64url_of_the_random_bytes() {
    assert_eq!(lock_value(&[0u8; 16]), "AAAAAAAAAAAAAAAAAAAAAA");
    assert_eq!(lock_value(&[0xff; 16]), "_____________________w");
    assert_eq!(lock_value(b"0123456789abcdef"), "MDEyMzQ1Njc4OWFiY2RlZg");
}

#[test]
fn random_values_are_fresh() {
    let a = random_value().unwrap();
    let b = random_value().unwrap();
    assert_eq!(a.len(), 22);
    assert_ne!(a, b);
    let decoded = base64::engine::general_purpose::URL_SAFE_NO_PAD.decode(&a).unwrap();
    assert_eq!(decoded.len(), 16);
}

#[test]
fn material_carries_the_bearer_prefix() {
    let m = compose_material(
        TokenData { access_token: "tok".to_string(), chatgpt_account_id: None },
        42,
    );
    assert_eq!(
        m,
        AuthMaterial {
            authorization: "Bearer tok".to_string(),
            chatgpt_account_id: None,
            expires_at_ms: 42,
        }
    );
}

#[test]
fn acquisition_rejects_a_negative_safety_window() {
    assert_eq!(get("acct-9", -1, 0), TokenStep::Failed(TokenError::NegativeSafetyWindow));
}

#[test]
fn acquisition_begins_with_the_cache() {
    assert_eq!(
        get("acct-9", 120, 777),
        TokenStep::Ask {
            ask: TokenAsk::ReadCache { key: "gw:acct_token:acct-9".to_string() },
            phase: TokenPhase::CacheLookup { start_ms: 777 },
        }
    );
}

#[test]
fn fresh_cache_hit_ends_the_acquisition() {
    let step = resume_with(
        "acct-9",
        120,
        TokenPhase::CacheLookup { start_ms: 1000 },
        TokenEvent::Cache(Some(material(121_001))),
        // The first look is judged at the start of the acquisition.
        9_999_999,
        None,
    );
    assert_eq!(step, TokenStep::Done(material(121_001)));
}

#[test]
fn stale_or_missing_cache_asks_for_the_lock() {
    for found in [None, Some(material(121_000))] {
        let step = resume_with(
            "acct-9",
            120,
            TokenPhase::CacheLookup { start_ms: 1000 },
            TokenEvent::Cache(found),
            1000,
            Some(vec![0u8; 16]),
        );
        assert_eq!(
            step,
            TokenStep::Ask {
                ask: TokenAsk::AcquireLock {
                    key: "gw:lock:acct_token_refresh:acct-9".to_string(),
                    value: "AAAAAAAAAAAAAAAAAAAAAA".to_string(),
                    ttl_ms: 15_000,
                },
                phase: TokenPhase::LockRequest { start_ms: 1000 },
            }
        );
    }
}

#[test]
fn missing_randomness_fails_the_acquisition() {
    let step = resume_with(
        "acct-9",
        120,
        TokenPhase::CacheLookup { start_ms: 0 },
        TokenEvent::Cache(None),
        0,
        None,
    );
    assert_eq!(step, TokenStep::Failed(TokenError::RandomUnavailable));
}

#[test]
fn resume_draws_its_own_lock_value() {
    let step = resume("acct-9", 120, TokenPhase::CacheLookup { start_ms: 0 }, TokenEvent::Cache(None), 0);
    match step {
        TokenStep::Ask { ask: TokenAsk::AcquireLock { key, value, ttl_ms }, phase } => {
            assert_eq!(key, "gw:lock:acct_token_refresh:acct-9");
            assert_eq!(value.len(), 22);
            assert_eq!(ttl_ms, 15_000);
            assert_eq!(phase, TokenPhase::LockRequest { start_ms: 0 });
        }
        other => panic!("{other:?}"),
    }
    let step = resume("acct-9", 120, TokenPhase::Refresh, TokenEvent::Refreshed(true), 0);
    assert_eq!(
        step,
        TokenStep::Ask {
            ask: TokenAsk::LoadCredentials,
            phase: TokenPhase::Credentials { refreshed: true },
        }
    );
}

/// Drives one acquisition against scripted answers.
struct Replica {
    now_ms: i64,
    cache: Option<AuthMaterial>,
    cache_appears_at_ms: Option<(i64, AuthMaterial)>,
    lock_free: bool,
    credentials: Vec<Option<TokenData>>,
    refresh_ok: bool,
    loads: usize,
    refreshes: usize,
    sleeps: usize,
    written: Vec<(String, AuthMaterial, i64)>,
}

impl Replica {
    fn new() -> Replica {
        Replica {
            now_ms: 0,
            cache: None,
            cache_appears_at_ms: None,
            lock_free: true,
            credentials: vec![],
            refresh_ok: true,
            loads: 0,
            refreshes: 0,
            sleeps: 0,
            written: vec![],
        }
    }

    fn acquire(&mut self, safety: i64) -> Result<AuthMaterial, TokenError> {
        let mut step = get("acct-9", safety, self.now_ms);
        loop {
            let (ask, phase) = match step {
                TokenStep::Done(m) => return Ok(m),
                TokenStep::Failed(e) => return Err(e),
                TokenStep::Ask { ask, phase } => (ask, phase),
            };
            let event = match ask {
                TokenAsk::ReadCache { key } => {
                    assert_eq!(key, "gw:acct_token:acct-9");
                    if let Some((at, m)) = &self.cache_appears_at_ms {
                        if self.now_ms >= *at {
                            self.cache = Some(m.clone());
                        }
                    }
                    TokenEvent::Cache(self.cache.clone())
                }
                TokenAsk::AcquireLock { key, ttl_ms, .. } => {
                    assert_eq!(key, "gw:lock:acct_token_refresh:acct-9");
                    assert_eq!(ttl_ms, 15_000);
                    TokenEvent::Lock(self.lock_free)
                }
                TokenAsk::Sleep { millis } => {
                    assert_eq!(millis, 200);
                    self.sleeps += 1;
                    self.now_ms += millis;
                    TokenEvent::Slept
                }
                TokenAsk::LoadCredentials => {
                    self.loads += 1;
                    TokenEvent::Credentials(self.credentials.remove(0))
                }
                TokenAsk::RefreshCredentials => {
                    self.refreshes += 1;
                    TokenEvent::Refreshed(self.refresh_ok)
                }
                TokenAsk::WriteCache { key, material, ttl_seconds } => {
                    self.written.push((key, material.clone(), ttl_seconds));
                    self.cache = Some(material);
                    TokenEvent::CacheWritten
                }
            };
            step = resume("acct-9", safety, phase, event, self.now_ms);
        }
    }
}

#[test]
fn lock_holder_loads_and_caches() {
    let mut x = Replica::new();
    x.now_ms = 1_000_000;
    x.credentials = vec![Some(data(2_000))];
    let m = x.acquire(120).unwrap();
    assert_eq!(m.authorization, format!("Bearer {}", jwt(2_000)));
    assert_eq!(m.chatgpt_account_id, Some("ws-1".to_string()));
    assert_eq!(m.expires_at_ms, 2_000_000);
    assert_eq!(x.loads, 1);
    assert_eq!(x.refreshes, 0);
    assert_eq!(
        x.written,
        vec![("gw:acct_token:acct-9".to_string(), m.clone(), (2_000_000 - 1_000_000) / 1000 - 120)]
    );
}

#[test]
fn single_flight_waiter_takes_the_winners_material() {
    // Replica X holds the lock and writes the cache 150 ms later.
    let mut y = Replica::new();
    y.now_ms = 1_000_000;
    y.lock_free = false;
    y.cache_appears_at_ms = Some((1_000_150, material(5_000_000)));
    let m = y.acquire(120).unwrap();
    assert_eq!(m, material(5_000_000));
    assert_eq!(y.sleeps, 1);
    assert_eq!(y.loads, 0);
    assert_eq!(y.refreshes, 0);
    assert!(y.written.is_empty());
}

#[test]
fn waiter_refreshes_itself_after_the_lock_holder_crashed() {
    let mut y = Replica::new();
    y.now_ms = 1_000_000;
    y.lock_free = false;
    y.credentials = vec![Some(data(3_000))];
    let m = y.acquire(120).unwrap();
    assert_eq!(m.expires_at_ms, 3_000_000);
    // 15 000 ms of waiting in steps of 200 ms.
    assert_eq!(y.sleeps, 75);
    assert_eq!(y.now_ms, 1_015_000);
    assert_eq!(y.loads, 1);
    assert_eq!(y.written.len(), 1);
    assert_eq!(y.written[0].2, (3_000_000 - 1_015_000) / 1000 - 120);
}

#[test]
fn waiter_ignores_a_stale_cache_entry() {
    let mut y = Replica::new();
    y.now_ms = 1_000_000;
    y.lock_free = false;
    y.cache = Some(material(1_000_000 + 120_000));
    y.credentials = vec![Some(data(3_000))];
    let m = y.acquire(120).unwrap();
    assert_eq!(m.expires_at_ms, 3_000_000);
    assert_eq!(y.sleeps, 75);
}

#[test]
fn stale_token_is_refreshed_once() {
    let mut x = Replica::new();
    x.now_ms = 1_000_000;
    x.credentials = vec![Some(data(1_100)), Some(data(9_000))];
    let m = x.acquire(120).unwrap();
    assert_eq!(m.expires_at_ms, 9_000_000);
    assert_eq!(x.refreshes, 1);
    assert_eq!(x.loads, 2);
}

#[test]
fn expired_token_after_refresh_is_refused() {
    let mut x = Replica::new();
    x.now_ms = 1_700_000_000_000;
    x.credentials = vec![Some(data(1)), Some(data(1))];
    assert_eq!(x.acquire(120), Err(TokenError::RefusedToCache));
    assert_eq!(x.refreshes, 1);
    assert!(x.written.is_empty());
    assert!(x.cache.is_none());
}

#[test]
fn credential_failures_are_distinct() {
    let mut x = Replica::new();
    x.credentials = vec![None];
    assert_eq!(x.acquire(0), Err(TokenError::MissingAuth));

    let mut x = Replica::new();
    x.now_ms = 1_000_000;
    x.credentials = vec![Some(data(1_000))];
    x.refresh_ok = false;
    assert_eq!(x.acquire(120), Err(TokenError::RefreshFailed));

    let mut x = Replica::new();
    x.now_ms = 1_000_000;
    x.credentials = vec![Some(data(1_000)), None];
    assert_eq!(x.acquire(120), Err(TokenError::MissingAuth));

    let mut x = Replica::new();
    x.credentials =
        vec![Some(TokenData { access_token: "garbage".to_string(), chatgpt_account_id: None })];
    assert_eq!(x.acquire(0), Err(TokenError::JwtMissingPayload));
}

#[test]
fn store_failure_ends_every_phase() {
    for phase in [
        TokenPhase::CacheLookup { start_ms: 0 },
        TokenPhase::LockRequest { start_ms: 0 },
        TokenPhase::Pause { deadline_ms: 0 },
        TokenPhase::PollLookup { deadline_ms: 0 },
        TokenPhase::Credentials { refreshed: false },
        TokenPhase::Refresh,
        TokenPhase::CacheWrite { material: material(0) },
    ] {
        let step = resume_with("a", 0, phase, TokenEvent::KvUnavailable, 0, None);
        assert_eq!(step, TokenStep::Failed(TokenError::KvUnavailable));
    }
}

#[test]
fn unreadable_records_and_stray_events() {
    let step = resume_with(
        "a",
        0,
        TokenPhase::CacheLookup { start_ms: 0 },
        TokenEvent::CacheUnreadable,
        0,
        None,
    );
    assert_eq!(step, TokenStep::Failed(TokenError::CacheUnreadable));
    let step = resume_with(
        "a",
        0,
        TokenPhase::PollLookup { deadline_ms: 0 },
        TokenEvent::CacheUnreadable,
        0,
        None,
    );
    assert_eq!(step, TokenStep::Failed(TokenError::CacheUnreadable));
    let step = resume_with(
        "a",
        0,
        TokenPhase::Credentials { refreshed: false },
        TokenEvent::CredentialsUnreadable,
        0,
        None,
    );
    assert_eq!(step, TokenStep::Failed(TokenError::TokenDataUnreadable));
    let step = resume_with("a", 0, TokenPhase::Refresh, TokenEvent::Slept, 0, None);
    assert_eq!(step, TokenStep::Failed(TokenError::UnexpectedEvent));
}

#[test]
fn poll_is_judged_at_the_time_of_the_look() {
    let fresh_until = material(200_000);
    let step = resume_with(
        "a",
        100,
        TokenPhase::PollLookup { deadline_ms: 1_000_000 },
        TokenEvent::Cache(Some(fresh_until.clone())),
        99_999,
        None,
    );
    assert_eq!(step, TokenStep::Done(fresh_until.clone()));
    let step = resume_with(
        "a",
        100,
        TokenPhase::PollLookup { deadline_ms: 1_000_000 },
        TokenEvent::Cache(Some(fresh_until.clone())),
        100_000,
        None,
    );
    assert_eq!(
        step,
        TokenStep::Ask {
            ask: TokenAsk::Sleep { millis: 200 },
            phase: TokenPhase::Pause { deadline_ms: 1_000_000 },
        }
    );
    let step = resume_with(
        "a",
        100,
        TokenPhase::PollLookup { deadline_ms: 100_000 },
        TokenEvent::Cache(Some(fresh_until)),
        100_000,
        None,
    );
    assert_eq!(
        step,
        TokenStep::Ask {
            ask: TokenAsk::LoadCredentials,
            phase: TokenPhase::Credentials { refreshed: false },
        }
    );
}

#[test]
fn deadline_saturates() {
    let step = resume_with(
        "a",
        0,
        TokenPhase::LockRequest { start_ms: i64::MAX - 5 },
        TokenEvent::Lock(false),
        0,
        None,
    );
    assert_eq!(
        step,
        TokenStep::Ask {
            ask: TokenAsk::Sleep { millis: 200 },
            phase: TokenPhase::Pause { deadline_ms: i64::MAX },
        }
    );
}

#[test]
fn put_cached_refuses_near_expiry() {
    assert_eq!(put_cached("a", material(120_999), 120, 0), TokenStep::Failed(TokenError::RefusedToCache));
    assert_eq!(
        put_cached("a", material(121_000), 120, 0),
        TokenStep::Ask {
            ask: TokenAsk::WriteCache {
                key: "gw:acct_token:a".to_string(),
                material: material(121_000),
                ttl_seconds: 1,
            },
            phase: TokenPhase::CacheWrite { material: material(121_000) },
        }
    );
}

#[test]
fn load_from_auth_fresh_but_not_cacheable_is_refused_without_refresh() {
    // 120.5 s are left: more than the window, yet less than one cacheable second.
    let step = load_from_auth("a", 120, 1_000_000 - 120_500, data(1_000), false);
    assert_eq!(step, TokenStep::Failed(TokenError::RefusedToCache));
}

#[test]
fn commands_of_the_acquisition() {
    assert_eq!(
        read_cache_command("gw:acct_token:a".to_string()),
        KvCommand::Get { key: "gw:acct_token:a".to_string() }
    );
    assert_eq!(
        lock_command("gw:lock:acct_token_refresh:a".to_string(), "nonce".to_string(), 15_000),
        KvCommand::Put {
            key: "gw:lock:acct_token_refresh:a".to_string(),
            value: "nonce".to_string(),
            only_if_absent: true,
            expiry: Expiry::Millis(15_000),
        }
    );
    assert_eq!(
        write_cache_command("gw:acct_token:a".to_string(), "{}".to_string(), 880),
        KvCommand::Put {
            key: "gw:acct_token:a".to_string(),
            value: "{}".to_string(),
            only_if_absent: false,
            expiry: Expiry::Seconds(880),
        }
    );
}
