use codex_mgr::config::PoolConfig;
use codex_mgr::config::PoolEntry;
use codex_mgr::gateway::expires_in_seconds;
use codex_mgr::gateway::generate_gateway_token;
use codex_mgr::gateway::issue;
use codex_mgr::gateway::issue_with;
use codex_mgr::gateway::revoke;
use codex_mgr::gateway::GatewayError;
use codex_mgr::gateway::IssuedSession;
use codex_mgr::gateway::DEFAULT_SESSION_TTL_SECONDS;
use codex_mgr::gateway_sessions::GatewaySession;
use codex_mgr::kv::KvReply;
use codex_mgr::label::NameError;
use codex_mgr::pools::merge_policy_key;
use codex_mgr::pools::normalize_labels;
use codex_mgr::pools::validate_pool;
use codex_mgr::pools::PoolError;

fn pools() -> Vec<PoolEntry> {
    vec![
        PoolEntry {
            pool_id: "team".to_string(),
            pool: PoolConfig {
                labels: vec!["a".to_string()],
                policy_key: Some("k".to_string()),
            },
        },
        PoolEntry {
            pool_id: "empty".to_string(),
            pool: PoolConfig { labels: vec![], policy_key: None },
        },
    ]
}

fn strings(items: &[&str]) -> Vec<String> {
    items.iter().map(|s| s.to_string()).collect()
}

#[test]
fn gateway_token_format() {
    assert_eq!(
        generate_gateway_token(&[0u8; 32]),
        "gw_AAAAAAAAAAAAAAAAAAAAAAAAAAAAAAAAAAAAAAAAAAA"
    );
    assert_eq!(generate_gateway_token(b"hi"), "gw_aGk");
}

#[test]
fn issue_for_a_configured_pool() {
    let issued = issue_with(
        &pools(),
        "team",
        Some(60),
        Some("ci".to_string()),
        1_000,
        Some(vec![0u8; 32]),
    );
    assert_eq!(
        issued,
        Ok(IssuedSession {
            token: "gw_AAAAAAAAAAAAAAAAAAAAAAAAAAAAAAAAAAAAAAAAAAA".to_string(),
            session: GatewaySession {
                account_pool_id: "team".to_string(),
                policy_key: Some("k".to_string()),
                issued_at_ms: 1_000,
                expires_at_ms: 61_000,
                note: Some("ci".to_string()),
            },
            ttl_seconds: 60,
        })
    );
}

#[test]
fn issue_for_the_default_pool_needs_no_configuration() {
    let issued = issue_with(&[], "default", None, None, 5, Some(vec![1u8; 32])).unwrap();
    assert_eq!(issued.ttl_seconds, DEFAULT_SESSION_TTL_SECONDS);
    assert_eq!(issued.ttl_seconds, 86_400);
    assert_eq!(issued.session.policy_key, None);
    assert_eq!(issued.session.expires_at_ms, 5 + 86_400_000);
}

#[test]
fn issue_errors_in_order() {
    assert_eq!(issue_with(&pools(), "nope", Some(0), None, 0, None), Err(GatewayError::UnknownPool));
    assert_eq!(issue_with(&pools(), "empty", Some(0), None, 0, None), Err(GatewayError::EmptyPool));
    assert_eq!(issue_with(&pools(), "team", Some(0), None, 0, None), Err(GatewayError::InvalidTtl));
    assert_eq!(issue_with(&pools(), "team", Some(-1), None, 0, None), Err(GatewayError::InvalidTtl));
    assert_eq!(
        issue_with(&pools(), "team", Some(1), None, 0, None),
        Err(GatewayError::RandomUnavailable)
    );
}

#[test]
fn issue_expiry_saturates() {
    let issued =
        issue_with(&pools(), "team", Some(i64::MAX), None, 10, Some(vec![0u8; 32])).unwrap();
    assert_eq!(issued.session.expires_at_ms, i64::MAX);
    let issued = issue_with(&pools(), "team", Some(1), None, i64::MAX, Some(vec![0u8; 32])).unwrap();
    assert_eq!(issued.session.expires_at_ms, i64::MAX);
}

#[test]
fn issued_tokens_are_random() {
    let a = issue(&pools(), "team", None, None, 0).unwrap();
    let b = issue(&pools(), "team", None, None, 0).unwrap();
    assert!(a.token.starts_with("gw_"));
    assert_eq!(a.token.len(), 3 + 43);
    assert_ne!(a.token, b.token);
}

#[test]
fn remaining_lifetime_in_seconds() {
    assert_eq!(expires_in_seconds(61_000, 1_000), 60);
    assert_eq!(expires_in_seconds(61_999, 1_000), 60);
    assert_eq!(expires_in_seconds(1_000, 1_000), 0);
    assert_eq!(expires_in_seconds(0, 1_500), -1);
    assert_eq!(expires_in_seconds(i64::MIN, i64::MAX), i64::MIN / 1000);
}

#[test]
fn revoking_needs_an_existing_session() {
    assert_eq!(revoke(&KvReply::Deleted(1)), Ok(()));
    assert_eq!(revoke(&KvReply::Deleted(0)), Err(GatewayError::SessionNotFound));
    assert_eq!(revoke(&KvReply::Unavailable), Err(GatewayError::KvUnavailable));
}

#[test]
fn pool_requests_are_validated_in_order() {
    assert_eq!(validate_pool("team", &strings(&["a", "b"])), Ok(()));
    assert_eq!(
        validate_pool("", &[]),
        Err(PoolError::InvalidPoolId(NameError::Empty))
    );
    assert_eq!(
        validate_pool("bad id", &strings(&["a"])),
        Err(PoolError::InvalidPoolId(NameError::Invalid))
    );
    assert_eq!(validate_pool("team", &[]), Err(PoolError::NoLabels));
    assert_eq!(
        validate_pool("team", &strings(&["a", "..", ""])),
        Err(PoolError::InvalidLabel { index: 1, reason: NameError::Reserved })
    );
    assert_eq!(
        validate_pool("team", &strings(&["a", "b", "c/d"])),
        Err(PoolError::InvalidLabel { index: 2, reason: NameError::Invalid })
    );
}

#[test]
fn labels_are_sorted_and_deduplicated() {
    assert_eq!(
        normalize_labels(strings(&["b", "a", "c", "a", "b", "B", "ab", ""])),
        strings(&["", "B", "a", "ab", "b", "c"])
    );
    assert_eq!(normalize_labels(vec![]), Vec::<String>::new());
    assert_eq!(normalize_labels(strings(&["x", "x", "x"])), strings(&["x"]));
    let mut expected = strings(&["z", "\u{e9}", "e", "\u{10000}", "\u{ffff}", "e"]);
    expected.sort();
    expected.dedup();
    assert_eq!(
        normalize_labels(strings(&["z", "\u{e9}", "e", "\u{10000}", "\u{ffff}", "e"])),
        expected
    );
}

#[test]
fn policy_key_of_a_written_pool() {
    assert_eq!(merge_policy_key(Some("new"), Some("old".to_string())), Some("new".to_string()));
    assert_eq!(merge_policy_key(Some(" new "), None), Some(" new ".to_string()));
    assert_eq!(merge_policy_key(Some(""), Some("old".to_string())), None);
    assert_eq!(merge_policy_key(Some("  "), Some("old".to_string())), None);
    assert_eq!(merge_policy_key(None, Some("old".to_string())), Some("old".to_string()));
    assert_eq!(merge_policy_key(None, None), None);
}
