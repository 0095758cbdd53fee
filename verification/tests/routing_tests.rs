use axum::http::HeaderMap;
use codex_mgr::headers::header_map_of;
use codex_mgr::headers::HeaderField;
use codex_mgr::kv::Expiry;
use codex_mgr::kv::KvCommand;
use codex_mgr::kv::KvReply;
use codex_mgr::routing::extract_conversation_id;
use codex_mgr::routing::is_pool_member;
use codex_mgr::routing::route_account;
use codex_mgr::routing::route_account_resume;
use codex_mgr::routing::select_account_id;
use codex_mgr::routing::sticky_key;
use codex_mgr::routing::RouteError;
use codex_mgr::routing::RouteInfo;
use codex_mgr::routing::RoutePhase;
use codex_mgr::routing::RouteStep;
use std::collections::HashMap;

fn map_from(fields: &[HeaderField]) -> HeaderMap {
    header_map_of(fields).unwrap()
}

fn labels(names: &[&str]) -> Vec<String> {
    names.iter().map(|n| n.to_string()).collect()
}

/// A store with expiring keys, at a time that the test sets.
struct Store {
    now_ms: i64,
    entries: HashMap<String, (String, i64)>,
    writes: usize,
}

impl Store {
    fn new() -> Store {
        Store { now_ms: 0, entries: HashMap::new(), writes: 0 }
    }

    fn live(&self, key: &str) -> Option<String> {
        match self.entries.get(key) {
            Some((value, expires)) if self.now_ms < *expires => Some(value.clone()),
            _ => None,
        }
    }

    fn run(&mut self, command: KvCommand) -> KvReply {
        match command {
            KvCommand::Get { key } => KvReply::Value(self.live(&key)),
            KvCommand::Put { key, value, only_if_absent, expiry } => {
                if only_if_absent && self.live(&key).is_some() {
                    return KvReply::Stored(false);
                }
                let ttl_ms = match expiry {
                    Expiry::Seconds(s) => s * 1000,
                    Expiry::Millis(ms) => ms,
                };
                self.entries.insert(key, (value, self.now_ms + ttl_ms));
                self.writes += 1;
                KvReply::Stored(true)
            }
            _ => KvReply::Unavailable,
        }
    }
}

fn route(
    store: &mut Store,
    pool: &str,
    pool_labels: &[String],
    policy_key: Option<&str>,
    ttl: i64,
    conversation_id: Option<&str>,
    non_sticky_key: &str,
) -> Result<RouteInfo, RouteError> {
    let mut step = route_account(
        pool,
        pool_labels,
        policy_key,
        ttl,
        conversation_id.map(|c| c.to_string()),
        non_sticky_key,
    );
    loop {
        match step {
            RouteStep::Done(info) => return Ok(info),
            RouteStep::Failed(e) => return Err(e),
            RouteStep::Ask { command, phase } => {
                let reply = store.run(command);
                step = route_account_resume(
                    pool,
                    pool_labels,
                    policy_key,
                    ttl,
                    conversation_id.unwrap(),
                    phase,
                    reply,
                );
            }
        }
    }
}

#[test]
fn select_matches_known_digests() {
    let abc = labels(&["a", "b", "c"]);
    assert_eq!(select_account_id("p", None, "chat-1", &abc), Ok("a".to_string()));
    assert_eq!(select_account_id("p", None, "chat-2", &abc), Ok("b".to_string()));
    assert_eq!(select_account_id("p", Some("k1"), "chat-1", &abc), Ok("b".to_string()));
    assert_eq!(select_account_id("p", Some("k2"), "chat-1", &abc), Ok("a".to_string()));
    assert_eq!(
        select_account_id("p", None, "non-sticky:GET /v1/models", &abc),
        Ok("b".to_string())
    );
    assert_eq!(select_account_id("p", None, "chat-2", &labels(&["a", "c"])), Ok("c".to_string()));
    assert_eq!(select_account_id("pool-x", Some(""), "k", &labels(&["only"])), Ok("only".to_string()));
}

#[test]
fn select_is_deterministic_and_within_pool() {
    let pool = labels(&["a", "b", "c", "d", "e"]);
    for i in 0..200 {
        let key = format!("conversation-{i}");
        let first = select_account_id("p", Some("policy"), &key, &pool).unwrap();
        let second = select_account_id("p", Some("policy"), &key, &pool).unwrap();
        assert_eq!(first, second);
        assert!(pool.contains(&first));
    }
}

#[test]
fn select_empty_policy_key_equals_absent_policy_key() {
    let pool = labels(&["a", "b", "c"]);
    for i in 0..50 {
        let key = format!("k{i}");
        assert_eq!(
            select_account_id("p", Some(""), &key, &pool),
            select_account_id("p", None, &key, &pool)
        );
    }
}

#[test]
fn select_rejects_empty_pool() {
    assert_eq!(select_account_id("p", None, "k", &[]), Err(RouteError::NoLabels));
}

#[test]
fn sticky_key_hides_the_conversation_id() {
    assert_eq!(
        sticky_key("p", "chat-1"),
        "gw:sticky:p:6uuREbHGdEJ46AOXfb8l-9rGqbbTIkTskfwMgman9ls"
    );
    assert_eq!(
        sticky_key("pool", ""),
        "gw:sticky:pool:47DEQpj8HBSa-_TImW-5JCeuQeRkm5NMpJWZG3hSuFU"
    );
    assert_ne!(sticky_key("p", "chat-1"), sticky_key("p", "chat-2"));
}

#[test]
fn routing_rejects_empty_labels() {
    let mut store = Store::new();
    let r = route(&mut store, "p", &[], None, 7200, Some("chat-1"), "n");
    assert_eq!(r, Err(RouteError::NoLabels));
    let r = route(&mut store, "p", &[], None, 7200, None, "n");
    assert_eq!(r, Err(RouteError::NoLabels));
    assert_eq!(store.writes, 0);
}

#[test]
fn routing_rejects_non_positive_ttl() {
    let mut store = Store::new();
    let abc = labels(&["a", "b", "c"]);
    assert_eq!(
        route(&mut store, "p", &abc, None, 0, Some("chat-1"), "n"),
        Err(RouteError::InvalidStickyTtl)
    );
    assert_eq!(
        route(&mut store, "p", &abc, None, -5, None, "n"),
        Err(RouteError::InvalidStickyTtl)
    );
    // The empty pool is reported first.
    assert_eq!(route(&mut store, "p", &[], None, 0, None, "n"), Err(RouteError::NoLabels));
}

#[test]
fn routing_without_conversation_does_not_touch_the_store() {
    let mut store = Store::new();
    let abc = labels(&["a", "b", "c"]);
    let info = route(&mut store, "p", &abc, None, 7200, None, "non-sticky:GET /v1/models").unwrap();
    assert_eq!(
        info,
        RouteInfo {
            account_pool_id: "p".to_string(),
            account_id: "b".to_string(),
            conversation_id: None,
        }
    );
    assert!(store.entries.is_empty());
}

#[test]
fn sticky_hit_returns_binding_without_writing() {
    let mut store = Store::new();
    let abc = labels(&["a", "b", "c"]);
    let first = route(&mut store, "p", &abc, None, 7200, Some("chat-2"), "n").unwrap();
    assert_eq!(first.account_id, "b");
    assert_eq!(first.conversation_id, Some("chat-2".to_string()));
    assert_eq!(store.writes, 1);
    let key = sticky_key("p", "chat-2");
    assert_eq!(store.entries.get(&key), Some(&("b".to_string(), 7_200_000)));

    store.now_ms = 7_199_999;
    let second = route(&mut store, "p", &abc, None, 7200, Some("chat-2"), "n").unwrap();
    assert_eq!(second, first);
    assert_eq!(store.writes, 1);
    // The binding was not renewed.
    assert_eq!(store.entries.get(&key), Some(&("b".to_string(), 7_200_000)));
}

#[test]
fn sticky_hit_keeps_a_foreign_but_valid_binding() {
    let mut store = Store::new();
    let abc = labels(&["a", "b", "c"]);
    store.entries.insert(sticky_key("p", "chat-1"), ("c".to_string(), 1000));
    let info = route(&mut store, "p", &abc, None, 7200, Some("chat-1"), "n").unwrap();
    assert_eq!(info.account_id, "c");
    assert_eq!(store.writes, 0);
}

#[test]
fn sticky_repair_overwrites_a_binding_that_left_the_pool() {
    let mut store = Store::new();
    let abc = labels(&["a", "b", "c"]);
    let first = route(&mut store, "p", &abc, None, 7200, Some("chat-2"), "n").unwrap();
    assert_eq!(first.account_id, "b");

    store.now_ms = 5000;
    let ac = labels(&["a", "c"]);
    let repaired = route(&mut store, "p", &ac, None, 7200, Some("chat-2"), "n").unwrap();
    assert_eq!(repaired.account_id, "c");
    assert_eq!(store.writes, 2);
    assert_eq!(
        store.entries.get(&sticky_key("p", "chat-2")),
        Some(&("c".to_string(), 5000 + 7_200_000))
    );
}

#[test]
fn expired_binding_is_resolved_again() {
    let mut store = Store::new();
    let abc = labels(&["a", "b", "c"]);
    store.entries.insert(sticky_key("p", "chat-1"), ("c".to_string(), 1000));
    store.now_ms = 1000;
    let info = route(&mut store, "p", &abc, None, 60, Some("chat-1"), "n").unwrap();
    assert_eq!(info.account_id, "a");
    assert_eq!(store.writes, 1);
}

#[test]
fn first_step_of_a_sticky_request_reads_the_binding() {
    let abc = labels(&["a", "b", "c"]);
    let step = route_account("p", &abc, None, 7200, Some("chat-1".to_string()), "n");
    assert_eq!(
        step,
        RouteStep::Ask {
            command: KvCommand::Get {
                key: "gw:sticky:p:6uuREbHGdEJ46AOXfb8l-9rGqbbTIkTskfwMgman9ls".to_string()
            },
            phase: RoutePhase::Binding,
        }
    );
}

#[test]
fn absent_binding_is_claimed_only_if_absent() {
    let abc = labels(&["a", "b", "c"]);
    let step = route_account_resume(
        "p",
        &abc,
        None,
        7200,
        "chat-1",
        RoutePhase::Binding,
        KvReply::Value(None),
    );
    assert_eq!(
        step,
        RouteStep::Ask {
            command: KvCommand::Put {
                key: sticky_key("p", "chat-1"),
                value: "a".to_string(),
                only_if_absent: true,
                expiry: Expiry::Seconds(7200),
            },
            phase: RoutePhase::Claim { selected: "a".to_string() },
        }
    );
}

#[test]
fn lost_race_uses_the_winners_binding() {
    let abc = labels(&["a", "b", "c"]);
    let lost = route_account_resume(
        "p",
        &abc,
        None,
        7200,
        "chat-1",
        RoutePhase::Claim { selected: "a".to_string() },
        KvReply::Stored(false),
    );
    assert_eq!(
        lost,
        RouteStep::Ask {
            command: KvCommand::Get { key: sticky_key("p", "chat-1") },
            phase: RoutePhase::Reread { selected: "a".to_string() },
        }
    );
    let reread = route_account_resume(
        "p",
        &abc,
        None,
        7200,
        "chat-1",
        RoutePhase::Reread { selected: "a".to_string() },
        KvReply::Value(Some("c".to_string())),
    );
    assert_eq!(
        reread,
        RouteStep::Done(RouteInfo {
            account_pool_id: "p".to_string(),
            account_id: "c".to_string(),
            conversation_id: Some("chat-1".to_string()),
        })
    );
    let vanished = route_account_resume(
        "p",
        &abc,
        None,
        7200,
        "chat-1",
        RoutePhase::Reread { selected: "a".to_string() },
        KvReply::Value(None),
    );
    assert!(matches!(vanished, RouteStep::Done(info) if info.account_id == "a"));
}

#[test]
fn store_failure_fails_routing() {
    let abc = labels(&["a", "b", "c"]);
    for phase in [
        RoutePhase::Binding,
        RoutePhase::Repair { selected: "a".to_string() },
        RoutePhase::Claim { selected: "a".to_string() },
        RoutePhase::Reread { selected: "a".to_string() },
    ] {
        let step =
            route_account_resume("p", &abc, None, 7200, "chat-1", phase, KvReply::Unavailable);
        assert_eq!(step, RouteStep::Failed(RouteError::KvUnavailable));
    }
    // A reply that does not answer the command is a failure of the store too.
    let step = route_account_resume(
        "p",
        &abc,
        None,
        7200,
        "chat-1",
        RoutePhase::Binding,
        KvReply::Stored(true),
    );
    assert_eq!(step, RouteStep::Failed(RouteError::KvUnavailable));
}

#[test]
fn pool_membership_is_exact() {
    let abc = labels(&["a", "b", "c"]);
    assert!(is_pool_member(&abc, &"b".to_string()));
    assert!(!is_pool_member(&abc, &"B".to_string()));
    assert!(!is_pool_member(&abc, &"".to_string()));
    assert!(!is_pool_member(&[], &"a".to_string()));
}

#[test]
fn conversation_id_prefers_conversation_header() {
    let headers = vec![
        HeaderField::new("session_id", b"s-1").unwrap(),
        HeaderField::new("conversation_id", b"  c-1\t").unwrap(),
    ];
    assert_eq!(extract_conversation_id(&map_from(&headers)), Some("c-1".to_string()));
}

#[test]
fn conversation_id_falls_back_to_session_header() {
    let blank = vec![
        HeaderField::new("conversation_id", b"   ").unwrap(),
        HeaderField::new("session_id", b"s-1").unwrap(),
    ];
    assert_eq!(extract_conversation_id(&map_from(&blank)), Some("s-1".to_string()));
    let binary = vec![
        HeaderField::new("conversation_id", b"caf\xc3\xa9").unwrap(),
        HeaderField::new("session_id", b"s-2").unwrap(),
    ];
    assert_eq!(extract_conversation_id(&map_from(&binary)), Some("s-2".to_string()));
    assert_eq!(extract_conversation_id(&HeaderMap::new()), None);
}

#[test]
fn conversation_id_reads_only_the_first_field_of_a_name() {
    let headers = vec![
        HeaderField::new("conversation_id", b"").unwrap(),
        HeaderField::new("conversation_id", b"second").unwrap(),
    ];
    assert_eq!(extract_conversation_id(&map_from(&headers)), None);
}

#[test]
fn resuming_with_a_ttl_that_is_not_positive_writes_nothing() {
    let abc = labels(&["a", "b", "c"]);
    for ttl in [0, -1, i64::MIN] {
        for reply in [KvReply::Value(None), KvReply::Value(Some("gone".to_string()))] {
            let step =
                route_account_resume("p", &abc, None, ttl, "chat-1", RoutePhase::Binding, reply);
            assert_eq!(step, RouteStep::Failed(RouteError::InvalidStickyTtl));
        }
    }
    // An empty pool is refused first.
    let step = route_account_resume(
        "p",
        &[],
        None,
        0,
        "chat-1",
        RoutePhase::Binding,
        KvReply::Value(None),
    );
    assert_eq!(step, RouteStep::Failed(RouteError::NoLabels));
}
