use codex_mgr::config::find_pool;
use codex_mgr::config::has_unique_pool_ids;
use codex_mgr::config::is_blank;
use codex_mgr::config::load;
use codex_mgr::config::ConfigError;
use codex_mgr::config::GatewayConfig;
use codex_mgr::config::ManagerConfig;
use codex_mgr::config::PoolConfig;
use codex_mgr::config::PoolEntry;
use codex_mgr::config::RawGatewayConfig;
use codex_mgr::config::DEFAULT_STICKY_TTL_SECONDS;
use codex_mgr::config::DEFAULT_TOKEN_SAFETY_WINDOW_SECONDS;
use codex_mgr::label::validate_pool_id;
use codex_mgr::label::NameError;
use codex_mgr::num::div_1000;
use codex_mgr::num::saturating_add;
use codex_mgr::num::saturating_mul_1000;
use codex_mgr::num::saturating_sub;
use codex_mgr::text::eq_ignore_ascii_case;
use codex_mgr::text::is_ascii_alphanumeric;
use codex_mgr::text::is_whitespace;
use codex_mgr::text::to_ascii_lowercase;

fn empty_raw() -> RawGatewayConfig {
    RawGatewayConfig {
        listen: None,
        upstream_base_url: None,
        redis_url: None,
        sticky_ttl_seconds: None,
        token_safety_window_seconds: None,
    }
}

fn pool(id: &str, labels: &[&str]) -> PoolEntry {
    PoolEntry {
        pool_id: id.to_string(),
        pool: PoolConfig {
            labels: labels.iter().map(|l| l.to_string()).collect(),
            policy_key: None,
        },
    }
}

#[test]
fn gateway_defaults() {
    assert_eq!(
        GatewayConfig::resolve(empty_raw()),
        GatewayConfig {
            listen: "127.0.0.1:8787".to_string(),
            upstream_base_url: "https://chatgpt.com/backend-api/".to_string(),
            redis_url: "redis://127.0.0.1:6379".to_string(),
            sticky_ttl_seconds: 7200,
            token_safety_window_seconds: 120,
        }
    );
    assert_eq!(DEFAULT_STICKY_TTL_SECONDS, 7200);
    assert_eq!(DEFAULT_TOKEN_SAFETY_WINDOW_SECONDS, 120);
}

#[test]
fn written_settings_win() {
    let raw = RawGatewayConfig {
        listen: Some("0.0.0.0:80".to_string()),
        upstream_base_url: Some("http://up/".to_string()),
        redis_url: Some("redis://r".to_string()),
        sticky_ttl_seconds: Some(0),
        token_safety_window_seconds: Some(-3),
    };
    assert_eq!(
        GatewayConfig::resolve(raw),
        GatewayConfig {
            listen: "0.0.0.0:80".to_string(),
            upstream_base_url: "http://up/".to_string(),
            redis_url: "redis://r".to_string(),
            sticky_ttl_seconds: 0,
            token_safety_window_seconds: -3,
        }
    );
}

#[test]
fn blank_urls_count_as_unset_but_blank_listen_is_kept() {
    let raw = RawGatewayConfig {
        listen: Some("  ".to_string()),
        upstream_base_url: Some(" \t".to_string()),
        redis_url: Some("".to_string()),
        ..empty_raw()
    };
    let cfg = GatewayConfig::resolve(raw);
    assert_eq!(cfg.listen, "  ");
    assert_eq!(cfg.upstream_base_url, "https://chatgpt.com/backend-api/");
    assert_eq!(cfg.redis_url, "redis://127.0.0.1:6379");
    let raw = RawGatewayConfig { redis_url: Some(" redis://x ".to_string()), ..empty_raw() };
    assert_eq!(GatewayConfig::resolve(raw).redis_url, " redis://x ");
}

#[test]
fn gateway_section_is_required() {
    assert_eq!(load(None, vec![pool("p", &["a"])]), Err(ConfigError::MissingGateway));
    assert_eq!(
        load(Some(empty_raw()), vec![pool("p", &["a"])]),
        Ok(ManagerConfig {
            gateway: GatewayConfig::resolve(empty_raw()),
            pools: vec![pool("p", &["a"])],
        })
    );
}

#[test]
fn pools_are_found_by_id() {
    let pools = vec![pool("a", &["x"]), pool("b", &["y"]), pool("a", &["z"])];
    assert_eq!(find_pool(&pools, "a"), Some(&pools[0].pool));
    assert_eq!(find_pool(&pools, "b"), Some(&pools[1].pool));
    assert_eq!(find_pool(&pools, "c"), None);
    assert_eq!(find_pool(&pools, ""), None);
    assert_eq!(find_pool(&[], "a"), None);
}

#[test]
fn pool_validity() {
    assert!(pool("p", &["a"]).pool.is_valid());
    assert!(pool("p", &["a", "b", "c"]).pool.is_valid());
    assert!(!pool("p", &[]).pool.is_valid());
    assert!(!pool("p", &["a", "b", "a"]).pool.is_valid());
    assert!(!pool("p", &["a", "a"]).pool.is_valid());
}

#[test]
fn blank_texts() {
    assert!(is_blank(""));
    assert!(is_blank(" \t\r\n\u{a0}\u{3000}"));
    assert!(!is_blank(" x "));
    assert!(!is_blank("\u{200b}"));
}

#[test]
fn pool_ids_follow_the_label_rules() {
    assert_eq!(validate_pool_id("default"), Ok(()));
    assert_eq!(validate_pool_id("team_A-1.x"), Ok(()));
    assert_eq!(validate_pool_id(""), Err(NameError::Empty));
    assert_eq!(validate_pool_id(&"p".repeat(65)), Err(NameError::TooLong));
    assert_eq!(validate_pool_id(".."), Err(NameError::Reserved));
    assert_eq!(validate_pool_id("..."), Err(NameError::Invalid));
    assert_eq!(validate_pool_id("a b"), Err(NameError::Invalid));
    // Length is counted in bytes, and checked before the alphabet.
    assert_eq!(validate_pool_id(&"\u{e9}".repeat(33)), Err(NameError::TooLong));
    assert_eq!(validate_pool_id(&"\u{e9}".repeat(32)), Err(NameError::Invalid));
}

#[test]
fn whitespace_is_the_unicode_property() {
    let mut c = 0u32;
    while c <= 0x10ffff {
        if let Some(ch) = char::from_u32(c) {
            assert_eq!(is_whitespace(ch), ch.is_whitespace(), "U+{c:04X}");
        }
        c += 1;
    }
}

#[test]
fn ascii_helpers_agree_with_std() {
    let mut c = 0u32;
    while c <= 0x10ffff {
        if let Some(ch) = char::from_u32(c) {
            assert_eq!(is_ascii_alphanumeric(ch), ch.is_ascii_alphanumeric());
            assert_eq!(to_ascii_lowercase(ch), ch.to_ascii_lowercase());
        }
        c += 1;
    }
    let a: Vec<char> = "BeArEr\u{c9}".chars().collect();
    let b: Vec<char> = "bearer\u{c9}".chars().collect();
    let c: Vec<char> = "bearer\u{e9}".chars().collect();
    assert!(eq_ignore_ascii_case(&a, &b));
    assert!(!eq_ignore_ascii_case(&a, &c));
    assert!(!eq_ignore_ascii_case(&a, &b[..6]));
}

#[test]
fn saturating_arithmetic() {
    for (a, b) in [(0i64, 0i64), (1, -1), (i64::MAX, 1), (i64::MAX, i64::MAX), (i64::MIN, -1), (i64::MIN, i64::MIN), (i64::MAX, i64::MIN), (i64::MIN, i64::MAX), (-5, 3)] {
        assert_eq!(saturating_add(a, b), a.saturating_add(b));
        assert_eq!(saturating_sub(a, b), a.saturating_sub(b));
    }
    for a in [0i64, 1, -1, 120, i64::MAX, i64::MIN, i64::MAX / 1000, i64::MAX / 1000 + 1, i64::MIN / 1000, i64::MIN / 1000 - 1] {
        assert_eq!(saturating_mul_1000(a), a.saturating_mul(1000));
        assert_eq!(div_1000(a), a / 1000);
    }
    assert_eq!(div_1000(-1500), -1);
    assert_eq!(div_1000(1999), 1);
}

#[test]
fn a_pool_id_names_one_pool() {
    let twice = vec![pool("a", &["x"]), pool("b", &["y"]), pool("a", &["z"])];
    assert!(!has_unique_pool_ids(&twice));
    assert_eq!(load(Some(empty_raw()), twice), Err(ConfigError::DuplicatePool));
    // Reported before the missing section.
    assert_eq!(load(None, vec![pool("a", &[]), pool("a", &[])]), Err(ConfigError::DuplicatePool));
    assert!(has_unique_pool_ids(&[pool("a", &["x"]), pool("A", &["x"])]));
    assert!(has_unique_pool_ids(&[]));
}
