//! The gateway's configuration: the `[gateway]` settings with their
//! defaults, and the pools.
//!
//! Reading and parsing the file is the caller's part. What it parsed comes
//! here as optional values, and leaves as a complete configuration.

use crate::kv::option_view;
use crate::kv::string_views;
use crate::text::chars_of;
use crate::text::str_eq;
use crate::text::trim_bounds;
use crate::text::trim_spec;
use vstd::prelude::*;
use vstd::string::StringExecFns;

verus! {

/// Default lifetime of a sticky binding, in seconds.
pub const DEFAULT_STICKY_TTL_SECONDS: i64 = 7200;

/// Default safety window for upstream tokens, in seconds.
pub const DEFAULT_TOKEN_SAFETY_WINDOW_SECONDS: i64 = 120;

/// The default listen address.
pub open spec fn default_listen() -> Seq<char> {
    "127.0.0.1:8787"@
}

/// The default upstream base URL.
pub open spec fn default_upstream_base_url() -> Seq<char> {
    "https://chatgpt.com/backend-api/"@
}

/// The default URL of the key/value store.
pub open spec fn default_redis_url() -> Seq<char> {
    "redis://127.0.0.1:6379"@
}

/// The `[gateway]` section as it was written: every setting is optional.
#[derive(Debug, PartialEq, Eq)]
pub struct RawGatewayConfig {
    pub listen: Option<String>,
    pub upstream_base_url: Option<String>,
    pub redis_url: Option<String>,
    pub sticky_ttl_seconds: Option<i64>,
    pub token_safety_window_seconds: Option<i64>,
}

/// The settings of the gateway.
#[derive(Debug, PartialEq, Eq)]
pub struct GatewayConfig {
    pub listen: String,
    pub upstream_base_url: String,
    pub redis_url: String,
    pub sticky_ttl_seconds: i64,
    pub token_safety_window_seconds: i64,
}

/// One pool: an ordered list of account labels and an optional key that
/// perturbs the hashed selection.
#[derive(Debug, PartialEq, Eq)]
pub struct PoolConfig {
    pub labels: Vec<String>,
    pub policy_key: Option<String>,
}

/// A pool under its id.
#[derive(Debug, PartialEq, Eq)]
pub struct PoolEntry {
    pub pool_id: String,
    pub pool: PoolConfig,
}

/// The whole configuration.
#[derive(Debug, PartialEq, Eq)]
pub struct ManagerConfig {
    pub gateway: GatewayConfig,
    pub pools: Vec<PoolEntry>,
}

/// Why a configuration is refused.
#[derive(Debug, Clone, Copy, PartialEq, Eq, Structural)]
pub enum ConfigError {
    /// The file has no `[gateway]` section.
    MissingGateway,
    /// Two pools have the same id.
    DuplicatePool,
}

/// Whether `text` is empty or all whitespace.
pub open spec fn is_blank_spec(text: Seq<char>) -> bool {
    trim_spec(text).len() == 0
}

/// A text setting: the value written, or the default if nothing was
/// written or, where `blank_is_unset`, only whitespace.
pub open spec fn text_setting_spec(
    written: Option<Seq<char>>,
    default: Seq<char>,
    blank_is_unset: bool,
) -> Seq<char> {
    match written {
        Some(value) => if blank_is_unset && is_blank_spec(value) {
            default
        } else {
            value
        },
        None => default,
    }
}

/// A number setting: the value written, or the default.
pub open spec fn number_setting_spec(written: Option<i64>, default: i64) -> i64 {
    match written {
        Some(value) => value,
        None => default,
    }
}

/// Whether `text` is empty or all whitespace.
pub fn is_blank(text: &str) -> (r: bool)
    ensures
        r == is_blank_spec(text@),
{
    let chars = chars_of(text);
    let (a, b) = trim_bounds(chars.as_slice());
    a == b
}

fn text_setting(written: Option<String>, default: &str, blank_is_unset: bool) -> (r: String)
    ensures
        r@ == text_setting_spec(option_view(written), default@, blank_is_unset),
{
    match written {
        Some(value) => {
            if blank_is_unset && is_blank(value.as_str()) {
                String::from_str(default)
            } else {
                value
            }
        },
        None => String::from_str(default),
    }
}

impl GatewayConfig {
    /// Completes the settings that were written with the defaults: the
    /// listen address `127.0.0.1:8787`, the upstream base
    /// `https://chatgpt.com/backend-api/`, the store at
    /// `redis://127.0.0.1:6379`, a sticky TTL of 7200 s and a token safety
    /// window of 120 s. A blank upstream base or store URL counts as not
    /// written; a blank listen address is kept.
    pub fn resolve(raw: RawGatewayConfig) -> (r: GatewayConfig)
        ensures
            r.listen@ == text_setting_spec(option_view(raw.listen), default_listen(), false),
            r.upstream_base_url@ == text_setting_spec(
                option_view(raw.upstream_base_url),
                default_upstream_base_url(),
                true,
            ),
            r.redis_url@ == text_setting_spec(
                option_view(raw.redis_url),
                default_redis_url(),
                true,
            ),
            r.sticky_ttl_seconds == number_setting_spec(
                raw.sticky_ttl_seconds,
                DEFAULT_STICKY_TTL_SECONDS,
            ),
            r.token_safety_window_seconds == number_setting_spec(
                raw.token_safety_window_seconds,
                DEFAULT_TOKEN_SAFETY_WINDOW_SECONDS,
            ),
    {
        GatewayConfig {
            listen: text_setting(raw.listen, "127.0.0.1:8787", false),
            upstream_base_url: text_setting(
                raw.upstream_base_url,
                "https://chatgpt.com/backend-api/",
                true,
            ),
            redis_url: text_setting(raw.redis_url, "redis://127.0.0.1:6379", true),
            sticky_ttl_seconds: match raw.sticky_ttl_seconds {
                Some(v) => v,
                None => DEFAULT_STICKY_TTL_SECONDS,
            },
            token_safety_window_seconds: match raw.token_safety_window_seconds {
                Some(v) => v,
                None => DEFAULT_TOKEN_SAFETY_WINDOW_SECONDS,
            },
        }
    }
}

impl ManagerConfig {
    /// In a configuration no pool id occurs twice, so that a pool id
    /// names one pool.
    pub open spec fn well_formed(self) -> bool {
        pool_ids(self.pools@).no_duplicates()
    }
}

/// Checks that no pool id occurs twice.
pub fn has_unique_pool_ids(pools: &[PoolEntry]) -> (r: bool)
    ensures
        r == pool_ids(pools@).no_duplicates(),
{
    let ghost ids = pool_ids(pools@);
    let mut j: usize = 0;
    while j < pools.len()
        invariant
            j <= pools.len(),
            ids == pool_ids(pools@),
            forall|a: int, b: int| 0 <= a < b < j ==> ids[a] != ids[b],
        decreases pools.len() - j,
    {
        let mut i: usize = 0;
        while i < j
            invariant
                i <= j < pools.len(),
                ids == pool_ids(pools@),
                forall|a: int| 0 <= a < i ==> ids[a] != ids[j as int],
            decreases j - i,
        {
            if pools[i].pool_id == pools[j].pool_id {
                assert(ids[i as int] == ids[j as int]);
                return false;
            }
            i += 1;
        }
        j += 1;
    }
    assert forall|a: int, b: int| 0 <= a < ids.len() && 0 <= b < ids.len() && a != b implies ids[a]
        != ids[b] by {
        if a < b {
        } else {
            assert(ids[b] != ids[a]);
        }
    }
    true
}

/// Makes the configuration from what the file held. No pool id may occur
/// twice, and the `[gateway]` section must be there; its settings are
/// completed by [`GatewayConfig::resolve`]. The pools are taken as they are.
pub fn load(gateway: Option<RawGatewayConfig>, pools: Vec<PoolEntry>) -> (r: Result<
    ManagerConfig,
    ConfigError,
>)
    ensures
        match r {
            Ok(config) => pool_ids(pools@).no_duplicates() && config.well_formed() && gateway
                is Some && config.pools == pools && config.gateway.listen@ == text_setting_spec(
                option_view(gateway->Some_0.listen),
                default_listen(),
                false,
            ) && config.gateway.upstream_base_url@ == text_setting_spec(
                option_view(gateway->Some_0.upstream_base_url),
                default_upstream_base_url(),
                true,
            ) && config.gateway.redis_url@ == text_setting_spec(
                option_view(gateway->Some_0.redis_url),
                default_redis_url(),
                true,
            ) && config.gateway.sticky_ttl_seconds == number_setting_spec(
                gateway->Some_0.sticky_ttl_seconds,
                DEFAULT_STICKY_TTL_SECONDS,
            ) && config.gateway.token_safety_window_seconds == number_setting_spec(
                gateway->Some_0.token_safety_window_seconds,
                DEFAULT_TOKEN_SAFETY_WINDOW_SECONDS,
            ),
            Err(e) => if pool_ids(pools@).no_duplicates() {
                gateway is None && e == ConfigError::MissingGateway
            } else {
                e == ConfigError::DuplicatePool
            },
        },
{
    if !has_unique_pool_ids(pools.as_slice()) {
        return Err(ConfigError::DuplicatePool);
    }
    match gateway {
        None => Err(ConfigError::MissingGateway),
        Some(raw) => Ok(ManagerConfig { gateway: GatewayConfig::resolve(raw), pools }),
    }
}

/// The ids of the pools of a configuration.
pub open spec fn pool_ids(pools: Seq<PoolEntry>) -> Seq<Seq<char>> {
    Seq::new(pools.len(), |i: int| pools[i].pool_id@)
}

/// Index of the first pool with id `pool_id` at or after `from`
/// (`pools.len()` when there is none).
pub open spec fn pool_index_from(pools: Seq<PoolEntry>, pool_id: Seq<char>, from: int) -> int
    decreases pools.len() - from,
{
    if 0 <= from < pools.len() && pools[from].pool_id@ != pool_id {
        pool_index_from(pools, pool_id, from + 1)
    } else {
        from
    }
}

/// The pool with id `pool_id`, if the configuration has one.
pub open spec fn find_pool_spec(pools: Seq<PoolEntry>, pool_id: Seq<char>) -> Option<PoolConfig> {
    let i = pool_index_from(pools, pool_id, 0);
    if 0 <= i < pools.len() {
        Some(pools[i].pool)
    } else {
        None
    }
}

/// What `pool_index_from` finds: the first pool from `from` on with the id.
pub proof fn lemma_pool_index_from(pools: Seq<PoolEntry>, pool_id: Seq<char>, from: int)
    requires
        0 <= from <= pools.len(),
    ensures
        from <= pool_index_from(pools, pool_id, from) <= pools.len(),
        forall|j: int|
            from <= j < pool_index_from(pools, pool_id, from) ==> (#[trigger] pools[j]).pool_id@
                != pool_id,
        pool_index_from(pools, pool_id, from) < pools.len() ==> pools[pool_index_from(
            pools,
            pool_id,
            from,
        )].pool_id@ == pool_id,
    decreases pools.len() - from,
{
    if from < pools.len() && pools[from].pool_id@ != pool_id {
        lemma_pool_index_from(pools, pool_id, from + 1);
    }
}

/// Where no pool id occurs twice, looking a pool's id up gives that pool,
/// and an id that no pool has gives none.
pub proof fn lemma_find_pool_is_exact(pools: Seq<PoolEntry>, pool_id: Seq<char>)
    requires
        pool_ids(pools).no_duplicates(),
    ensures
        forall|i: int|
            0 <= i < pools.len() && (#[trigger] pools[i]).pool_id@ == pool_id ==> find_pool_spec(
                pools,
                pool_id,
            ) == Some(pools[i].pool),
        (forall|i: int| 0 <= i < pools.len() ==> (#[trigger] pools[i]).pool_id@ != pool_id)
            ==> find_pool_spec(pools, pool_id) is None,
{
    lemma_pool_index_from(pools, pool_id, 0);
    let k = pool_index_from(pools, pool_id, 0);
    assert forall|i: int|
        0 <= i < pools.len() && (#[trigger] pools[i]).pool_id@ == pool_id implies find_pool_spec(
        pools,
        pool_id,
    ) == Some(pools[i].pool) by {
        assert(k <= i);
        assert(pool_ids(pools)[k] == pool_ids(pools)[i]);
    }
}

/// Looks a pool up by its id.
pub fn find_pool<'a>(pools: &'a [PoolEntry], pool_id: &str) -> (r: Option<&'a PoolConfig>)
    ensures
        match r {
            Some(pool) => find_pool_spec(pools@, pool_id@) == Some(*pool),
            None => find_pool_spec(pools@, pool_id@) is None,
        },
{
    let mut i: usize = 0;
    while i < pools.len()
        invariant
            i <= pools.len(),
            pool_index_from(pools@, pool_id@, 0) == pool_index_from(pools@, pool_id@, i as int),
        decreases pools.len() - i,
    {
        if str_eq(pools[i].pool_id.as_str(), pool_id) {
            return Some(&pools[i].pool);
        }
        i += 1;
    }
    None
}

impl PoolConfig {
    /// A pool is valid if it has at least one label and no label twice.
    pub open spec fn is_valid_spec(self) -> bool {
        self.labels@.len() > 0 && string_views(self.labels@).no_duplicates()
    }

    /// Checks that the pool has at least one label and no label twice.
    pub fn is_valid(&self) -> (r: bool)
        ensures
            r == self.is_valid_spec(),
    {
        if self.labels.len() == 0 {
            return false;
        }
        let ghost views = string_views(self.labels@);
        let mut j: usize = 0;
        while j < self.labels.len()
            invariant
                j <= self.labels.len(),
                views == string_views(self.labels@),
                forall|a: int, b: int| 0 <= a < b < j ==> views[a] != views[b],
            decreases self.labels.len() - j,
        {
            let mut i: usize = 0;
            while i < j
                invariant
                    i <= j < self.labels.len(),
                    views == string_views(self.labels@),
                    forall|a: int| 0 <= a < i ==> views[a] != views[j as int],
                decreases j - i,
            {
                if self.labels[i] == self.labels[j] {
                    assert(views[i as int] == views[j as int]);
                    return false;
                }
                i += 1;
            }
            j += 1;
        }
        assert forall|a: int, b: int| 0 <= a < views.len() && 0 <= b < views.len() && a
            != b implies views[a] != views[b] by {
            if a < b {
            } else {
                assert(views[b] != views[a]);
            }
        }
        true
    }
}

} // verus!
