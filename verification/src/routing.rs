//! Account selection within a pool, with conversation-sticky affinity.
//!
//! A request that carries a conversation id is bound to one account of its
//! pool; the binding lives in the key/value store under a key derived from the
//! pool and the hashed conversation id. Requests without a conversation id are
//! spread over the pool by a deterministic hash.
//!
//! The store is reached by the caller: [`route_account`] starts a resolution
//! and [`route_account_resume`] continues it with the store's reply.

use axum::http::HeaderMap;
use crate::codec::base64_round_trips;
use crate::codec::hash_opaque_id;
use crate::codec::hash_opaque_id_spec;
use crate::codec::sha256;
use crate::codec::sha256_digest;
use crate::codec::utf8;
use crate::headers::fields_of;
use crate::headers::header_map_fields;
use crate::headers::read_header;
use crate::headers::read_header_spec;
use crate::kv::Expiry;
use crate::kv::kv_apply;
use crate::kv::kv_get;
use crate::kv::kv_put;
use crate::kv::KvCommand;
use crate::kv::KvCommandView;
use crate::kv::KvReply;
use crate::kv::KvReplyView;
use crate::kv::KvStore;
use crate::kv::option_str_view;
use crate::kv::option_view;
use crate::kv::string_views;
use vstd::prelude::*;
use vstd::string::StringExecFns;

verus! {

/// The result of routing one request.
#[derive(Debug, Clone, PartialEq, Eq)]
pub struct RouteInfo {
    pub account_pool_id: String,
    pub account_id: String,
    pub conversation_id: Option<String>,
}

/// Mathematical value of a [`RouteInfo`].
pub struct RouteInfoView {
    pub account_pool_id: Seq<char>,
    pub account_id: Seq<char>,
    pub conversation_id: Option<Seq<char>>,
}

impl View for RouteInfo {
    type V = RouteInfoView;

    open spec fn view(&self) -> RouteInfoView {
        RouteInfoView {
            account_pool_id: self.account_pool_id@,
            account_id: self.account_id@,
            conversation_id: option_view(self.conversation_id),
        }
    }
}

/// Why a request could not be routed.
#[derive(Debug, Clone, Copy, PartialEq, Eq, Structural)]
pub enum RouteError {
    /// The pool has no labels.
    NoLabels,
    /// `sticky_ttl_seconds` is zero or negative.
    InvalidStickyTtl,
    /// The key/value store failed or answered out of protocol.
    KvUnavailable,
}

/// The conversation id of a request: its header `conversation_id` or, if
/// that is absent or blank, `session_id`; trimmed.
pub open spec fn extract_conversation_id_spec(fields: Seq<(Seq<char>, Seq<u8>)>) -> Option<
    Seq<char>,
> {
    match read_header_spec(fields, "conversation_id"@) {
        Some(id) => Some(id),
        None => read_header_spec(fields, "session_id"@),
    }
}

/// Reads the conversation id of a request.
pub fn extract_conversation_id(headers: &HeaderMap) -> (r: Option<String>)
    ensures
        option_view(r) == extract_conversation_id_spec(header_map_fields(*headers)),
{
    let fields = fields_of(headers);
    match read_header(fields.as_slice(), "conversation_id") {
        Some(id) => Some(id),
        None => read_header(fields.as_slice(), "session_id"),
    }
}

/// The bytes that are hashed to pick an account:
/// `pool ‖ 0x00 ‖ policy_key or nothing ‖ 0x00 ‖ key`.
pub open spec fn select_input(
    pool: Seq<char>,
    policy_key: Option<Seq<char>>,
    key: Seq<char>,
) -> Seq<u8> {
    utf8(pool) + seq![0u8] + (match policy_key {
        Some(p) => utf8(p),
        None => Seq::empty(),
    }) + seq![0u8] + utf8(key)
}

/// The first eight bytes of `b` read as a big-endian unsigned integer.
pub open spec fn be_u64(b: Seq<u8>) -> int
    recommends
        b.len() >= 8,
{
    b[0] as int * 0x100_0000_0000_0000 + b[1] as int * 0x1_0000_0000_0000 + b[2] as int
        * 0x100_0000_0000 + b[3] as int * 0x1_0000_0000 + b[4] as int * 0x100_0000 + b[5] as int
        * 0x1_0000 + b[6] as int * 0x100 + b[7] as int
}

/// The two's-complement value of a 64-bit pattern.
pub open spec fn signed64(u: int) -> int {
    if u >= 0x8000_0000_0000_0000 {
        u - 0x1_0000_0000_0000_0000
    } else {
        u
    }
}

/// `|v|`, with `i64::MAX` for the one value whose magnitude does not fit.
pub open spec fn saturating_abs(v: int) -> int {
    if v <= i64::MIN {
        i64::MAX as int
    } else if v < 0 {
        -v
    } else {
        v
    }
}

/// The modulus for a pool of `n` labels.
pub open spec fn label_modulus(n: nat) -> int {
    if n > i64::MAX {
        i64::MAX as int
    } else {
        n as int
    }
}

/// The index that a digest selects in a pool of `n` labels.
pub open spec fn select_index(digest: Seq<u8>, n: nat) -> int {
    saturating_abs(signed64(be_u64(digest))) % label_modulus(n)
}

/// The label that `(pool, policy_key, key)` selects among `labels`.
pub open spec fn select_spec(
    pool: Seq<char>,
    policy_key: Option<Seq<char>>,
    key: Seq<char>,
    labels: Seq<Seq<char>>,
) -> Seq<char>
    recommends
        labels.len() > 0,
{
    labels[select_index(sha256_digest(select_input(pool, policy_key, key)), labels.len())]
}

/// The selected index is a position of the pool: selection is total on
/// non-empty pools and its result is one of the labels.
pub proof fn lemma_select_in_labels(
    pool: Seq<char>,
    policy_key: Option<Seq<char>>,
    key: Seq<char>,
    labels: Seq<Seq<char>>,
)
    requires
        labels.len() > 0,
    ensures
        0 <= select_index(sha256_digest(select_input(pool, policy_key, key)), labels.len())
            < labels.len(),
        labels.contains(select_spec(pool, policy_key, key, labels)),
{
    let d = sha256_digest(select_input(pool, policy_key, key));
    let m = label_modulus(labels.len());
    let v = saturating_abs(signed64(be_u64(d)));
    assert(m > 0);
    assert(0 <= v % m < m) by (nonlinear_arith)
        requires
            m > 0,
    ;
}

/// Big-endian value of the first eight bytes of a digest.
fn digest_prefix(digest: &[u8]) -> (u: u64)
    requires
        digest@.len() >= 8,
    ensures
        u == be_u64(digest@),
{
    let b0: u64 = digest[0] as u64;
    let b1: u64 = digest[1] as u64;
    let b2: u64 = digest[2] as u64;
    let b3: u64 = digest[3] as u64;
    let b4: u64 = digest[4] as u64;
    let b5: u64 = digest[5] as u64;
    let b6: u64 = digest[6] as u64;
    let b7: u64 = digest[7] as u64;
    b0 * 0x100_0000_0000_0000 + b1 * 0x1_0000_0000_0000 + b2 * 0x100_0000_0000 + b3
        * 0x1_0000_0000 + b4 * 0x100_0000 + b5 * 0x1_0000 + b6 * 0x100 + b7
}

/// Picks the account for `key` by hashing: SHA-256 over
/// `pool ‖ 0 ‖ policy_key ‖ 0 ‖ key`, the first eight bytes as a signed
/// big-endian integer, its saturating absolute value modulo the pool size.
///
/// Fails only on an empty pool.
pub fn select_account_id(
    account_pool_id: &str,
    policy_key: Option<&str>,
    key: &str,
    labels: &[String],
) -> (r: Result<String, RouteError>)
    ensures
        labels@.len() == 0 ==> r == Err::<String, RouteError>(RouteError::NoLabels),
        labels@.len() > 0 ==> r is Ok && r->Ok_0@ == select_spec(
            account_pool_id@,
            option_str_view(policy_key),
            key@,
            string_views(labels@),
        ),
{
    if labels.len() == 0 {
        return Err(RouteError::NoLabels);
    }
    let mut input: Vec<u8> = Vec::new();
    input.extend_from_slice(account_pool_id.as_bytes());
    input.push(0u8);
    match policy_key {
        Some(p) => {
            input.extend_from_slice(p.as_bytes());
        },
        None => {},
    }
    input.push(0u8);
    input.extend_from_slice(key.as_bytes());
    assert(input@ =~= select_input(account_pool_id@, option_str_view(policy_key), key@));
    let digest = sha256(input.as_slice());
    let u = digest_prefix(digest.as_slice());
    let magnitude: u64 = if u < 0x8000_0000_0000_0000 {
        u
    } else {
        (u64::MAX - u) + 1
    };
    let value: u64 = if magnitude > 0x7fff_ffff_ffff_ffff {
        0x7fff_ffff_ffff_ffff
    } else {
        magnitude
    };
    let len: u64 = labels.len() as u64;
    let modulus: u64 = if len > 0x7fff_ffff_ffff_ffff {
        0x7fff_ffff_ffff_ffff
    } else {
        len
    };
    let idx: usize = (value % modulus) as usize;
    proof {
        lemma_select_in_labels(
            account_pool_id@,
            option_str_view(policy_key),
            key@,
            string_views(labels@),
        );
    }
    Ok(labels[idx].clone())
}

/// The key under which the binding of `conversation_id` in `pool` is kept.
pub open spec fn sticky_key_spec(pool: Seq<char>, conversation_id: Seq<char>) -> Seq<char> {
    "gw:sticky:"@ + pool + ":"@ + hash_opaque_id_spec(conversation_id)
}

/// Builds the sticky key: the prefix, the pool, a colon, and the hashed
/// conversation id. The conversation id itself never appears in the key.
pub fn sticky_key(account_pool_id: &str, conversation_id: &str) -> (r: String)
    ensures
        r@ == sticky_key_spec(account_pool_id@, conversation_id@),
        r@.len() == 10 + account_pool_id@.len() + 1 + 43,
        base64_round_trips(sha256_digest(utf8(conversation_id@))),
{
    proof {
        reveal_strlit("gw:sticky:");
        reveal_strlit(":");
    }
    let encoded = hash_opaque_id(conversation_id);
    let mut key = String::from_str("gw:sticky:");
    key.append(account_pool_id);
    key.append(":");
    key.append(encoded.as_str());
    key
}

/// Within one pool, two conversation ids get the same sticky key only if
/// their hashed forms are equal, and hence, where the base64 text of each
/// digest decodes to that digest (which [`sticky_key`] learns from the
/// encoder), only if their SHA-256 digests are equal.
pub proof fn lemma_sticky_key_injective(pool: Seq<char>, c1: Seq<char>, c2: Seq<char>)
    requires
        sticky_key_spec(pool, c1) == sticky_key_spec(pool, c2),
    ensures
        hash_opaque_id_spec(c1) == hash_opaque_id_spec(c2),
        base64_round_trips(sha256_digest(utf8(c1))) && base64_round_trips(
            sha256_digest(utf8(c2)),
        ) ==> sha256_digest(utf8(c1)) == sha256_digest(utf8(c2)),
{
    let head = "gw:sticky:"@ + pool + ":"@;
    let k1 = sticky_key_spec(pool, c1);
    let k2 = sticky_key_spec(pool, c2);
    assert(k1 =~= head + hash_opaque_id_spec(c1));
    assert(k2 =~= head + hash_opaque_id_spec(c2));
    assert(k1.skip(head.len() as int) =~= hash_opaque_id_spec(c1));
    assert(k2.skip(head.len() as int) =~= hash_opaque_id_spec(c2));
}

/// Where a sticky resolution stands while it waits for the store.
#[derive(Debug, Clone, PartialEq, Eq)]
pub enum RoutePhase {
    /// The binding was asked for.
    Binding,
    /// A binding to a label that left the pool is being overwritten.
    Repair { selected: String },
    /// A new binding is being written, unless another replica was first.
    Claim { selected: String },
    /// Another replica was first; its binding is being read.
    Reread { selected: String },
}

/// Mathematical value of a [`RoutePhase`].
pub enum RoutePhaseView {
    Binding,
    Repair { selected: Seq<char> },
    Claim { selected: Seq<char> },
    Reread { selected: Seq<char> },
}

impl View for RoutePhase {
    type V = RoutePhaseView;

    open spec fn view(&self) -> RoutePhaseView {
        match *self {
            RoutePhase::Binding => RoutePhaseView::Binding,
            RoutePhase::Repair { selected } => RoutePhaseView::Repair { selected: selected@ },
            RoutePhase::Claim { selected } => RoutePhaseView::Claim { selected: selected@ },
            RoutePhase::Reread { selected } => RoutePhaseView::Reread { selected: selected@ },
        }
    }
}

/// What routing needs next, or how it ended.
#[derive(Debug, PartialEq, Eq)]
pub enum RouteStep {
    /// Send `command` to the store and resume in `phase` with its reply.
    Ask { command: KvCommand, phase: RoutePhase },
    /// The request is routed.
    Done(RouteInfo),
    /// The request cannot be routed.
    Failed(RouteError),
}

/// Mathematical value of a [`RouteStep`].
pub enum RouteStepView {
    Ask { command: KvCommandView, phase: RoutePhaseView },
    Done(RouteInfoView),
    Failed(RouteError),
}

impl View for RouteStep {
    type V = RouteStepView;

    open spec fn view(&self) -> RouteStepView {
        match *self {
            RouteStep::Ask { command, phase } => RouteStepView::Ask {
                command: command@,
                phase: phase@,
            },
            RouteStep::Done(info) => RouteStepView::Done(info@),
            RouteStep::Failed(e) => RouteStepView::Failed(e),
        }
    }
}

/// The command that writes a sticky binding.
pub open spec fn bind_command(
    pool: Seq<char>,
    conversation_id: Seq<char>,
    selected: Seq<char>,
    only_if_absent: bool,
    sticky_ttl_seconds: i64,
) -> KvCommandView {
    KvCommandView::Put {
        key: sticky_key_spec(pool, conversation_id),
        value: selected,
        only_if_absent,
        expiry: Expiry::Seconds(sticky_ttl_seconds),
    }
}

/// The first step of routing a request.
///
/// An empty pool and a non-positive TTL are refused before anything else.
/// Without a conversation id the account is selected by hashing
/// `non_sticky_key` and the store is not consulted. With one, the sticky
/// binding is read first.
pub open spec fn route_start_spec(
    pool: Seq<char>,
    labels: Seq<Seq<char>>,
    policy_key: Option<Seq<char>>,
    sticky_ttl_seconds: i64,
    conversation_id: Option<Seq<char>>,
    non_sticky_key: Seq<char>,
) -> RouteStepView {
    if labels.len() == 0 {
        RouteStepView::Failed(RouteError::NoLabels)
    } else if sticky_ttl_seconds <= 0 {
        RouteStepView::Failed(RouteError::InvalidStickyTtl)
    } else {
        match conversation_id {
            None => RouteStepView::Done(
                RouteInfoView {
                    account_pool_id: pool,
                    account_id: select_spec(pool, policy_key, non_sticky_key, labels),
                    conversation_id: None,
                },
            ),
            Some(c) => RouteStepView::Ask {
                command: KvCommandView::Get { key: sticky_key_spec(pool, c) },
                phase: RoutePhaseView::Binding,
            },
        }
    }
}

/// The step that follows `reply` in `phase`.
///
/// * An empty pool and a non-positive TTL are refused before anything else,
///   as at the first step.
/// * A binding to a label of the pool is used as it is, without a write.
/// * A binding to a label that left the pool is overwritten with the hashed
///   selection.
/// * Without a binding, the hashed selection is written only if the key is
///   still absent; if another replica was first, its binding is read and
///   used, whatever it is, and the hashed selection serves only if the key
///   has vanished again.
/// * A reply that does not belong to the phase, and `Unavailable`, fail the
///   request.
pub open spec fn route_resume_spec(
    pool: Seq<char>,
    labels: Seq<Seq<char>>,
    policy_key: Option<Seq<char>>,
    sticky_ttl_seconds: i64,
    conversation_id: Seq<char>,
    phase: RoutePhaseView,
    reply: KvReplyView,
) -> RouteStepView {
    let done = |account: Seq<char>|
        RouteStepView::Done(
            RouteInfoView {
                account_pool_id: pool,
                account_id: account,
                conversation_id: Some(conversation_id),
            },
        );
    let selected = select_spec(pool, policy_key, conversation_id, labels);
    if labels.len() == 0 {
        RouteStepView::Failed(RouteError::NoLabels)
    } else if sticky_ttl_seconds <= 0 {
        RouteStepView::Failed(RouteError::InvalidStickyTtl)
    } else {
        match (phase, reply) {
            (RoutePhaseView::Binding, KvReplyView::Value(Some(existing))) => {
                if labels.contains(existing) {
                    done(existing)
                } else {
                    RouteStepView::Ask {
                        command: bind_command(
                            pool,
                            conversation_id,
                            selected,
                            false,
                            sticky_ttl_seconds,
                        ),
                        phase: RoutePhaseView::Repair { selected },
                    }
                }
            },
            (RoutePhaseView::Binding, KvReplyView::Value(None)) => RouteStepView::Ask {
                command: bind_command(pool, conversation_id, selected, true, sticky_ttl_seconds),
                phase: RoutePhaseView::Claim { selected },
            },
            (RoutePhaseView::Repair { selected }, KvReplyView::Stored(_)) => done(selected),
            (RoutePhaseView::Claim { selected }, KvReplyView::Stored(true)) => done(selected),
            (RoutePhaseView::Claim { selected }, KvReplyView::Stored(false)) => RouteStepView::Ask {
                command: KvCommandView::Get { key: sticky_key_spec(pool, conversation_id) },
                phase: RoutePhaseView::Reread { selected },
            },
            (RoutePhaseView::Reread { selected }, KvReplyView::Value(Some(current))) => done(
                current,
            ),
            (RoutePhaseView::Reread { selected }, KvReplyView::Value(None)) => done(selected),
            _ => RouteStepView::Failed(RouteError::KvUnavailable),
        }
    }
}

/// Whether `label` is one of `labels`.
pub fn is_pool_member(labels: &[String], label: &String) -> (r: bool)
    ensures
        r == string_views(labels@).contains(label@),
{
    let mut i: usize = 0;
    while i < labels.len()
        invariant
            i <= labels.len(),
            forall|j: int| 0 <= j < i ==> string_views(labels@)[j] != label@,
        decreases labels.len() - i,
    {
        if labels[i] == *label {
            assert(string_views(labels@)[i as int] == label@);
            return true;
        }
        i += 1;
    }
    false
}

fn routed(account_pool_id: &str, account_id: String, conversation_id: Option<String>) -> (r:
    RouteStep)
    ensures
        r@ == RouteStepView::Done(
            RouteInfoView {
                account_pool_id: account_pool_id@,
                account_id: account_id@,
                conversation_id: option_view(conversation_id),
            },
        ),
{
    let account_pool_id = String::from_str(account_pool_id);
    RouteStep::Done(RouteInfo { account_pool_id, account_id, conversation_id })
}

/// Starts routing a request. See [`route_start_spec`].
pub fn route_account(
    account_pool_id: &str,
    labels: &[String],
    policy_key: Option<&str>,
    sticky_ttl_seconds: i64,
    conversation_id: Option<String>,
    non_sticky_key: &str,
) -> (step: RouteStep)
    ensures
        step@ == route_start_spec(
            account_pool_id@,
            string_views(labels@),
            option_str_view(policy_key),
            sticky_ttl_seconds,
            option_view(conversation_id),
            non_sticky_key@,
        ),
{
    if labels.len() == 0 {
        return RouteStep::Failed(RouteError::NoLabels);
    }
    if sticky_ttl_seconds <= 0 {
        return RouteStep::Failed(RouteError::InvalidStickyTtl);
    }
    match conversation_id {
        None => {
            match select_account_id(account_pool_id, policy_key, non_sticky_key, labels) {
                Ok(account_id) => routed(account_pool_id, account_id, None),
                Err(e) => RouteStep::Failed(e),
            }
        },
        Some(c) => RouteStep::Ask {
            command: KvCommand::Get { key: sticky_key(account_pool_id, c.as_str()) },
            phase: RoutePhase::Binding,
        },
    }
}

/// Continues a sticky resolution with the store's reply. See
/// [`route_resume_spec`].
pub fn route_account_resume(
    account_pool_id: &str,
    labels: &[String],
    policy_key: Option<&str>,
    sticky_ttl_seconds: i64,
    conversation_id: &str,
    phase: RoutePhase,
    reply: KvReply,
) -> (step: RouteStep)
    ensures
        step@ == route_resume_spec(
            account_pool_id@,
            string_views(labels@),
            option_str_view(policy_key),
            sticky_ttl_seconds,
            conversation_id@,
            phase@,
            reply@,
        ),
{
    if labels.len() == 0 {
        return RouteStep::Failed(RouteError::NoLabels);
    }
    if sticky_ttl_seconds <= 0 {
        return RouteStep::Failed(RouteError::InvalidStickyTtl);
    }
    let cid = String::from_str(conversation_id);
    match (phase, reply) {
        (RoutePhase::Binding, KvReply::Value(Some(existing))) => {
            if is_pool_member(labels, &existing) {
                routed(account_pool_id, existing, Some(cid))
            } else {
                match select_account_id(account_pool_id, policy_key, conversation_id, labels) {
                    Ok(selected) => RouteStep::Ask {
                        command: KvCommand::Put {
                            key: sticky_key(account_pool_id, conversation_id),
                            value: selected.clone(),
                            only_if_absent: false,
                            expiry: Expiry::Seconds(sticky_ttl_seconds),
                        },
                        phase: RoutePhase::Repair { selected },
                    },
                    Err(e) => RouteStep::Failed(e),
                }
            }
        },
        (RoutePhase::Binding, KvReply::Value(None)) => {
            match select_account_id(account_pool_id, policy_key, conversation_id, labels) {
                Ok(selected) => RouteStep::Ask {
                    command: KvCommand::Put {
                        key: sticky_key(account_pool_id, conversation_id),
                        value: selected.clone(),
                        only_if_absent: true,
                        expiry: Expiry::Seconds(sticky_ttl_seconds),
                    },
                    phase: RoutePhase::Claim { selected },
                },
                Err(e) => RouteStep::Failed(e),
            }
        },
        (RoutePhase::Repair { selected }, KvReply::Stored(_)) => routed(
            account_pool_id,
            selected,
            Some(cid),
        ),
        (RoutePhase::Claim { selected }, KvReply::Stored(true)) => routed(
            account_pool_id,
            selected,
            Some(cid),
        ),
        (RoutePhase::Claim { selected }, KvReply::Stored(false)) => RouteStep::Ask {
            command: KvCommand::Get { key: sticky_key(account_pool_id, conversation_id) },
            phase: RoutePhase::Reread { selected },
        },
        (RoutePhase::Reread { selected }, KvReply::Value(Some(current))) => routed(
            account_pool_id,
            current,
            Some(cid),
        ),
        (RoutePhase::Reread { selected }, KvReply::Value(None)) => routed(
            account_pool_id,
            selected,
            Some(cid),
        ),
        _ => RouteStep::Failed(RouteError::KvUnavailable),
    }
}

/// Runs a sticky resolution against the model store: every command that the
/// resolution asks for is applied to `store` at instant `now`, and the reply
/// is fed back, for at most `fuel` commands.
pub open spec fn route_drive(
    store: KvStore,
    now: int,
    pool: Seq<char>,
    labels: Seq<Seq<char>>,
    policy_key: Option<Seq<char>>,
    sticky_ttl_seconds: i64,
    conversation_id: Seq<char>,
    step: RouteStepView,
    fuel: nat,
) -> (KvStore, RouteStepView)
    decreases fuel,
{
    match step {
        RouteStepView::Ask { command, phase } => {
            if fuel == 0 {
                (store, step)
            } else {
                let (next_store, reply) = kv_apply(store, now, command);
                route_drive(
                    next_store,
                    now,
                    pool,
                    labels,
                    policy_key,
                    sticky_ttl_seconds,
                    conversation_id,
                    route_resume_spec(
                        pool,
                        labels,
                        policy_key,
                        sticky_ttl_seconds,
                        conversation_id,
                        phase,
                        reply,
                    ),
                    (fuel - 1) as nat,
                )
            }
        },
        _ => (store, step),
    }
}

/// One whole routing call against the model store at instant `now`: the
/// store that it leaves behind and its last step. A resolution sends at most
/// three commands.
pub open spec fn route_run(
    store: KvStore,
    now: int,
    pool: Seq<char>,
    labels: Seq<Seq<char>>,
    policy_key: Option<Seq<char>>,
    sticky_ttl_seconds: i64,
    conversation_id: Option<Seq<char>>,
    non_sticky_key: Seq<char>,
) -> (KvStore, RouteStepView) {
    let first = route_start_spec(
        pool,
        labels,
        policy_key,
        sticky_ttl_seconds,
        conversation_id,
        non_sticky_key,
    );
    match conversation_id {
        Some(c) => route_drive(
            store,
            now,
            pool,
            labels,
            policy_key,
            sticky_ttl_seconds,
            c,
            first,
            3,
        ),
        None => (store, first),
    }
}

/// The step that ends a routing call with `account`.
pub open spec fn routed_to(
    pool: Seq<char>,
    account: Seq<char>,
    conversation_id: Option<Seq<char>>,
) -> RouteStepView {
    RouteStepView::Done(
        RouteInfoView { account_pool_id: pool, account_id: account, conversation_id },
    )
}

/// A routing call on an empty pool, or with a sticky TTL that is not
/// positive, fails with an invariant error and leaves the store untouched.
pub proof fn lemma_route_rejects_bad_configuration(
    store: KvStore,
    now: int,
    pool: Seq<char>,
    labels: Seq<Seq<char>>,
    policy_key: Option<Seq<char>>,
    sticky_ttl_seconds: i64,
    conversation_id: Option<Seq<char>>,
    non_sticky_key: Seq<char>,
)
    requires
        labels.len() == 0 || sticky_ttl_seconds <= 0,
    ensures
        route_run(
            store,
            now,
            pool,
            labels,
            policy_key,
            sticky_ttl_seconds,
            conversation_id,
            non_sticky_key,
        ) == (
            store,
            RouteStepView::Failed(
                if labels.len() == 0 {
                    RouteError::NoLabels
                } else {
                    RouteError::InvalidStickyTtl
                },
            ),
        ),
{
    reveal_with_fuel(route_drive, 2);
}

/// Without a conversation id the account is the hashed selection for the
/// non-sticky key, it is a label of the pool, and the store is not written.
pub proof fn lemma_route_without_conversation(
    store: KvStore,
    now: int,
    pool: Seq<char>,
    labels: Seq<Seq<char>>,
    policy_key: Option<Seq<char>>,
    sticky_ttl_seconds: i64,
    non_sticky_key: Seq<char>,
)
    requires
        labels.len() > 0,
        sticky_ttl_seconds > 0,
    ensures
        route_run(
            store,
            now,
            pool,
            labels,
            policy_key,
            sticky_ttl_seconds,
            None,
            non_sticky_key,
        ) == (
            store,
            routed_to(pool, select_spec(pool, policy_key, non_sticky_key, labels), None),
        ),
        labels.contains(select_spec(pool, policy_key, non_sticky_key, labels)),
{
    lemma_select_in_labels(pool, policy_key, non_sticky_key, labels);
}

/// What a sticky routing call does, by the binding it finds:
/// a binding to a pool member is returned without a write; any other state
/// of the key ends with the hashed selection bound for `sticky_ttl_seconds`.
/// Either way the call succeeds with a label of the pool, and the store then
/// binds the conversation to that label.
pub proof fn lemma_route_sticky_outcome(
    store: KvStore,
    now: int,
    pool: Seq<char>,
    labels: Seq<Seq<char>>,
    policy_key: Option<Seq<char>>,
    sticky_ttl_seconds: i64,
    conversation_id: Seq<char>,
    non_sticky_key: Seq<char>,
)
    requires
        labels.len() > 0,
        sticky_ttl_seconds > 0,
    ensures
        ({
            let key = sticky_key_spec(pool, conversation_id);
            let selected = select_spec(pool, policy_key, conversation_id, labels);
            let run = route_run(
                store,
                now,
                pool,
                labels,
                policy_key,
                sticky_ttl_seconds,
                Some(conversation_id),
                non_sticky_key,
            );
            &&& labels.contains(selected)
            &&& match kv_get(store, now, key) {
                Some(existing) if labels.contains(existing) => run == (
                    store,
                    routed_to(pool, existing, Some(conversation_id)),
                ),
                _ => run == (
                    kv_put(store, now, key, selected, Expiry::Seconds(sticky_ttl_seconds)),
                    routed_to(pool, selected, Some(conversation_id)),
                ),
            }
        }),
{
    reveal_with_fuel(route_drive, 4);
    lemma_select_in_labels(pool, policy_key, conversation_id, labels);
}

/// Two routing calls for one conversation, the second at or after the first
/// and while the binding that the first call left is still alive, select the
/// same account, and the second call writes nothing.
///
/// The binding is alive at the second call if the first call wrote it and
/// less than `sticky_ttl_seconds` have passed, or if the first call found it
/// and it has not run out since: a binding that is found is not renewed.
pub proof fn lemma_route_sticky_stable(
    store: KvStore,
    first_at: int,
    second_at: int,
    pool: Seq<char>,
    labels: Seq<Seq<char>>,
    policy_key: Option<Seq<char>>,
    sticky_ttl_seconds: i64,
    conversation_id: Seq<char>,
    non_sticky_key: Seq<char>,
)
    requires
        labels.len() > 0,
        sticky_ttl_seconds > 0,
        first_at <= second_at < first_at + sticky_ttl_seconds * 1000,
        ({
            let key = sticky_key_spec(pool, conversation_id);
            kv_get(store, first_at, key) matches Some(existing) && labels.contains(existing)
                ==> second_at < store[key].expires_at_ms
        }),
    ensures
        ({
            let first = route_run(
                store,
                first_at,
                pool,
                labels,
                policy_key,
                sticky_ttl_seconds,
                Some(conversation_id),
                non_sticky_key,
            );
            let second = route_run(
                first.0,
                second_at,
                pool,
                labels,
                policy_key,
                sticky_ttl_seconds,
                Some(conversation_id),
                non_sticky_key,
            );
            &&& first.1 is Done
            &&& labels.contains(first.1->Done_0.account_id)
            &&& second == first
        }),
{
    let key = sticky_key_spec(pool, conversation_id);
    lemma_route_sticky_outcome(
        store,
        first_at,
        pool,
        labels,
        policy_key,
        sticky_ttl_seconds,
        conversation_id,
        non_sticky_key,
    );
    let first = route_run(
        store,
        first_at,
        pool,
        labels,
        policy_key,
        sticky_ttl_seconds,
        Some(conversation_id),
        non_sticky_key,
    );
    lemma_route_sticky_outcome(
        first.0,
        second_at,
        pool,
        labels,
        policy_key,
        sticky_ttl_seconds,
        conversation_id,
        non_sticky_key,
    );
}

/// Whether the store binds the conversation to `account` or to nothing.
pub open spec fn binding_is_at_most(
    store: KvStore,
    now: int,
    key: Seq<char>,
    account: Seq<char>,
) -> bool {
    kv_get(store, now, key) is None || kv_get(store, now, key) == Some(account)
}

/// Whether a step of a resolution for the binding under `key` can only end
/// with `account`: it is done with it, or it asks to read the binding, or
/// to write `account` to it, in the phase that goes with the command and
/// carries `account`.
pub open spec fn step_heads_for(step: RouteStepView, key: Seq<char>, account: Seq<char>) -> bool {
    match step {
        RouteStepView::Done(info) => info.account_id == account,
        RouteStepView::Failed(_) => false,
        RouteStepView::Ask { command, phase } => match (command, phase) {
            (KvCommandView::Get { key: k }, RoutePhaseView::Binding) => k == key,
            (
                KvCommandView::Put { key: k, value, only_if_absent, .. },
                RoutePhaseView::Repair { selected },
            ) => k == key && value == account && selected == account && !only_if_absent,
            (
                KvCommandView::Put { key: k, value, only_if_absent, .. },
                RoutePhaseView::Claim { selected },
            ) => k == key && value == account && selected == account && only_if_absent,
            (KvCommandView::Get { key: k }, RoutePhaseView::Reread { selected }) => k == key
                && selected == account,
            _ => false,
        },
    }
}

/// Requests for one conversation that race on its binding agree on the
/// account, whatever the order in which their commands reach the store.
///
/// Take any number of replicas that route the same conversation with the
/// same pool, and a store that binds the conversation to the hashed
/// selection or to nothing. Every resolution starts heading for the hashed
/// selection; and whenever a resolution that heads for it has its command
/// run by the store, the store still binds the conversation to the hashed
/// selection or to nothing, and the resolution still heads for it. So every
/// resolution that ends, ends with the hashed selection.
pub proof fn lemma_racing_requests_agree(
    store: KvStore,
    now: int,
    pool: Seq<char>,
    labels: Seq<Seq<char>>,
    policy_key: Option<Seq<char>>,
    sticky_ttl_seconds: i64,
    conversation_id: Seq<char>,
    non_sticky_key: Seq<char>,
    command: KvCommandView,
    phase: RoutePhaseView,
)
    requires
        labels.len() > 0,
        sticky_ttl_seconds > 0,
        binding_is_at_most(
            store,
            now,
            sticky_key_spec(pool, conversation_id),
            select_spec(pool, policy_key, conversation_id, labels),
        ),
        step_heads_for(
            RouteStepView::Ask { command, phase },
            sticky_key_spec(pool, conversation_id),
            select_spec(pool, policy_key, conversation_id, labels),
        ),
    ensures
        ({
            let key = sticky_key_spec(pool, conversation_id);
            let selected = select_spec(pool, policy_key, conversation_id, labels);
            let (next_store, reply) = kv_apply(store, now, command);
            &&& step_heads_for(
                route_start_spec(
                    pool,
                    labels,
                    policy_key,
                    sticky_ttl_seconds,
                    Some(conversation_id),
                    non_sticky_key,
                ),
                key,
                selected,
            )
            &&& binding_is_at_most(next_store, now, key, selected)
            &&& step_heads_for(
                route_resume_spec(
                    pool,
                    labels,
                    policy_key,
                    sticky_ttl_seconds,
                    conversation_id,
                    phase,
                    reply,
                ),
                key,
                selected,
            )
        }),
{
    lemma_select_in_labels(pool, policy_key, conversation_id, labels);
}

} // verus!
