//! The commands the gateway sends to its coordinating key/value store, the
//! replies it understands, and a mathematical model of such a store.
//!
//! The library never talks to the store itself. Its state machines hand out
//! [`KvCommand`]s and are resumed with the [`KvReply`] that the caller got
//! for them. The model at the end of the file says what an ideal store with
//! expiring keys answers; the laws about routing and token refresh are stated
//! against it.

use vstd::prelude::*;

verus! {

/// Lifetime given to a key when it is written.
#[derive(Clone, Copy, Debug, PartialEq, Eq, Structural)]
pub enum Expiry {
    /// `EX`: seconds.
    Seconds(i64),
    /// `PX`: milliseconds.
    Millis(i64),
}

impl Expiry {
    /// The lifetime in milliseconds.
    pub open spec fn millis(self) -> int {
        match self {
            Expiry::Seconds(s) => s as int * 1000,
            Expiry::Millis(ms) => ms as int,
        }
    }
}

/// One command for the store.
#[derive(Debug, PartialEq, Eq)]
pub enum KvCommand {
    /// `GET key`.
    Get { key: String },
    /// `SET key value [NX] EX|PX ttl`.
    Put { key: String, value: String, only_if_absent: bool, expiry: Expiry },
    /// `DEL key`.
    Del { key: String },
    /// `SCAN cursor MATCH pattern COUNT count`.
    Scan { cursor: String, pattern: String, count: i64 },
    /// `PING`.
    Ping,
}

/// What the store answered.
#[derive(Debug, PartialEq, Eq)]
pub enum KvReply {
    /// Answer to `GET`: the value, or `None` for a missing key.
    Value(Option<String>),
    /// Answer to `SET`: whether the key was written (`false` only for a
    /// refused `NX`).
    Stored(bool),
    /// Answer to `DEL`: the number of keys removed.
    Deleted(i64),
    /// Answer to `SCAN`: the next cursor and one batch of keys.
    Page { cursor: String, keys: Vec<String> },
    /// Answer to `PING`.
    Pong,
    /// The store could not be reached, or answered something else than the
    /// command calls for.
    Unavailable,
}

/// Mathematical value of a command.
pub enum KvCommandView {
    Get { key: Seq<char> },
    Put { key: Seq<char>, value: Seq<char>, only_if_absent: bool, expiry: Expiry },
    Del { key: Seq<char> },
    Scan { cursor: Seq<char>, pattern: Seq<char>, count: i64 },
    Ping,
}

/// Mathematical value of a reply.
pub enum KvReplyView {
    Value(Option<Seq<char>>),
    Stored(bool),
    Deleted(i64),
    Page { cursor: Seq<char>, keys: Seq<Seq<char>> },
    Pong,
    Unavailable,
}

/// The views of the strings of `v`.
pub open spec fn string_views(v: Seq<String>) -> Seq<Seq<char>> {
    Seq::new(v.len(), |i: int| v[i]@)
}

/// The view of an optional string.
pub open spec fn option_view(o: Option<String>) -> Option<Seq<char>> {
    match o {
        Some(s) => Some(s@),
        None => None,
    }
}

/// The view of an optional string slice.
pub open spec fn option_str_view(o: Option<&str>) -> Option<Seq<char>> {
    match o {
        Some(s) => Some(s@),
        None => None,
    }
}

impl View for KvCommand {
    type V = KvCommandView;

    open spec fn view(&self) -> KvCommandView {
        match *self {
            KvCommand::Get { key } => KvCommandView::Get { key: key@ },
            KvCommand::Put { key, value, only_if_absent, expiry } => KvCommandView::Put {
                key: key@,
                value: value@,
                only_if_absent,
                expiry,
            },
            KvCommand::Del { key } => KvCommandView::Del { key: key@ },
            KvCommand::Scan { cursor, pattern, count } => KvCommandView::Scan {
                cursor: cursor@,
                pattern: pattern@,
                count,
            },
            KvCommand::Ping => KvCommandView::Ping,
        }
    }
}

impl View for KvReply {
    type V = KvReplyView;

    open spec fn view(&self) -> KvReplyView {
        match *self {
            KvReply::Value(v) => KvReplyView::Value(option_view(v)),
            KvReply::Stored(b) => KvReplyView::Stored(b),
            KvReply::Deleted(n) => KvReplyView::Deleted(n),
            KvReply::Page { cursor, keys } => KvReplyView::Page {
                cursor: cursor@,
                keys: string_views(keys@),
            },
            KvReply::Pong => KvReplyView::Pong,
            KvReply::Unavailable => KvReplyView::Unavailable,
        }
    }
}

/// One entry of the model store.
pub struct KvEntry {
    pub value: Seq<char>,
    /// The instant, in milliseconds, from which the entry is gone.
    pub expires_at_ms: int,
}

/// The model store: the entries ever written and not overwritten or deleted.
/// An entry is visible at instant `now` while `now < expires_at_ms`.
pub type KvStore = Map<Seq<char>, KvEntry>;

/// Whether `key` holds a live entry at `now`.
pub open spec fn kv_live(store: KvStore, now: int, key: Seq<char>) -> bool {
    store.dom().contains(key) && now < store[key].expires_at_ms
}

/// What `GET key` answers at `now`.
pub open spec fn kv_get(store: KvStore, now: int, key: Seq<char>) -> Option<Seq<char>> {
    if kv_live(store, now, key) {
        Some(store[key].value)
    } else {
        None
    }
}

/// The store after `SET key value <expiry>` at `now`.
pub open spec fn kv_put(
    store: KvStore,
    now: int,
    key: Seq<char>,
    value: Seq<char>,
    expiry: Expiry,
) -> KvStore {
    store.insert(key, KvEntry { value, expires_at_ms: now + expiry.millis() })
}

/// The store after `cmd` ran at `now`, and the reply to it. The model covers
/// the commands that read or write one key; it has no answer to the others.
pub open spec fn kv_apply(store: KvStore, now: int, cmd: KvCommandView) -> (KvStore, KvReplyView) {
    match cmd {
        KvCommandView::Get { key } => (store, KvReplyView::Value(kv_get(store, now, key))),
        KvCommandView::Put { key, value, only_if_absent, expiry } => {
            if only_if_absent && kv_live(store, now, key) {
                (store, KvReplyView::Stored(false))
            } else {
                (kv_put(store, now, key, value, expiry), KvReplyView::Stored(true))
            }
        },
        KvCommandView::Del { key } => {
            if kv_live(store, now, key) {
                (store.remove(key), KvReplyView::Deleted(1))
            } else {
                (store.remove(key), KvReplyView::Deleted(0))
            }
        },
        KvCommandView::Scan { .. } => (store, KvReplyView::Unavailable),
        KvCommandView::Ping => (store, KvReplyView::Unavailable),
    }
}

} // verus!
