//! Gateway sessions: the records that bind a client's bearer token to a pool.
//!
//! A session lives in the key/value store under `gw:session:<token>` for as
//! long as it is valid; the store's expiry ends it. This module builds the
//! keys and commands, judges the replies, and orders the listing.

use crate::kv::Expiry;
use crate::kv::KvCommand;
use crate::kv::KvCommandView;
use crate::kv::KvReply;
use crate::kv::KvReplyView;
use crate::kv::option_view;
use crate::kv::string_views;
use crate::text::chars_of;
use crate::text::lemma_text_le_total;
use crate::text::lemma_text_le_transitive;
use crate::text::starts_with_spec;
use crate::text::str_eq;
use crate::text::text_le;
use vstd::prelude::*;
use vstd::string::StringExecFns;
use vstd::string::StrSliceExecFns;

verus! {

/// Batch size asked of `SCAN` when sessions are listed.
pub const SESSION_SCAN_COUNT: i64 = 1000;

/// One gateway session.
#[derive(Debug, PartialEq, Eq)]
pub struct GatewaySession {
    pub account_pool_id: String,
    pub policy_key: Option<String>,
    pub issued_at_ms: i64,
    pub expires_at_ms: i64,
    pub note: Option<String>,
}

/// Mathematical value of a [`GatewaySession`].
pub struct GatewaySessionView {
    pub account_pool_id: Seq<char>,
    pub policy_key: Option<Seq<char>>,
    pub issued_at_ms: i64,
    pub expires_at_ms: i64,
    pub note: Option<Seq<char>>,
}

impl View for GatewaySession {
    type V = GatewaySessionView;

    open spec fn view(&self) -> GatewaySessionView {
        GatewaySessionView {
            account_pool_id: self.account_pool_id@,
            policy_key: option_view(self.policy_key),
            issued_at_ms: self.issued_at_ms,
            expires_at_ms: self.expires_at_ms,
            note: option_view(self.note),
        }
    }
}

impl Clone for GatewaySession {
    fn clone(&self) -> (r: GatewaySession)
        ensures
            r@ == self@,
    {
        GatewaySession {
            account_pool_id: self.account_pool_id.clone(),
            policy_key: self.policy_key.clone(),
            issued_at_ms: self.issued_at_ms,
            expires_at_ms: self.expires_at_ms,
            note: self.note.clone(),
        }
    }
}

/// Why a session operation failed.
#[derive(Debug, Clone, Copy, PartialEq, Eq, Structural)]
pub enum SessionError {
    /// The lifetime of a session to store is zero or negative.
    InvalidTtl,
    /// The key/value store failed or answered out of protocol.
    KvUnavailable,
    /// The store holds something under a session key that is not a session.
    Unreadable,
}

/// The key of the session of `token`.
pub open spec fn key_for_token_spec(token: Seq<char>) -> Seq<char> {
    "gw:session:"@ + token
}

/// The token that a session key holds, if it is a session key.
pub open spec fn token_from_key_spec(key: Seq<char>) -> Option<Seq<char>> {
    if starts_with_spec(key, "gw:session:"@) {
        Some(key.skip("gw:session:"@.len() as int))
    } else {
        None
    }
}

/// Builds the key of the session of `token`: the prefix and the raw token.
pub fn key_for_token(token: &str) -> (r: String)
    ensures
        r@ == key_for_token_spec(token@),
{
    let mut key = String::from_str("gw:session:");
    key.append(token);
    key
}

/// Reads the token back from a session key; `None` for any other key.
pub fn token_from_key(key: &str) -> (r: Option<&str>)
    ensures
        match r {
            Some(token) => token_from_key_spec(key@) == Some(token@),
            None => token_from_key_spec(key@) is None,
        },
{
    let chars = chars_of(key);
    let prefix = chars_of("gw:session:");
    if crate::text::starts_with(chars.as_slice(), prefix.as_slice()) {
        let token = key.substring_char(prefix.len(), chars.len());
        assert(key@.subrange(prefix.len() as int, chars.len() as int) =~= key@.skip(
            "gw:session:"@.len() as int,
        ));
        Some(token)
    } else {
        None
    }
}

/// The token of a session is read back from its key.
pub proof fn lemma_token_from_key_round_trip(token: Seq<char>)
    ensures
        token_from_key_spec(key_for_token_spec(token)) == Some(token),
{
    let prefix = "gw:session:"@;
    let key = prefix + token;
    assert(key.subrange(0, prefix.len() as int) =~= prefix);
    assert(key.skip(prefix.len() as int) =~= token);
}

/// The command that reads the session of `token`.
pub fn get(token: &str) -> (r: KvCommand)
    ensures
        r@ == (KvCommandView::Get { key: key_for_token_spec(token@) }),
{
    KvCommand::Get { key: key_for_token(token) }
}

/// What reading a session key gave. The record is decoded by the caller.
#[derive(Debug, PartialEq, Eq)]
pub enum SessionRead {
    /// The key holds this session.
    Found(GatewaySession),
    /// The key is missing.
    Missing,
    /// The key holds something that is not a session.
    Unreadable,
    /// The store failed.
    Unavailable,
}

/// Mathematical value of a [`SessionRead`].
pub enum SessionReadView {
    Found(GatewaySessionView),
    Missing,
    Unreadable,
    Unavailable,
}

impl View for SessionRead {
    type V = SessionReadView;

    open spec fn view(&self) -> SessionReadView {
        match *self {
            SessionRead::Found(session) => SessionReadView::Found(session@),
            SessionRead::Missing => SessionReadView::Missing,
            SessionRead::Unreadable => SessionReadView::Unreadable,
            SessionRead::Unavailable => SessionReadView::Unavailable,
        }
    }
}

/// The session that a read gave: absent for a missing key, an error for a
/// value that is not a session and for a failure of the store.
pub fn found(read: SessionRead) -> (r: Result<Option<GatewaySession>, SessionError>)
    ensures
        match read {
            SessionRead::Found(session) => r == Ok::<Option<GatewaySession>, SessionError>(
                Some(session),
            ),
            SessionRead::Missing => r == Ok::<Option<GatewaySession>, SessionError>(None),
            SessionRead::Unreadable => r == Err::<Option<GatewaySession>, SessionError>(
                SessionError::Unreadable,
            ),
            SessionRead::Unavailable => r == Err::<Option<GatewaySession>, SessionError>(
                SessionError::KvUnavailable,
            ),
        },
{
    match read {
        SessionRead::Found(session) => Ok(Some(session)),
        SessionRead::Missing => Ok(None),
        SessionRead::Unreadable => Err(SessionError::Unreadable),
        SessionRead::Unavailable => Err(SessionError::KvUnavailable),
    }
}

/// The command that stores the session of `token` in its stored form for
/// `ttl_seconds`, which must be positive: `SET key encoded EX ttl_seconds`.
/// The record is encoded by the caller.
pub fn put(token: &str, encoded: String, ttl_seconds: i64) -> (r: Result<KvCommand, SessionError>)
    ensures
        match r {
            Ok(command) => ttl_seconds > 0 && command@ == (KvCommandView::Put {
                key: key_for_token_spec(token@),
                value: encoded@,
                only_if_absent: false,
                expiry: Expiry::Seconds(ttl_seconds),
            }),
            Err(e) => ttl_seconds <= 0 && e == SessionError::InvalidTtl,
        },
{
    if ttl_seconds <= 0 {
        return Err(SessionError::InvalidTtl);
    }
    Ok(
        KvCommand::Put {
            key: key_for_token(token),
            value: encoded,
            only_if_absent: false,
            expiry: Expiry::Seconds(ttl_seconds),
        },
    )
}

/// The command that deletes the session of `token`.
pub fn del(token: &str) -> (r: KvCommand)
    ensures
        r@ == (KvCommandView::Del { key: key_for_token_spec(token@) }),
{
    KvCommand::Del { key: key_for_token(token) }
}

/// Whether a deletion removed a session, by the store's reply.
pub open spec fn deleted_spec(reply: KvReplyView) -> Result<bool, SessionError> {
    match reply {
        KvReplyView::Deleted(n) => Ok(n > 0),
        _ => Err(SessionError::KvUnavailable),
    }
}

/// Judges the reply to a deletion: whether a key was removed.
pub fn deleted(reply: &KvReply) -> (r: Result<bool, SessionError>)
    ensures
        r == deleted_spec(reply@),
{
    match reply {
        KvReply::Deleted(n) => Ok(*n > 0),
        _ => Err(SessionError::KvUnavailable),
    }
}

/// The scan command for `cursor`.
pub open spec fn scan_command_spec(cursor: Seq<char>) -> KvCommandView {
    KvCommandView::Scan { cursor, pattern: "gw:session:*"@, count: SESSION_SCAN_COUNT }
}

/// What a listing does next.
#[derive(Debug, PartialEq, Eq)]
pub enum ScanStep {
    /// Send the command and come back with its reply.
    Ask(KvCommand),
    /// All keys are collected.
    Done,
    /// The listing failed.
    Failed(SessionError),
}

/// The command that begins a listing: a scan from cursor `0`.
pub fn list() -> (r: KvCommand)
    ensures
        r@ == scan_command_spec("0"@),
{
    KvCommand::Scan {
        cursor: String::from_str("0"),
        pattern: String::from_str("gw:session:*"),
        count: SESSION_SCAN_COUNT,
    }
}

/// Takes in one page of a scan: the page's keys are added to `keys`; the
/// scan goes on from the page's cursor unless that is `0`, which ends it.
/// Any other reply fails the listing and leaves `keys` as they were.
pub fn list_scan_resume(keys: &mut Vec<String>, reply: KvReply) -> (step: ScanStep)
    ensures
        match reply@ {
            KvReplyView::Page { cursor, keys: page } => {
                &&& string_views(final(keys)@) == string_views(old(keys)@) + page
                &&& cursor == "0"@ ==> step is Done
                &&& cursor != "0"@ ==> (step matches ScanStep::Ask(command) && command@
                    == scan_command_spec(cursor))
            },
            _ => {
                &&& final(keys)@ == old(keys)@
                &&& (step matches ScanStep::Failed(e) && e == SessionError::KvUnavailable)
            },
        },
{
    match reply {
        KvReply::Page { cursor, keys: mut page } => {
            let ghost before = string_views(keys@);
            let ghost added = string_views(page@);
            keys.append(&mut page);
            assert(string_views(keys@) =~= before + added);
            if str_eq(cursor.as_str(), "0") {
                ScanStep::Done
            } else {
                ScanStep::Ask(
                    KvCommand::Scan {
                        cursor,
                        pattern: String::from_str("gw:session:*"),
                        count: SESSION_SCAN_COUNT,
                    },
                )
            }
        },
        _ => ScanStep::Failed(SessionError::KvUnavailable),
    }
}

/// The tokens of the session keys among `keys`, in order. Keys that are
/// not session keys are left out.
pub open spec fn session_tokens_spec(keys: Seq<Seq<char>>) -> Seq<Seq<char>>
    decreases keys.len(),
{
    if keys.len() == 0 {
        Seq::empty()
    } else {
        let rest = session_tokens_spec(keys.drop_last());
        match token_from_key_spec(keys.last()) {
            Some(token) => rest.push(token),
            None => rest,
        }
    }
}

/// Reads the tokens out of scanned keys.
pub fn session_tokens(keys: &[String]) -> (out: Vec<String>)
    ensures
        string_views(out@) == session_tokens_spec(string_views(keys@)),
{
    let ghost views = string_views(keys@);
    let mut out: Vec<String> = Vec::new();
    let mut i: usize = 0;
    assert(views.take(0) =~= Seq::empty());
    assert(string_views(out@) =~= Seq::empty());
    while i < keys.len()
        invariant
            i <= keys.len(),
            views == string_views(keys@),
            string_views(out@) == session_tokens_spec(views.take(i as int)),
        decreases keys.len() - i,
    {
        assert(views.take(i + 1).drop_last() =~= views.take(i as int));
        assert(views.take(i + 1).last() == keys@[i as int]@);
        match token_from_key(keys[i].as_str()) {
            Some(token) => {
                let ghost before = string_views(out@);
                out.push(String::from_str(token));
                assert(string_views(out@) =~= before.push(token@));
            },
            None => {},
        }
        i += 1;
    }
    assert(views.take(i as int) =~= views);
    out
}

/// One line of a listing.
#[derive(Debug, PartialEq, Eq)]
pub struct SessionEntry {
    pub token: String,
    pub session: GatewaySession,
}

/// Mathematical value of a [`SessionEntry`].
pub struct SessionEntryView {
    pub token: Seq<char>,
    pub session: GatewaySessionView,
}

impl View for SessionEntry {
    type V = SessionEntryView;

    open spec fn view(&self) -> SessionEntryView {
        SessionEntryView { token: self.token@, session: self.session@ }
    }
}

/// Takes the session of a scanned key into a listing: a session that was
/// found is added under its token; a key that has gone missing since the
/// scan is passed over; a value that is not a session, and a failure of the
/// store, fail the listing and leave it as it was.
pub fn list_collect(out: &mut Vec<SessionEntry>, token: &str, read: SessionRead) -> (r: Result<
    (),
    SessionError,
>)
    ensures
        match read@ {
            SessionReadView::Found(session) => r is Ok && entry_views(final(out)@) == entry_views(
                old(out)@,
            ).push(SessionEntryView { token: token@, session }),
            SessionReadView::Missing => r is Ok && final(out)@ == old(out)@,
            SessionReadView::Unreadable => r == Err::<(), SessionError>(SessionError::Unreadable)
                && final(out)@ == old(out)@,
            SessionReadView::Unavailable => r == Err::<(), SessionError>(
                SessionError::KvUnavailable,
            ) && final(out)@ == old(out)@,
        },
{
    match read {
        SessionRead::Found(session) => {
            let ghost before = entry_views(out@);
            let entry = SessionEntry { token: String::from_str(token), session };
            out.push(entry);
            assert(entry_views(out@) =~= before.push(entry@));
            Ok(())
        },
        SessionRead::Missing => Ok(()),
        SessionRead::Unreadable => Err(SessionError::Unreadable),
        SessionRead::Unavailable => Err(SessionError::KvUnavailable),
    }
}

/// The views of the entries of a listing.
pub open spec fn entry_views(entries: Seq<SessionEntry>) -> Seq<SessionEntryView> {
    Seq::new(entries.len(), |i: int| entries[i]@)
}

/// The order of a listing: by expiry, then by token.
pub open spec fn entry_le(a: SessionEntryView, b: SessionEntryView) -> bool {
    a.session.expires_at_ms < b.session.expires_at_ms || (a.session.expires_at_ms
        == b.session.expires_at_ms && text_le(a.token, b.token))
}

/// Whether a listing is in order.
pub open spec fn is_sorted(entries: Seq<SessionEntryView>) -> bool {
    forall|i: int, j: int| 0 <= i < j < entries.len() ==> entry_le(entries[i], entries[j])
}

/// Any two entries are comparable.
pub proof fn lemma_entry_le_total(a: SessionEntryView, b: SessionEntryView)
    ensures
        entry_le(a, b) || entry_le(b, a),
{
    lemma_text_le_total(a.token, b.token);
}

/// The order of a listing is transitive.
pub proof fn lemma_entry_le_transitive(
    a: SessionEntryView,
    b: SessionEntryView,
    c: SessionEntryView,
)
    requires
        entry_le(a, b),
        entry_le(b, c),
    ensures
        entry_le(a, c),
{
    if a.session.expires_at_ms == b.session.expires_at_ms && b.session.expires_at_ms
        == c.session.expires_at_ms {
        lemma_text_le_transitive(a.token, b.token, c.token);
    }
}

/// Whether `a` comes before `b` in a listing, or at the same place.
fn entry_le_exec(a: &SessionEntry, b: &SessionEntry) -> (r: bool)
    ensures
        r == entry_le(a@, b@),
{
    if a.session.expires_at_ms != b.session.expires_at_ms {
        a.session.expires_at_ms < b.session.expires_at_ms
    } else {
        let x = chars_of(a.token.as_str());
        let y = chars_of(b.token.as_str());
        crate::text::text_le_exec(x.as_slice(), y.as_slice())
    }
}

/// The test for the entries that expire at `expires_at_ms` under `token`.
pub open spec fn with_keys(expires_at_ms: i64, token: Seq<char>) -> spec_fn(
    SessionEntryView,
) -> bool {
    |e: SessionEntryView| e.session.expires_at_ms == expires_at_ms && e.token == token
}

/// Filtering a list in which nothing passes the test leaves nothing.
proof fn lemma_filter_none(s: Seq<SessionEntryView>, pred: spec_fn(SessionEntryView) -> bool)
    requires
        forall|i: int| 0 <= i < s.len() ==> !pred(#[trigger] s[i]),
    ensures
        s.filter(pred) == Seq::<SessionEntryView>::empty(),
    decreases s.len(),
{
    reveal(Seq::filter);
    if s.len() > 0 {
        assert forall|i: int| 0 <= i < s.drop_last().len() implies !pred(
            #[trigger] s.drop_last()[i],
        ) by {
            assert(s.drop_last()[i] == s[i]);
        }
        lemma_filter_none(s.drop_last(), pred);
    }
}

/// What one entry contributes to a filtered listing.
spec fn passing(entry: SessionEntryView, pred: spec_fn(SessionEntryView) -> bool) -> Seq<
    SessionEntryView,
> {
    if pred(entry) {
        seq![entry]
    } else {
        Seq::empty()
    }
}

/// Puts `entry` into the ordered listing `out`, before the entries that do
/// not come before it.
fn insert_sorted(out: &mut Vec<SessionEntry>, entry: SessionEntry)
    requires
        is_sorted(entry_views(old(out)@)),
    ensures
        is_sorted(entry_views(final(out)@)),
        entry_views(final(out)@).to_multiset() == entry_views(old(out)@).to_multiset().insert(
            entry@,
        ),
        forall|expires_at_ms: i64, token: Seq<char>|
            #![trigger with_keys(expires_at_ms, token)]
            entry_views(final(out)@).filter(with_keys(expires_at_ms, token)) == passing(
                entry@,
                with_keys(expires_at_ms, token),
            ) + entry_views(old(out)@).filter(with_keys(expires_at_ms, token)),
{
    let ghost before = entry_views(out@);
    let mut k: usize = 0;
    while k < out.len() && !entry_le_exec(&entry, &out[k])
        invariant
            k <= out.len(),
            out@ == old(out)@,
            forall|j: int| 0 <= j < k ==> !entry_le(entry@, entry_views(out@)[j]),
        decreases out.len() - k,
    {
        k += 1;
    }
    assert(k < before.len() ==> entry_le(entry@, before[k as int]));
    out.insert(k, entry);
    let ghost after = entry_views(out@);
    proof {
        assert(after =~= before.insert(k as int, entry@));
        assert forall|i: int, j: int| 0 <= i < j < after.len() implies entry_le(
            after[i],
            after[j],
        ) by {
            if j == k {
                assert(after[i] == before[i]);
                lemma_entry_le_total(before[i], entry@);
            } else if i == k {
                assert(after[j] == before[j - 1]);
                if j - 1 > k {
                    lemma_entry_le_transitive(entry@, before[k as int], before[j - 1]);
                }
            } else if i < k && j > k {
                assert(after[i] == before[i]);
                assert(after[j] == before[j - 1]);
            } else if i < k {
                assert(after[i] == before[i] && after[j] == before[j]);
            } else {
                assert(after[i] == before[i - 1] && after[j] == before[j - 1]);
            }
        }
        assert(after.remove(k as int) =~= before);
        vstd::seq_lib::to_multiset_remove(after, k as int);
        assert(after.to_multiset().count(entry@) > 0) by {
            broadcast use vstd::seq_lib::group_to_multiset_ensures;

            assert(after.contains(after[k as int]));
        }
        assert(after.to_multiset() =~= before.to_multiset().insert(entry@));
        assert forall|expires_at_ms: i64, token: Seq<char>|
            #![trigger with_keys(expires_at_ms, token)]
            after.filter(with_keys(expires_at_ms, token)) == passing(
                entry@,
                with_keys(expires_at_ms, token),
            ) + before.filter(with_keys(expires_at_ms, token)) by {
            let pred = with_keys(expires_at_ms, token);
            let head = before.take(k as int);
            let tail = before.skip(k as int);
            assert(before =~= head + tail);
            assert(after =~= head + seq![entry@] + tail);
            Seq::filter_distributes_over_add(head, tail, pred);
            Seq::filter_distributes_over_add(head + seq![entry@], tail, pred);
            Seq::filter_distributes_over_add(head, seq![entry@], pred);
            assert(seq![entry@].filter(pred) =~= passing(entry@, pred)) by {
                reveal_with_fuel(Seq::filter, 2);
                assert(seq![entry@].drop_last() =~= Seq::<SessionEntryView>::empty());
            }
            if pred(entry@) {
                // Nothing before the place of insertion has the keys of the entry.
                assert forall|i: int| 0 <= i < head.len() implies !pred(#[trigger] head[i]) by {
                    assert(head[i] == before[i]);
                    lemma_text_le_total(entry@.token, entry@.token);
                }
                lemma_filter_none(head, pred);
                assert(after.filter(pred) =~= passing(entry@, pred) + before.filter(pred));
            } else {
                assert(after.filter(pred) =~= passing(entry@, pred) + before.filter(pred));
            }
        }
    }
}

/// Orders a listing by expiry, earliest first, and by token among sessions
/// that expire together. The result holds the entries that were given, each
/// as often as it was given, and entries with the same expiry and token keep
/// the order in which they were given.
pub fn sort_sessions(entries: Vec<SessionEntry>) -> (out: Vec<SessionEntry>)
    ensures
        is_sorted(entry_views(out@)),
        entry_views(out@).to_multiset() == entry_views(entries@).to_multiset(),
        forall|expires_at_ms: i64, token: Seq<char>|
            #![trigger with_keys(expires_at_ms, token)]
            entry_views(out@).filter(with_keys(expires_at_ms, token)) == entry_views(
                entries@,
            ).filter(with_keys(expires_at_ms, token)),
{
    let mut rest = entries;
    let mut out: Vec<SessionEntry> = Vec::new();
    proof {
        assert(entry_views(out@) =~= Seq::empty());
        broadcast use vstd::seq_lib::group_to_multiset_ensures;

        assert(entry_views(out@).to_multiset() =~= vstd::multiset::Multiset::empty());
        assert(entry_views(rest@).to_multiset().add(entry_views(out@).to_multiset())
            =~= entry_views(entries@).to_multiset());
        assert forall|expires_at_ms: i64, token: Seq<char>|
            #![trigger with_keys(expires_at_ms, token)]
            entry_views(rest@).filter(with_keys(expires_at_ms, token)) + entry_views(out@).filter(
                with_keys(expires_at_ms, token),
            ) == entry_views(entries@).filter(with_keys(expires_at_ms, token)) by {
            reveal(Seq::filter);
            assert(entry_views(rest@).filter(with_keys(expires_at_ms, token)) + Seq::<
                SessionEntryView,
            >::empty() =~= entry_views(rest@).filter(with_keys(expires_at_ms, token)));
        }
    }
    while rest.len() > 0
        invariant
            is_sorted(entry_views(out@)),
            entry_views(rest@).to_multiset().add(entry_views(out@).to_multiset()) == entry_views(
                entries@,
            ).to_multiset(),
            forall|expires_at_ms: i64, token: Seq<char>|
                #![trigger with_keys(expires_at_ms, token)]
                entry_views(rest@).filter(with_keys(expires_at_ms, token)) + entry_views(
                    out@,
                ).filter(with_keys(expires_at_ms, token)) == entry_views(entries@).filter(
                    with_keys(expires_at_ms, token),
                ),
        decreases rest.len(),
    {
        let ghost rest_before = entry_views(rest@);
        let ghost out_before = entry_views(out@);
        let entry = rest.pop().unwrap();
        proof {
            assert(rest_before =~= entry_views(rest@).push(entry@));
            vstd::seq_lib::to_multiset_build(entry_views(rest@), entry@);
        }
        insert_sorted(&mut out, entry);
        assert(entry_views(rest@).to_multiset().add(entry_views(out@).to_multiset())
            =~= rest_before.to_multiset().add(out_before.to_multiset()));
        assert forall|expires_at_ms: i64, token: Seq<char>|
            #![trigger with_keys(expires_at_ms, token)]
            entry_views(rest@).filter(with_keys(expires_at_ms, token)) + entry_views(out@).filter(
                with_keys(expires_at_ms, token),
            ) == entry_views(entries@).filter(with_keys(expires_at_ms, token)) by {
            let pred = with_keys(expires_at_ms, token);
            let rest_now = entry_views(rest@);
            assert(rest_before.filter(pred) =~= rest_now.filter(pred) + passing(entry@, pred)) by {
                reveal(Seq::filter);
                assert(rest_before.drop_last() =~= rest_now);
                assert(rest_before.last() == entry@);
            }
            assert(rest_before.filter(pred) + out_before.filter(pred) == entry_views(
                entries@,
            ).filter(pred));
            assert(rest_now.filter(pred) + (passing(entry@, pred) + out_before.filter(pred))
                =~= (rest_now.filter(pred) + passing(entry@, pred)) + out_before.filter(pred));
        }
    }
    proof {
        assert(entry_views(rest@) =~= Seq::empty());
        broadcast use vstd::seq_lib::group_to_multiset_ensures;

        assert(entry_views(rest@).to_multiset() =~= vstd::multiset::Multiset::empty());
        assert(entry_views(out@).to_multiset() =~= entry_views(rest@).to_multiset().add(
            entry_views(out@).to_multiset(),
        ));
        assert forall|expires_at_ms: i64, token: Seq<char>|
            #![trigger with_keys(expires_at_ms, token)]
            entry_views(out@).filter(with_keys(expires_at_ms, token)) == entry_views(
                entries@,
            ).filter(with_keys(expires_at_ms, token)) by {
            let pred = with_keys(expires_at_ms, token);
            reveal(Seq::filter);
            assert(entry_views(rest@).filter(pred) =~= Seq::empty());
            assert(entry_views(rest@).filter(pred) + entry_views(out@).filter(pred)
                =~= entry_views(out@).filter(pred));
        }
    }
    out
}

} // verus!
