//! The request pipeline: what each layer decides about a request.
//!
//! Three layers wrap the handlers. The outermost assigns the request id and
//! keeps the counters, the next authenticates the gateway session, the
//! innermost routes the request to an account. The layers themselves wait
//! for the network; what they decide between two waits is in this module.

use axum::http::HeaderMap;
use crate::account_token_provider::TokenError;
use crate::codec::utf8;
use crate::config::find_pool;
use crate::config::find_pool_spec;
use crate::config::PoolEntry;
use crate::gateway_sessions::GatewaySession;
use crate::gateway_sessions::key_for_token;
use crate::gateway_sessions::key_for_token_spec;
use crate::gateway_sessions::SessionRead;
use crate::headers::fields_of;
use crate::headers::first_field;
use crate::headers::first_value_spec;
use crate::headers::header_map_fields;
use crate::headers::header_map_takes;
use crate::headers::header_text_spec;
use crate::headers::inserted_spec;
use crate::headers::is_header_value;
use crate::kv::KvCommand;
use crate::kv::KvCommandView;
use crate::kv::KvReply;
use crate::kv::option_view;
use crate::kv::string_views;
use crate::observability::Counter;
use crate::observability::CounterDelta;
use crate::observability::request_duration_deltas;
use crate::observability::request_id_spec;
use crate::proxy::ForwardError;
use crate::routing::extract_conversation_id;
use crate::routing::extract_conversation_id_spec;
use crate::routing::route_account;
use crate::routing::route_start_spec;
use crate::routing::RouteError;
use crate::routing::RouteInfo;
use crate::routing::RouteStep;
use crate::text::ascii_lowercase;
use crate::text::chars_of;
use crate::text::ends_with_spec;
use crate::text::eq_ignore_ascii_case;
use crate::text::eq_ignore_ascii_case_spec;
use crate::text::find_from;
use crate::text::find_spec;
use crate::text::index_of_from;
use crate::text::index_of_from_spec;
use crate::text::is_whitespace_spec;
use crate::text::skip_whitespace;
use crate::text::skip_whitespace_spec;
use crate::text::skip_word;
use crate::text::skip_word_spec;
use crate::text::str_eq;
use crate::text::substring;
use crate::text::trim_end_matches;
use crate::text::trim_end_matches_spec;
use vstd::prelude::*;
use vstd::string::StringExecFns;
use vstd::string::StrSliceExecFns;

verus! {

/// The token of an `Authorization` value: the second whitespace-separated
/// word, provided that the first one is `bearer` in any case.
pub open spec fn bearer_token_spec(value: Seq<char>) -> Option<Seq<char>> {
    let a = skip_whitespace_spec(value, 0);
    let b = skip_word_spec(value, a);
    let c = skip_whitespace_spec(value, b);
    let d = skip_word_spec(value, c);
    if a < b && eq_ignore_ascii_case_spec(value.subrange(a, b), "bearer"@) && c < d {
        Some(value.subrange(c, d))
    } else {
        None
    }
}

/// Extracts the bearer token from an `Authorization` header value.
pub fn parse_bearer_token(value: &str) -> (r: Option<&str>)
    ensures
        match r {
            Some(token) => bearer_token_spec(value@) == Some(token@),
            None => bearer_token_spec(value@) is None,
        },
{
    let chars = chars_of(value);
    let v = chars.as_slice();
    let a = skip_whitespace(v, 0);
    let b = skip_word(v, a);
    let c = skip_whitespace(v, b);
    let d = skip_word(v, c);
    if a == b {
        return None;
    }
    let scheme = vstd::slice::slice_subrange(v, a, b);
    let bearer = chars_of("bearer");
    if !eq_ignore_ascii_case(scheme, bearer.as_slice()) {
        return None;
    }
    if c == d {
        return None;
    }
    Some(value.substring_char(c, d))
}

/// A bearer header made of the scheme, one space and a token is parsed back
/// to that token, for every non-empty token without whitespace.
pub proof fn lemma_parse_bearer_round_trip(token: Seq<char>)
    requires
        token.len() > 0,
        forall|i: int| 0 <= i < token.len() ==> !is_whitespace_spec(#[trigger] token[i]),
    ensures
        bearer_token_spec("Bearer "@ + token) == Some(token),
{
    reveal_strlit("Bearer ");
    reveal_strlit("bearer");
    let value = "Bearer "@ + token;
    assert(value.len() == 7 + token.len());
    assert forall|i: int| 7 <= i < value.len() implies !is_whitespace_spec(#[trigger] value[i]) by {
        assert(value[i] == token[i - 7]);
    }
    crate::text::lemma_skip_whitespace_bounds(value, 0);
    let a = skip_whitespace_spec(value, 0);
    assert(a == 0);
    crate::text::lemma_skip_word_bounds(value, 0);
    let b = skip_word_spec(value, 0);
    assert(is_whitespace_spec(value[6]));
    assert(!is_whitespace_spec(value[0]) && !is_whitespace_spec(value[1]) && !is_whitespace_spec(
        value[2],
    ) && !is_whitespace_spec(value[3]) && !is_whitespace_spec(value[4]) && !is_whitespace_spec(
        value[5],
    ));
    assert(b == 6) by {
        if b > 6 {
            assert(!is_whitespace_spec(value[6]));
        }
    }
    crate::text::lemma_skip_whitespace_bounds(value, 6);
    let c = skip_whitespace_spec(value, 6);
    assert(c == 7) by {
        if c < 7 {
            assert(c == 6);
        }
        if c > 7 {
            assert(is_whitespace_spec(value[7]));
        }
    }
    crate::text::lemma_skip_word_bounds(value, 7);
    let d = skip_word_spec(value, 7);
    assert(d == value.len());
    assert(value.subrange(7, value.len() as int) =~= token);
    assert(ascii_lowercase(value.subrange(0, 6)) =~= ascii_lowercase("bearer"@));
}

/// Whether `path` is served without authentication and outside the request
/// counters.
pub open spec fn is_public_path_spec(path: Seq<char>) -> bool {
    path == "/healthz"@ || path == "/readyz"@ || path == "/metrics"@
}

/// Whether `path` is one of the public endpoints.
pub fn is_public_path(path: &str) -> (r: bool)
    ensures
        r == is_public_path_spec(path@),
{
    str_eq(path, "/healthz") || str_eq(path, "/readyz") || str_eq(path, "/metrics")
}

/// The characters that end the authority of a URL.
pub open spec fn is_authority_end(c: char) -> bool {
    c == '/' || c == '?' || c == '#'
}

/// Index of the first character at or after `i` that ends the authority
/// (`url.len()` when there is none).
pub open spec fn authority_end_spec(url: Seq<char>, i: int) -> int
    decreases url.len() - i,
{
    if 0 <= i < url.len() && !is_authority_end(url[i]) {
        authority_end_spec(url, i + 1)
    } else {
        i
    }
}

/// One past the last `@` of `url[start..j]`; `start` when there is none.
pub open spec fn userinfo_end_spec(url: Seq<char>, start: int, j: int) -> int
    decreases j,
{
    if 0 <= start < j <= url.len() && url[j - 1] != '@' {
        userinfo_end_spec(url, start, j - 1)
    } else {
        j
    }
}

/// Where the password of a URL stands, as the indices of its first
/// character and of the `@` that follows it.
///
/// The authority runs from after the first `://` to the first `/`, `?` or
/// `#`. The userinfo is the authority up to its last `@`. The password is
/// the userinfo after its first `:`. A text without `://`, an authority
/// without `@`, and a userinfo without `:` have no password.
pub open spec fn password_range_spec(url: Seq<char>) -> Option<(int, int)> {
    match find_spec(url, "://"@) {
        None => None,
        Some(p) => {
            let start = p + 3;
            let end = authority_end_spec(url, start);
            let after_at = userinfo_end_spec(url, start, end);
            let colon = index_of_from_spec(url, ':', start);
            if after_at > start && colon < after_at - 1 {
                Some((colon + 1, after_at - 1))
            } else {
                None
            }
        },
    }
}

/// `url` with its password replaced by `****`; `url` itself if it has no
/// password.
pub open spec fn redact_url_spec(url: Seq<char>) -> Seq<char> {
    match password_range_spec(url) {
        None => url,
        Some((from, to)) => url.subrange(0, from) + "****"@ + url.subrange(to, url.len() as int),
    }
}

/// What `authority_end_spec` finds: the end of the run without `/`, `?`
/// and `#` that starts at `i`.
pub proof fn lemma_authority_end_bounds(url: Seq<char>, i: int)
    requires
        0 <= i <= url.len(),
    ensures
        i <= authority_end_spec(url, i) <= url.len(),
        forall|j: int| i <= j < authority_end_spec(url, i) ==> !is_authority_end(#[trigger] url[j]),
        authority_end_spec(url, i) < url.len() ==> is_authority_end(
            url[authority_end_spec(url, i)],
        ),
    decreases url.len() - i,
{
    if i < url.len() && !is_authority_end(url[i]) {
        lemma_authority_end_bounds(url, i + 1);
    }
}

/// What `userinfo_end_spec` finds: the place after the last `@` of
/// `url[start..j]`.
pub proof fn lemma_userinfo_end_bounds(url: Seq<char>, start: int, j: int)
    requires
        0 <= start <= j <= url.len(),
    ensures
        start <= userinfo_end_spec(url, start, j) <= j,
        forall|k: int| userinfo_end_spec(url, start, j) <= k < j ==> #[trigger] url[k] != '@',
        userinfo_end_spec(url, start, j) > start ==> url[userinfo_end_spec(url, start, j) - 1]
            == '@',
    decreases j,
{
    if start < j && url[j - 1] != '@' {
        lemma_userinfo_end_bounds(url, start, j - 1);
    }
}

/// Finds the end of the authority that starts at `from`.
fn authority_end(v: &[char], from: usize) -> (r: usize)
    requires
        from <= v.len(),
    ensures
        r == authority_end_spec(v@, from as int),
        from <= r <= v.len(),
{
    let mut i: usize = from;
    while i < v.len() && !(v[i] == '/' || v[i] == '?' || v[i] == '#')
        invariant
            from <= i <= v.len(),
            authority_end_spec(v@, from as int) == authority_end_spec(v@, i as int),
        decreases v.len() - i,
    {
        i += 1;
    }
    i
}

/// Finds the place after the last `@` of `v[start..end]`.
fn userinfo_end(v: &[char], start: usize, end: usize) -> (r: usize)
    requires
        start <= end <= v.len(),
    ensures
        r == userinfo_end_spec(v@, start as int, end as int),
        start <= r <= end,
{
    let mut j: usize = end;
    while j > start && v[j - 1] != '@'
        invariant
            start <= j <= end <= v.len(),
            userinfo_end_spec(v@, start as int, end as int) == userinfo_end_spec(
                v@,
                start as int,
                j as int,
            ),
        decreases j,
    {
        j -= 1;
    }
    j
}

/// Hides the password of a URL so that the URL can be logged. Nothing but
/// the password is changed.
pub fn redact_url(url: &str) -> (r: String)
    ensures
        r@ == redact_url_spec(url@),
{
    let chars = chars_of(url);
    let v = chars.as_slice();
    let sep = chars_of("://");
    proof {
        reveal_strlit("://");
    }
    match find_from(v, sep.as_slice(), 0) {
        None => String::from_str(url),
        Some(p) => {
            let start: usize = p + 3;
            let end = authority_end(v, start);
            let after_at = userinfo_end(v, start, end);
            let colon = index_of_from(v, ':', start);
            if after_at > start && colon < after_at - 1 {
                let mut out = substring(url, 0, colon + 1);
                out.append("****");
                let rest = substring(url, after_at - 1, v.len());
                out.append(rest.as_str());
                out
            } else {
                String::from_str(url)
            }
        },
    }
}

/// Redacting changes the password and nothing else.
///
/// A URL without a password is unchanged. In a URL with one, the password
/// stands in the userinfo: after the first `:` that follows `://`, before
/// the last `@` of the authority. The result is the input up to and with
/// that `:` (scheme and user), then `****`, then the input from that `@` on
/// (host, port, path, query and fragment).
pub proof fn lemma_redact_url_preserves_other_parts(url: Seq<char>)
    ensures
        match password_range_spec(url) {
            None => redact_url_spec(url) == url,
            Some((from, to)) => {
                let r = redact_url_spec(url);
                let start = find_spec(url, "://"@)->Some_0 + 3;
                let end = authority_end_spec(url, start);
                &&& find_spec(url, "://"@) is Some
                &&& 0 <= start < from <= to < end <= url.len()
                &&& url[from - 1] == ':'
                &&& url[to] == '@'
                &&& forall|j: int| start <= j < from - 1 ==> #[trigger] url[j] != ':'
                &&& forall|j: int| start <= j < end ==> !is_authority_end(#[trigger] url[j])
                &&& forall|j: int| to < j < end ==> #[trigger] url[j] != '@'
                &&& r.len() == from + 4 + (url.len() - to)
                &&& r.subrange(0, from) == url.subrange(0, from)
                &&& r.subrange(from, from + 4) == "****"@
                &&& r.subrange(from + 4, r.len() as int) == url.subrange(to, url.len() as int)
            },
        },
{
    reveal_strlit("://");
    reveal_strlit("****");
    match find_spec(url, "://"@) {
        None => {},
        Some(p) => {
            crate::text::lemma_find_from(url, "://"@, 0);
            lemma_authority_end_bounds(url, p + 3);
            let end = authority_end_spec(url, p + 3);
            lemma_userinfo_end_bounds(url, p + 3, end);
            crate::text::lemma_index_of_from_bounds(url, ':', p + 3);
            match password_range_spec(url) {
                None => {},
                Some((from, to)) => {
                    let r = redact_url_spec(url);
                    assert(r.subrange(0, from) =~= url.subrange(0, from));
                    assert(r.subrange(from, from + 4) =~= "****"@);
                    assert(r.subrange(from + 4, r.len() as int) =~= url.subrange(
                        to,
                        url.len() as int,
                    ));
                },
            }
        },
    }
}

/// The characters of a redacted URL with a password: those of the input
/// before the password, four stars, those of the input from the `@` on.
proof fn lemma_redacted_chars(url: Seq<char>, from: int, to: int)
    requires
        password_range_spec(url) == Some((from, to)),
    ensures
        0 < from <= to < url.len(),
        redact_url_spec(url).len() == from + 4 + (url.len() - to),
        forall|j: int| 0 <= j < from ==> #[trigger] redact_url_spec(url)[j] == url[j],
        forall|j: int| from <= j < from + 4 ==> #[trigger] redact_url_spec(url)[j] == '*',
        forall|j: int|
            from + 4 <= j < redact_url_spec(url).len() ==> #[trigger] redact_url_spec(url)[j]
                == url[j - from - 4 + to],
{
    reveal_strlit("****");
    lemma_redact_url_preserves_other_parts(url);
}

/// Redacting a redacted URL changes nothing.
pub proof fn lemma_redact_url_idempotent(url: Seq<char>)
    ensures
        redact_url_spec(redact_url_spec(url)) == redact_url_spec(url),
{
    let sep = "://"@;
    let r = redact_url_spec(url);
    match password_range_spec(url) {
        None => {},
        Some((from, to)) => {
            reveal_strlit("://");
            lemma_redact_url_preserves_other_parts(url);
            lemma_redacted_chars(url, from, to);
            let p = find_spec(url, sep)->Some_0;
            let start = p + 3;
            let end = authority_end_spec(url, start);
            let shift = from + 4 - to;
            crate::text::lemma_find_from(url, sep, 0);
            lemma_authority_end_bounds(url, start);
            // The separator is found at the same place.
            assert(find_spec(r, sep) == Some(p)) by {
                assert(crate::text::matches_at(url, sep, p));
                assert(r.subrange(p, p + 3) =~= url.subrange(p, p + 3));
                assert(crate::text::matches_at(r, sep, p));
                assert forall|j: int| 0 <= j < p implies !crate::text::matches_at(r, sep, j) by {
                    assert(r.subrange(j, j + 3) =~= url.subrange(j, j + 3));
                    assert(!crate::text::matches_at(url, sep, j));
                }
                crate::text::lemma_find_from(r, sep, 0);
            }
            // The authority of the result ends where that of the input ends.
            let end2 = authority_end_spec(r, start);
            assert(end2 == end + shift) by {
                lemma_authority_end_bounds(r, start);
                if end2 < end + shift {
                    if end2 < from {
                        assert(r[end2] == url[end2]);
                    } else if end2 < from + 4 {
                        assert(r[end2] == '*');
                    } else {
                        assert(r[end2] == url[end2 - shift]);
                    }
                }
                if end2 > end + shift {
                    assert(r[end + shift] == url[end]);
                }
            }
            // Its userinfo ends with the mask.
            let after_at2 = userinfo_end_spec(r, start, end2);
            assert(after_at2 == from + 5) by {
                lemma_userinfo_end_bounds(r, start, end2);
                assert(r[from + 4] == url[to]);
                if after_at2 > from + 5 {
                    assert(r[after_at2 - 1] == url[after_at2 - 1 - shift]);
                }
            }
            // Its first colon is that of the input.
            let colon2 = index_of_from_spec(r, ':', start);
            assert(colon2 == from - 1) by {
                crate::text::lemma_index_of_from_bounds(r, ':', start);
                assert(r[from - 1] == url[from - 1]);
                if colon2 < from - 1 {
                    assert(r[colon2] == url[colon2]);
                }
            }
            assert(password_range_spec(r) == Some((from, from + 4)));
            assert(redact_url_spec(r) =~= r) by {
                reveal_strlit("****");
            }
        },
    }
}

/// Whether an upstream base URL looks like the backend root rather than the
/// API root below it: without its trailing slashes and in lower case, it
/// ends with `/backend-api` and not with `/backend-api/codex`.
pub open spec fn upstream_base_url_is_suspicious(url: Seq<char>) -> bool {
    let end = trim_end_matches_spec(url, '/', url.len() as int);
    let base = ascii_lowercase(url.subrange(0, end));
    ends_with_spec(base, "/backend-api"@) && !ends_with_spec(base, "/backend-api/codex"@)
}

/// Tells whether a warning about the upstream base URL is due.
pub fn warn_if_upstream_base_url_is_suspicious(upstream_base_url: &str) -> (r: bool)
    ensures
        r == upstream_base_url_is_suspicious(upstream_base_url@),
{
    let chars = chars_of(upstream_base_url);
    let end = trim_end_matches(chars.as_slice(), '/', chars.len());
    let base = crate::text::to_ascii_lowercase_vec(
        vstd::slice::slice_subrange(chars.as_slice(), 0, end),
    );
    let api = chars_of("/backend-api");
    let codex = chars_of("/backend-api/codex");
    crate::text::ends_with(base.as_slice(), api.as_slice()) && !crate::text::ends_with(
        base.as_slice(),
        codex.as_slice(),
    )
}

/// The kinds of failure that the pipeline tells apart.
#[derive(Debug, Clone, Copy, PartialEq, Eq, Structural)]
pub enum ErrorKind {
    /// A programming or configuration error.
    InvariantViolation,
    /// The key/value store failed.
    KvUnavailable,
    /// The client showed no valid session.
    SessionUnauthorized,
    /// Routing failed, and not because of the store.
    RoutingFailure,
    /// No upstream credential, and not because of the store.
    TokenProviderFailure,
    /// The upstream could not be reached.
    UpstreamTransport,
    /// The upstream's answer could not be read.
    UpstreamProtocol,
    /// The request body is over the cap.
    RequestTooLarge,
}

impl ErrorKind {
    /// The response status of a failure.
    pub open spec fn status_spec(self) -> u16 {
        match self {
            ErrorKind::InvariantViolation => 500,
            ErrorKind::KvUnavailable => 503,
            ErrorKind::SessionUnauthorized => 401,
            ErrorKind::RoutingFailure => 500,
            ErrorKind::TokenProviderFailure => 502,
            ErrorKind::UpstreamTransport => 502,
            ErrorKind::UpstreamProtocol => 502,
            ErrorKind::RequestTooLarge => 400,
        }
    }

    /// The counter that a failure of this kind moves where it is detected,
    /// if it has one. Unauthorized requests are counted by their status
    /// when the request ends, and upstream failures by the forwarder.
    pub open spec fn counter_spec(self) -> Option<Counter> {
        match self {
            ErrorKind::KvUnavailable => Some(Counter::RedisErrorsTotal),
            ErrorKind::RoutingFailure => Some(Counter::RoutingErrorsTotal),
            ErrorKind::TokenProviderFailure => Some(Counter::TokenErrorsTotal),
            _ => None,
        }
    }

    /// The response status of a failure.
    pub fn status(&self) -> (r: u16)
        ensures
            r == self.status_spec(),
    {
        match self {
            ErrorKind::InvariantViolation => 500,
            ErrorKind::KvUnavailable => 503,
            ErrorKind::SessionUnauthorized => 401,
            ErrorKind::RoutingFailure => 500,
            ErrorKind::TokenProviderFailure => 502,
            ErrorKind::UpstreamTransport => 502,
            ErrorKind::UpstreamProtocol => 502,
            ErrorKind::RequestTooLarge => 400,
        }
    }

    /// The counter that a failure of this kind moves where it is detected.
    pub fn counter(&self) -> (r: Option<Counter>)
        ensures
            r == self.counter_spec(),
    {
        match self {
            ErrorKind::KvUnavailable => Some(Counter::RedisErrorsTotal),
            ErrorKind::RoutingFailure => Some(Counter::RoutingErrorsTotal),
            ErrorKind::TokenProviderFailure => Some(Counter::TokenErrorsTotal),
            _ => None,
        }
    }
}

/// The kind of a routing failure: the store's, or routing's own.
pub fn routing_error_kind(error: RouteError) -> (r: ErrorKind)
    ensures
        r == (if error == RouteError::KvUnavailable {
            ErrorKind::KvUnavailable
        } else {
            ErrorKind::RoutingFailure
        }),
{
    match error {
        RouteError::KvUnavailable => ErrorKind::KvUnavailable,
        _ => ErrorKind::RoutingFailure,
    }
}

/// The kind of a credential failure: the store's, or the provider's own.
pub fn token_error_kind(error: TokenError) -> (r: ErrorKind)
    ensures
        r == (if error == TokenError::KvUnavailable {
            ErrorKind::KvUnavailable
        } else {
            ErrorKind::TokenProviderFailure
        }),
{
    match error {
        TokenError::KvUnavailable => ErrorKind::KvUnavailable,
        _ => ErrorKind::TokenProviderFailure,
    }
}

/// The kind of a forwarding failure.
pub fn forward_error_kind(error: ForwardError) -> (r: ErrorKind)
    ensures
        r == (match error {
            ForwardError::RequestTooLarge => ErrorKind::RequestTooLarge,
            ForwardError::InvalidAuthorization => ErrorKind::InvariantViolation,
            ForwardError::InvalidAccountId => ErrorKind::InvariantViolation,
            ForwardError::UpstreamTransport => ErrorKind::UpstreamTransport,
            ForwardError::UpstreamProtocol => ErrorKind::UpstreamProtocol,
            ForwardError::HeadersRefused => ErrorKind::InvariantViolation,
        }),
        r.status_spec() == error.status_spec(),
{
    match error {
        ForwardError::RequestTooLarge => ErrorKind::RequestTooLarge,
        ForwardError::InvalidAuthorization => ErrorKind::InvariantViolation,
        ForwardError::InvalidAccountId => ErrorKind::InvariantViolation,
        ForwardError::UpstreamTransport => ErrorKind::UpstreamTransport,
        ForwardError::UpstreamProtocol => ErrorKind::UpstreamProtocol,
        ForwardError::HeadersRefused => ErrorKind::InvariantViolation,
    }
}

/// The bearer token that a request shows: the token of its first
/// `Authorization` field, if that field is text.
pub open spec fn presented_token_spec(fields: Seq<(Seq<char>, Seq<u8>)>) -> Option<Seq<char>> {
    match first_value_spec(fields, "authorization"@) {
        Some(value) => match header_text_spec(value) {
            Some(text) => bearer_token_spec(text),
            None => None,
        },
        None => None,
    }
}

/// What the session layer does with a request before the store is asked.
#[derive(Debug, PartialEq, Eq)]
pub enum SessionGate {
    /// The path is public: the request goes on without a session.
    Public,
    /// No bearer token: the request is answered with 401.
    Unauthorized,
    /// Look the session of `token` up with `command`.
    Lookup { token: String, command: KvCommand },
}

/// The session layer's first decision: public paths pass, a request
/// without a well-formed bearer header is unauthorized, any other request
/// has its session looked up under its token's key.
pub fn require_gateway_session(path: &str, headers: &HeaderMap) -> (r: SessionGate)
    ensures
        is_public_path_spec(path@) ==> r is Public,
        !is_public_path_spec(path@) ==> match presented_token_spec(header_map_fields(*headers)) {
            Some(token) => r matches SessionGate::Lookup { token: t, command: c } && t@ == token
                && c@ == (KvCommandView::Get { key: key_for_token_spec(token) }),
            None => r is Unauthorized,
        },
{
    if is_public_path(path) {
        return SessionGate::Public;
    }
    let fields = fields_of(headers);
    match first_field(fields.as_slice(), "authorization") {
        Some(field) => match field.text() {
            Some(text) => match parse_bearer_token(text.as_str()) {
                Some(token) => SessionGate::Lookup {
                    token: String::from_str(token),
                    command: KvCommand::Get { key: key_for_token(token) },
                },
                None => SessionGate::Unauthorized,
            },
            None => SessionGate::Unauthorized,
        },
        None => SessionGate::Unauthorized,
    }
}

/// The session layer's second decision: a session that is found is
/// attached to the request, a missing one means 401, and a store that fails
/// or holds something else than a session means 503.
pub fn session_lookup_outcome(read: SessionRead) -> (r: Result<GatewaySession, ErrorKind>)
    ensures
        match read {
            SessionRead::Found(session) => r == Ok::<GatewaySession, ErrorKind>(session),
            SessionRead::Missing => r == Err::<GatewaySession, ErrorKind>(
                ErrorKind::SessionUnauthorized,
            ),
            SessionRead::Unreadable => r == Err::<GatewaySession, ErrorKind>(
                ErrorKind::KvUnavailable,
            ),
            SessionRead::Unavailable => r == Err::<GatewaySession, ErrorKind>(
                ErrorKind::KvUnavailable,
            ),
        },
{
    match read {
        SessionRead::Found(session) => Ok(session),
        SessionRead::Missing => Err(ErrorKind::SessionUnauthorized),
        SessionRead::Unreadable => Err(ErrorKind::KvUnavailable),
        SessionRead::Unavailable => Err(ErrorKind::KvUnavailable),
    }
}

/// A request with the header `Authorization: Bearer <token>` on a path
/// that is not public has the session of that token looked up, for every
/// token that is visible ASCII without blanks; if the session is found, the
/// request goes on to routing. Without such a header, or without a session,
/// the answer is 401.
pub proof fn lemma_bearer_header_reaches_lookup(
    fields: Seq<(Seq<char>, Seq<u8>)>,
    token: Seq<char>,
)
    requires
        token.len() > 0,
        forall|i: int| 0 <= i < token.len() ==> '!' <= #[trigger] token[i] <= '~',
        first_value_spec(fields, "authorization"@) == Some(
            Seq::new(("Bearer "@ + token).len(), |i: int| ("Bearer "@ + token)[i] as u8),
        ),
    ensures
        presented_token_spec(fields) == Some(token),
        ErrorKind::SessionUnauthorized.status_spec() == 401,
{
    reveal_strlit("Bearer ");
    let text = "Bearer "@ + token;
    let value = Seq::new(text.len(), |i: int| text[i] as u8);
    assert forall|i: int| 0 <= i < value.len() implies crate::headers::is_visible_ascii(
        #[trigger] value[i],
    ) by {
        if i >= 7 {
            assert(text[i] == token[i - 7]);
            assert('!' <= token[i - 7] <= '~');
        }
    }
    let back = Seq::new(value.len(), |i: int| value[i] as char);
    assert(back =~= text) by {
        assert forall|i: int| 0 <= i < text.len() implies back[i] == text[i] by {
            if i >= 7 {
                assert(text[i] == token[i - 7]);
                assert('!' <= token[i - 7] <= '~');
            }
        }
    }
    assert forall|i: int| 0 <= i < token.len() implies !is_whitespace_spec(
        #[trigger] token[i],
    ) by {
        assert('!' <= token[i] <= '~');
    }
    lemma_parse_bearer_round_trip(token);
}

/// The key that requests without a conversation id are hashed by.
pub open spec fn non_sticky_key_spec(method: Seq<char>, path_and_query: Seq<char>) -> Seq<char> {
    "non-sticky:"@ + method + " "@ + path_and_query
}

/// Builds the key that a request without a conversation id is hashed by.
pub fn non_sticky_key(method: &str, path_and_query: &str) -> (r: String)
    ensures
        r@ == non_sticky_key_spec(method@, path_and_query@),
{
    let mut key = String::from_str("non-sticky:");
    key.append(method);
    key.append(" ");
    key.append(path_and_query);
    key
}

/// What the routing layer does with a request.
#[derive(Debug, PartialEq, Eq)]
pub enum RoutingGate {
    /// The path is public: the request goes on unrouted.
    Public,
    /// No session is attached, or the session's pool is not configured.
    Inconsistent,
    /// Routing has begun with `step` for the conversation `conversation_id`.
    Route { step: RouteStep, conversation_id: Option<String> },
}

/// The routing layer's decision: public paths pass; a request without a
/// session or with a session for an unknown pool is an internal
/// inconsistency (500); any other request is routed within the session's
/// pool, by its conversation id or, without one, by method, path and query.
pub fn ensure_routing(
    path: &str,
    session: Option<&GatewaySession>,
    pools: &[PoolEntry],
    headers: &HeaderMap,
    method: &str,
    path_and_query: &str,
    sticky_ttl_seconds: i64,
) -> (r: RoutingGate)
    ensures
        is_public_path_spec(path@) ==> r is Public,
        !is_public_path_spec(path@) && session is None ==> r is Inconsistent,
        !is_public_path_spec(path@) && session is Some ==> match find_pool_spec(
            pools@,
            session->Some_0.account_pool_id@,
        ) {
            None => r is Inconsistent,
            Some(pool) => r matches RoutingGate::Route { step, conversation_id }
                && option_view(conversation_id) == extract_conversation_id_spec(
                header_map_fields(*headers),
            ) && step@ == route_start_spec(
                session->Some_0.account_pool_id@,
                string_views(pool.labels@),
                option_view(session->Some_0.policy_key),
                sticky_ttl_seconds,
                extract_conversation_id_spec(header_map_fields(*headers)),
                non_sticky_key_spec(method@, path_and_query@),
            ),
        },
        r is Inconsistent ==> ErrorKind::InvariantViolation.status_spec() == 500,
{
    if is_public_path(path) {
        return RoutingGate::Public;
    }
    let session = match session {
        Some(s) => s,
        None => {
            return RoutingGate::Inconsistent;
        },
    };
    let pool = match find_pool(pools, session.account_pool_id.as_str()) {
        Some(p) => p,
        None => {
            return RoutingGate::Inconsistent;
        },
    };
    let conversation_id = extract_conversation_id(headers);
    let key = non_sticky_key(method, path_and_query);
    let policy_key: Option<&str> = match &session.policy_key {
        Some(k) => Some(k.as_str()),
        None => None,
    };
    let step = route_account(
        session.account_pool_id.as_str(),
        pool.labels.as_slice(),
        policy_key,
        sticky_ttl_seconds,
        conversation_id.clone(),
        key.as_str(),
    );
    RoutingGate::Route { step, conversation_id }
}

/// The body of the diagnostic endpoint: the pool, the account and the
/// conversation that the request was routed by, `-` for no conversation.
pub open spec fn authz_spec(
    pool: Seq<char>,
    account: Seq<char>,
    conversation_id: Option<Seq<char>>,
) -> Seq<char> {
    let conversation = match conversation_id {
        Some(id) => id,
        None => "-"@,
    };
    "ok\npool: "@ + pool + "\naccount: "@ + account + "\nconversation_id: "@ + conversation + "\n"@
}

/// Renders the diagnostic endpoint's body.
pub fn authz(route_info: &RouteInfo) -> (r: String)
    ensures
        r@ == authz_spec(
            route_info.account_pool_id@,
            route_info.account_id@,
            option_view(route_info.conversation_id),
        ),
{
    let mut body = String::from_str("ok\npool: ");
    body.append(route_info.account_pool_id.as_str());
    body.append("\naccount: ");
    body.append(route_info.account_id.as_str());
    body.append("\nconversation_id: ");
    match &route_info.conversation_id {
        Some(id) => {
            body.append(id.as_str());
        },
        None => {
            body.append("-");
        },
    }
    body.append("\n");
    body
}

/// The liveness endpoint's body.
pub fn healthz() -> (r: String)
    ensures
        r@ == "ok\n"@,
{
    String::from_str("ok\n")
}

/// The readiness endpoint's answer to the store's reply to `PING`: `ok` if
/// the store answered, 503 otherwise.
pub fn readyz(reply: &KvReply) -> (r: Result<String, ErrorKind>)
    ensures
        match r {
            Ok(body) => reply@ is Pong && body@ == "ok\n"@,
            Err(e) => !(reply@ is Pong) && e == ErrorKind::KvUnavailable,
        },
{
    match reply {
        KvReply::Pong => Ok(String::from_str("ok\n")),
        _ => Err(ErrorKind::KvUnavailable),
    }
}

/// The movements of the counters when a request arrives: one more request
/// and one more in flight, unless the path is public.
pub open spec fn request_start_deltas_spec(path: Seq<char>) -> Seq<CounterDelta> {
    if is_public_path_spec(path) {
        Seq::empty()
    } else {
        seq![
            CounterDelta { counter: Counter::RequestsTotal, amount: 1 },
            CounterDelta { counter: Counter::RequestsInflight, amount: 1 },
        ]
    }
}

/// The movements of the counters when a request has been answered: one
/// less in flight, the duration, one more unauthorized for status 401, one
/// more server error for a 5xx status; none for a public path.
pub open spec fn request_end_deltas_spec(
    path: Seq<char>,
    status: u16,
    elapsed_millis: u128,
) -> Seq<CounterDelta> {
    if is_public_path_spec(path) {
        Seq::empty()
    } else {
        seq![CounterDelta { counter: Counter::RequestsInflight, amount: -1i64 }]
            + request_duration_deltas(elapsed_millis) + (if status == 401 {
            seq![CounterDelta { counter: Counter::RequestsUnauthorizedTotal, amount: 1 }]
        } else {
            Seq::empty()
        }) + (if 500 <= status < 600 {
            seq![CounterDelta { counter: Counter::Requests5xxTotal, amount: 1 }]
        } else {
            Seq::empty()
        })
    }
}

/// Tells how the arrival of a request moves the counters.
pub fn request_start_deltas(path: &str) -> (r: Vec<CounterDelta>)
    ensures
        r@ == request_start_deltas_spec(path@),
{
    let mut out: Vec<CounterDelta> = Vec::new();
    if !is_public_path(path) {
        out.push(CounterDelta { counter: Counter::RequestsTotal, amount: 1 });
        out.push(CounterDelta { counter: Counter::RequestsInflight, amount: 1 });
    }
    assert(out@ =~= request_start_deltas_spec(path@));
    out
}

/// Tells how the end of a request moves the counters.
pub fn request_end_deltas(path: &str, status: u16, elapsed_millis: u128) -> (r: Vec<CounterDelta>)
    ensures
        r@ == request_end_deltas_spec(path@, status, elapsed_millis),
{
    let mut out: Vec<CounterDelta> = Vec::new();
    if !is_public_path(path) {
        out.push(CounterDelta { counter: Counter::RequestsInflight, amount: -1i64 });
        let mut duration = crate::observability::record_request_duration_ms(elapsed_millis);
        out.append(&mut duration);
        if status == 401 {
            out.push(CounterDelta { counter: Counter::RequestsUnauthorizedTotal, amount: 1 });
        }
        if 500 <= status && status < 600 {
            out.push(CounterDelta { counter: Counter::Requests5xxTotal, amount: 1 });
        }
    }
    assert(out@ =~= request_end_deltas_spec(path@, status, elapsed_millis));
    out
}

/// The movement of the counters for a failure where it is detected.
pub fn failure_deltas(kind: ErrorKind) -> (r: Vec<CounterDelta>)
    ensures
        r@ == (match kind.counter_spec() {
            Some(counter) => seq![CounterDelta { counter, amount: 1 }],
            None => Seq::empty(),
        }),
{
    let mut out: Vec<CounterDelta> = Vec::new();
    match kind.counter() {
        Some(counter) => {
            out.push(CounterDelta { counter, amount: 1 });
        },
        None => {},
    }
    out
}

/// The fields of a response's header map with its request id: the header
/// `x-codex-mgr-request-id` is set to the id, in place of what the map
/// held under the name, if the id can be a header value; otherwise the
/// headers are unchanged.
pub open spec fn label_response_spec(
    fields: Seq<(Seq<char>, Seq<u8>)>,
    request_id: Seq<char>,
) -> Seq<(Seq<char>, Seq<u8>)> {
    if is_header_value(utf8(request_id)) {
        inserted_spec(fields, ("x-codex-mgr-request-id"@, utf8(request_id)))
    } else {
        fields
    }
}

/// Puts the request id on a response and tells whether it is on it.
///
/// It is on it if and only if the id can be a header value and the header
/// map takes the name; the headers are then those of
/// [`label_response_spec`]. Otherwise they are unchanged.
pub fn label_response(headers: &mut HeaderMap, request_id: &str) -> (r: bool)
    ensures
        r == (is_header_value(utf8(request_id@)) && header_map_takes(
            *old(headers),
            seq!["x-codex-mgr-request-id"@],
        )),
        r ==> header_map_fields(*final(headers)) == label_response_spec(
            header_map_fields(*old(headers)),
            request_id@,
        ),
        !r ==> header_map_fields(*final(headers)) == header_map_fields(*old(headers)),
{
    proof {
        crate::proxy::lemma_fixed_names();
    }
    if crate::headers::accepts_header_value(request_id) {
        let field = crate::proxy::field_of("x-codex-mgr-request-id", request_id.as_bytes());
        crate::headers::header_map_insert(headers, &field)
    } else {
        false
    }
}

/// Every response that is labelled carries its request id: whatever the
/// clock showed and whatever the random bytes were, given that their base64
/// text is written in the base64url alphabet (which the encoder promises),
/// the request id can be a header value, so that [`label_response`] fails
/// only where the header map has no room, and the labelled headers have
/// exactly one field named `x-codex-mgr-request-id`, which holds the id.
pub proof fn lemma_response_carries_request_id(
    fields: Seq<(Seq<char>, Seq<u8>)>,
    random: Option<Seq<u8>>,
    now_ms: i64,
)
    requires
        random matches Some(bytes) ==> forall|i: int|
            0 <= i < crate::codec::base64url_nopad(bytes).len()
                ==> crate::codec::is_base64url_char(
                #[trigger] crate::codec::base64url_nopad(bytes)[i],
            ),
    ensures
        is_header_value(utf8(request_id_spec(random, now_ms))),
        first_value_spec(
            label_response_spec(fields, request_id_spec(random, now_ms)),
            "x-codex-mgr-request-id"@,
        ) == Some(utf8(request_id_spec(random, now_ms))),
        crate::headers::count_named(
            label_response_spec(fields, request_id_spec(random, now_ms)),
            "x-codex-mgr-request-id"@,
        ) == 1,
        forall|i: int|
            0 <= i < label_response_spec(fields, request_id_spec(random, now_ms)).len() && (
            #[trigger] label_response_spec(fields, request_id_spec(random, now_ms))[i]).0
                == "x-codex-mgr-request-id"@ ==> label_response_spec(
                fields,
                request_id_spec(random, now_ms),
            )[i].1 == utf8(request_id_spec(random, now_ms)),
{
    crate::observability::lemma_request_id_is_header_value(random, now_ms);
    crate::headers::lemma_inserted_is_first(
        fields,
        ("x-codex-mgr-request-id"@, utf8(request_id_spec(random, now_ms))),
    );
    crate::headers::lemma_inserted_counts(
        fields,
        ("x-codex-mgr-request-id"@, utf8(request_id_spec(random, now_ms))),
        "x-codex-mgr-request-id"@,
    );
}

} // verus!
