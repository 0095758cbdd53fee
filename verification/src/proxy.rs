//! The upstream forwarder: how a request is composed for the upstream and
//! how the upstream's answer is handed back.
//!
//! The forwarder itself sends and receives; this module decides the target
//! URL, the size cap on the request body, the headers in both directions,
//! whether the response is streamed, and what each outcome does to the
//! counters.

use axum::http::HeaderMap;
use crate::codec::utf8;
use crate::header_policy::Direction;
use crate::header_policy::forward_headers;
use crate::header_policy::forward_request_headers_spec;
use crate::header_policy::forward_response_headers_spec;
use crate::headers::accepts_header_value;
use crate::headers::count_named;
use crate::headers::fields_of;
use crate::headers::first_field;
use crate::headers::first_value_spec;
use crate::headers::header_map_fields;
use crate::headers::header_map_insert;
use crate::headers::header_map_takes;
use crate::headers::header_name_spec;
use crate::headers::header_text_spec;
use crate::headers::HeaderField;
use crate::headers::inserted_spec;
use crate::headers::is_header_value;
use crate::headers::names_of;
use crate::headers::new_map_takes;
use crate::headers::rebuilt_spec;
use crate::kv::option_str_view;
use crate::observability::Counter;
use crate::observability::CounterDelta;
use crate::text::ascii_lowercase;
use crate::text::chars_of;
use crate::text::contains_spec;
use crate::text::find_from;
use crate::text::substring;
use crate::text::trim_bounds;
use crate::text::trim_end_matches;
use crate::text::trim_end_matches_spec;
use crate::text::trim_spec;
use vstd::prelude::*;
use vstd::string::StringExecFns;

verus! {

/// The largest request body that is forwarded: 10 MiB.
pub const MAX_BODY_BYTES: usize = 10 * 1024 * 1024;

/// Why a request was not forwarded, or its answer not handed back.
#[derive(Debug, Clone, Copy, PartialEq, Eq, Structural)]
pub enum ForwardError {
    /// The request body is larger than [`MAX_BODY_BYTES`].
    RequestTooLarge,
    /// The account's bearer value cannot be sent as a header.
    InvalidAuthorization,
    /// The account id cannot be sent as a header.
    InvalidAccountId,
    /// The upstream could not be reached.
    UpstreamTransport,
    /// The upstream's answer could not be read.
    UpstreamProtocol,
    /// The header map took no more fields.
    HeadersRefused,
}

impl ForwardError {
    /// The status that the client gets.
    pub open spec fn status_spec(self) -> u16 {
        match self {
            ForwardError::RequestTooLarge => 400,
            ForwardError::InvalidAuthorization => 500,
            ForwardError::InvalidAccountId => 500,
            ForwardError::UpstreamTransport => 502,
            ForwardError::UpstreamProtocol => 502,
            ForwardError::HeadersRefused => 500,
        }
    }

    /// The status that the client gets.
    pub fn status(&self) -> (r: u16)
        ensures
            r == self.status_spec(),
    {
        match self {
            ForwardError::RequestTooLarge => 400,
            ForwardError::InvalidAuthorization => 500,
            ForwardError::InvalidAccountId => 500,
            ForwardError::UpstreamTransport => 502,
            ForwardError::UpstreamProtocol => 502,
            ForwardError::HeadersRefused => 500,
        }
    }
}

/// The upstream base without surrounding whitespace and trailing slashes.
pub open spec fn canonical_base_spec(upstream_base_url: Seq<char>) -> Seq<char> {
    let trimmed = trim_spec(upstream_base_url);
    trimmed.take(trim_end_matches_spec(trimmed, '/', trimmed.len() as int))
}

/// The URL that a request is sent to: the canonical base followed by the
/// request's path and query, as they are.
pub open spec fn target_url_spec(upstream_base_url: Seq<char>, path_and_query: Seq<char>) -> Seq<
    char,
> {
    canonical_base_spec(upstream_base_url) + path_and_query
}

/// Builds the upstream URL of a request.
pub fn target_url(upstream_base_url: &str, path_and_query: &str) -> (r: String)
    ensures
        r@ == target_url_spec(upstream_base_url@, path_and_query@),
{
    let chars = chars_of(upstream_base_url);
    let (a, b) = trim_bounds(chars.as_slice());
    let trimmed = vstd::slice::slice_subrange(chars.as_slice(), a, b);
    let end = trim_end_matches(trimmed, '/', trimmed.len());
    let mut url = substring(upstream_base_url, a, a + end);
    assert(upstream_base_url@.subrange(a as int, a + end) =~= canonical_base_spec(
        upstream_base_url@,
    ));
    url.append(path_and_query);
    url
}

/// The size of the body after one more chunk, if the body is still within
/// the cap.
pub open spec fn accept_body_chunk_spec(received: usize, chunk_len: usize) -> Result<
    usize,
    ForwardError,
> {
    if received + chunk_len <= MAX_BODY_BYTES {
        Ok((received + chunk_len) as usize)
    } else {
        Err(ForwardError::RequestTooLarge)
    }
}

/// Accounts for one chunk of the request body: a body of up to
/// [`MAX_BODY_BYTES`] is accepted, a longer one is refused.
pub fn accept_body_chunk(received: usize, chunk_len: usize) -> (r: Result<usize, ForwardError>)
    ensures
        r == accept_body_chunk_spec(received, chunk_len),
{
    if received > MAX_BODY_BYTES || chunk_len > MAX_BODY_BYTES - received {
        Err(ForwardError::RequestTooLarge)
    } else {
        Ok(received + chunk_len)
    }
}

/// Whether the request asks for an event stream: its first `Accept` field
/// is text and `text/event-stream` occurs in it.
pub open spec fn accepts_event_stream_spec(fields: Seq<(Seq<char>, Seq<u8>)>) -> bool {
    match first_value_spec(fields, "accept"@) {
        Some(value) => match header_text_spec(value) {
            Some(text) => contains_spec(text, "text/event-stream"@),
            None => false,
        },
        None => false,
    }
}

/// Tells whether the response is to be streamed.
pub fn request_accepts_event_stream(headers: &HeaderMap) -> (r: bool)
    ensures
        r == accepts_event_stream_spec(header_map_fields(*headers)),
{
    let fields = fields_of(headers);
    match first_field(fields.as_slice(), "accept") {
        Some(field) => match field.text() {
            Some(text) => {
                let chars = chars_of(text.as_str());
                let wanted = chars_of("text/event-stream");
                find_from(chars.as_slice(), wanted.as_slice(), 0).is_some()
            },
            None => false,
        },
        None => false,
    }
}

/// The fields of the upstream request's header map.
///
/// The incoming headers that pass the request policy are put into a new
/// map. `Authorization` is set to the account's bearer value and, if the
/// account has an id, `ChatGPT-Account-ID` to that id, each in place of what
/// the map held under the name.
pub open spec fn request_fields_spec(
    incoming: Seq<(Seq<char>, Seq<u8>)>,
    authorization: Seq<char>,
    chatgpt_account_id: Option<Seq<char>>,
) -> Seq<(Seq<char>, Seq<u8>)> {
    let kept = rebuilt_spec(forward_request_headers_spec(incoming));
    let with_auth = inserted_spec(kept, ("authorization"@, utf8(authorization)));
    match chatgpt_account_id {
        None => with_auth,
        Some(id) => inserted_spec(with_auth, ("chatgpt-account-id"@, utf8(id))),
    }
}

/// The names that the upstream request's header map is given, in order:
/// those of the incoming headers that pass the request policy, then the
/// names that the gateway sets.
pub open spec fn request_names_spec(
    incoming: Seq<(Seq<char>, Seq<u8>)>,
    chatgpt_account_id: Option<Seq<char>>,
) -> Seq<Seq<char>> {
    names_of(forward_request_headers_spec(incoming)) + (match chatgpt_account_id {
        None => seq!["authorization"@],
        Some(_) => seq!["authorization"@] + seq!["chatgpt-account-id"@],
    })
}

/// The headers of the upstream request, or why it is not sent.
///
/// A bearer value that cannot be a header value fails the request, then an
/// account id that cannot, then a header map that does not take the names
/// of [`request_names_spec`]. Otherwise the map holds the fields of
/// [`request_fields_spec`].
pub open spec fn request_headers_spec(
    incoming: Seq<(Seq<char>, Seq<u8>)>,
    authorization: Seq<char>,
    chatgpt_account_id: Option<Seq<char>>,
) -> Result<Seq<(Seq<char>, Seq<u8>)>, ForwardError> {
    if !is_header_value(utf8(authorization)) {
        Err(ForwardError::InvalidAuthorization)
    } else if chatgpt_account_id matches Some(id) && !is_header_value(utf8(id)) {
        Err(ForwardError::InvalidAccountId)
    } else if !new_map_takes(request_names_spec(incoming, chatgpt_account_id)) {
        Err(ForwardError::HeadersRefused)
    } else {
        Ok(request_fields_spec(incoming, authorization, chatgpt_account_id))
    }
}

/// A field with a name that is known to be a header name in normal form.
pub(crate) fn field_of(name: &str, value: &[u8]) -> (r: HeaderField)
    requires
        header_name_spec(name@) == Some(name@),
    ensures
        r@ == (name@, value@),
{
    match HeaderField::new(name, value) {
        Some(field) => field,
        None => vstd::pervasive::unreached(),
    }
}

/// The names of the headers that the gateway sets are header names in
/// normal form.
pub proof fn lemma_fixed_names()
    ensures
        header_name_spec("authorization"@) == Some("authorization"@),
        header_name_spec("chatgpt-account-id"@) == Some("chatgpt-account-id"@),
        header_name_spec("cache-control"@) == Some("cache-control"@),
        header_name_spec("x-accel-buffering"@) == Some("x-accel-buffering"@),
        header_name_spec("x-codex-mgr-request-id"@) == Some("x-codex-mgr-request-id"@),
{
    reveal_strlit("authorization");
    reveal_strlit("chatgpt-account-id");
    reveal_strlit("cache-control");
    reveal_strlit("x-accel-buffering");
    reveal_strlit("x-codex-mgr-request-id");
    assert(ascii_lowercase("authorization"@) =~= "authorization"@);
    assert(ascii_lowercase("chatgpt-account-id"@) =~= "chatgpt-account-id"@);
    assert(ascii_lowercase("cache-control"@) =~= "cache-control"@);
    assert(ascii_lowercase("x-accel-buffering"@) =~= "x-accel-buffering"@);
    assert(ascii_lowercase("x-codex-mgr-request-id"@) =~= "x-codex-mgr-request-id"@);
}

/// The upstream request carries the account's credentials and nothing of
/// the client's in their place: it has exactly one `Authorization` field,
/// which holds the account's bearer value; if the account has an id, it has
/// exactly one `ChatGPT-Account-ID` field, which holds that id; every other
/// field is one of the incoming headers that pass the request policy.
pub proof fn lemma_request_carries_account_credentials(
    incoming: Seq<(Seq<char>, Seq<u8>)>,
    authorization: Seq<char>,
    chatgpt_account_id: Option<Seq<char>>,
    x: (Seq<char>, Seq<u8>),
)
    requires
        request_fields_spec(incoming, authorization, chatgpt_account_id).contains(x),
    ensures
        count_named(
            request_fields_spec(incoming, authorization, chatgpt_account_id),
            "authorization"@,
        ) == 1,
        x.0 == "authorization"@ ==> x.1 == utf8(authorization),
        chatgpt_account_id matches Some(id) ==> count_named(
            request_fields_spec(incoming, authorization, chatgpt_account_id),
            "chatgpt-account-id"@,
        ) == 1 && (x.0 == "chatgpt-account-id"@ ==> x.1 == utf8(id)),
        x.0 != "authorization"@ && !(chatgpt_account_id is Some && x.0 == "chatgpt-account-id"@)
            ==> forward_request_headers_spec(incoming).contains(x),
{
    reveal_strlit("authorization");
    reveal_strlit("chatgpt-account-id");
    assert("authorization"@ != "chatgpt-account-id"@) by {
        assert("authorization"@.len() != "chatgpt-account-id"@.len());
    }
    let kept = rebuilt_spec(forward_request_headers_spec(incoming));
    let auth = ("authorization"@, utf8(authorization));
    let with_auth = inserted_spec(kept, auth);
    crate::headers::lemma_inserted_fields(kept, auth, x);
    crate::headers::lemma_inserted_counts(kept, auth, "authorization"@);
    crate::headers::lemma_rebuilt_fields(forward_request_headers_spec(incoming), x);
    match chatgpt_account_id {
        None => {},
        Some(id) => {
            let acct = ("chatgpt-account-id"@, utf8(id));
            crate::headers::lemma_inserted_fields(with_auth, acct, x);
            crate::headers::lemma_inserted_counts(with_auth, acct, "authorization"@);
            crate::headers::lemma_inserted_counts(with_auth, acct, "chatgpt-account-id"@);
        },
    }
}

/// Composes the headers of the upstream request. See
/// [`request_headers_spec`].
pub fn compose_request_headers(
    incoming: &HeaderMap,
    authorization: &str,
    chatgpt_account_id: Option<&str>,
) -> (r: Result<HeaderMap, ForwardError>)
    ensures
        match request_headers_spec(
            header_map_fields(*incoming),
            authorization@,
            option_str_view(chatgpt_account_id),
        ) {
            Ok(fields) => r matches Ok(map) && header_map_fields(map) == fields,
            Err(refusal) => r matches Err(e) && e == refusal,
        },
{
    let ghost kept = names_of(forward_request_headers_spec(header_map_fields(*incoming)));
    proof {
        lemma_fixed_names();
    }
    if !accepts_header_value(authorization) {
        return Err(ForwardError::InvalidAuthorization);
    }
    match chatgpt_account_id {
        Some(id) => {
            if !accepts_header_value(id) {
                return Err(ForwardError::InvalidAccountId);
            }
        },
        None => {},
    }
    let mut map = match forward_headers(Direction::Request, incoming) {
        Some(map) => map,
        None => {
            assert(!new_map_takes(kept + seq!["authorization"@]));
            assert(!new_map_takes(kept + (seq!["authorization"@] + seq!["chatgpt-account-id"@])));
            return Err(ForwardError::HeadersRefused);
        },
    };
    let ghost built = map;
    assert(new_map_takes(kept + seq!["authorization"@]) == header_map_takes(
        built,
        seq!["authorization"@],
    ));
    assert(new_map_takes(kept + (seq!["authorization"@] + seq!["chatgpt-account-id"@]))
        == header_map_takes(built, seq!["authorization"@] + seq!["chatgpt-account-id"@]));
    if !header_map_insert(&mut map, &field_of("authorization", authorization.as_bytes())) {
        return Err(ForwardError::HeadersRefused);
    }
    match chatgpt_account_id {
        Some(id) => {
            if !header_map_insert(&mut map, &field_of("chatgpt-account-id", id.as_bytes())) {
                return Err(ForwardError::HeadersRefused);
            }
        },
        None => {},
    }
    Ok(map)
}

/// The fields of the header map of the response to the client: the
/// upstream's headers that pass the response policy, put into a new map,
/// and, for a stream, `Cache-Control: no-cache` and `X-Accel-Buffering: no`,
/// which keep intermediaries from buffering, each in place of what the map
/// held under the name.
pub open spec fn response_fields_spec(
    upstream: Seq<(Seq<char>, Seq<u8>)>,
    event_stream: bool,
) -> Seq<(Seq<char>, Seq<u8>)> {
    let kept = rebuilt_spec(forward_response_headers_spec(upstream));
    if event_stream {
        inserted_spec(
            inserted_spec(kept, ("cache-control"@, utf8("no-cache"@))),
            ("x-accel-buffering"@, utf8("no"@)),
        )
    } else {
        kept
    }
}

/// The names that the response's header map is given, in order: those of
/// the upstream's headers that pass the response policy, then, for a
/// stream, the two names that the gateway sets.
pub open spec fn response_names_spec(
    upstream: Seq<(Seq<char>, Seq<u8>)>,
    event_stream: bool,
) -> Seq<Seq<char>> {
    let kept = names_of(forward_response_headers_spec(upstream));
    if event_stream {
        kept + (seq!["cache-control"@] + seq!["x-accel-buffering"@])
    } else {
        kept
    }
}

/// The headers of the response to the client: the fields of
/// [`response_fields_spec`], unless a header map does not take the names of
/// [`response_names_spec`].
pub open spec fn response_headers_spec(
    upstream: Seq<(Seq<char>, Seq<u8>)>,
    event_stream: bool,
) -> Result<Seq<(Seq<char>, Seq<u8>)>, ForwardError> {
    if new_map_takes(response_names_spec(upstream, event_stream)) {
        Ok(response_fields_spec(upstream, event_stream))
    } else {
        Err(ForwardError::HeadersRefused)
    }
}

/// The values of the headers that the gateway sets on a stream are header
/// values.
pub proof fn lemma_fixed_values()
    ensures
        is_header_value(utf8("no-cache"@)),
        is_header_value(utf8("no"@)),
{
    reveal_strlit("no-cache");
    reveal_strlit("no");
    crate::observability::lemma_visible_ascii_is_header_value("no-cache"@);
    crate::observability::lemma_visible_ascii_is_header_value("no"@);
}

/// A streamed response has exactly one `Cache-Control` field, which holds
/// `no-cache`, and exactly one `X-Accel-Buffering` field, which holds `no`;
/// every other field is one of the upstream's headers that pass the response
/// policy.
pub proof fn lemma_stream_headers(upstream: Seq<(Seq<char>, Seq<u8>)>, x: (Seq<char>, Seq<u8>))
    requires
        response_fields_spec(upstream, true).contains(x),
    ensures
        count_named(response_fields_spec(upstream, true), "cache-control"@) == 1,
        count_named(response_fields_spec(upstream, true), "x-accel-buffering"@) == 1,
        x.0 == "cache-control"@ ==> x.1 == utf8("no-cache"@),
        x.0 == "x-accel-buffering"@ ==> x.1 == utf8("no"@),
        x.0 != "cache-control"@ && x.0 != "x-accel-buffering"@
            ==> forward_response_headers_spec(upstream).contains(x),
{
    reveal_strlit("cache-control");
    reveal_strlit("x-accel-buffering");
    assert("cache-control"@ != "x-accel-buffering"@) by {
        assert("cache-control"@.len() != "x-accel-buffering"@.len());
    }
    let kept = rebuilt_spec(forward_response_headers_spec(upstream));
    let cache = ("cache-control"@, utf8("no-cache"@));
    let accel = ("x-accel-buffering"@, utf8("no"@));
    let with_cache = inserted_spec(kept, cache);
    crate::headers::lemma_inserted_fields(kept, cache, x);
    crate::headers::lemma_inserted_counts(kept, cache, "cache-control"@);
    crate::headers::lemma_rebuilt_fields(forward_response_headers_spec(upstream), x);
    crate::headers::lemma_inserted_fields(with_cache, accel, x);
    crate::headers::lemma_inserted_counts(with_cache, accel, "cache-control"@);
    crate::headers::lemma_inserted_counts(with_cache, accel, "x-accel-buffering"@);
}

/// Composes the headers of the response to the client. See
/// [`response_headers_spec`].
pub fn compose_response_headers(upstream: &HeaderMap, event_stream: bool) -> (r: Result<
    HeaderMap,
    ForwardError,
>)
    ensures
        match response_headers_spec(header_map_fields(*upstream), event_stream) {
            Ok(fields) => r matches Ok(map) && header_map_fields(map) == fields,
            Err(refusal) => r matches Err(e) && e == refusal,
        },
{
    let ghost kept = names_of(forward_response_headers_spec(header_map_fields(*upstream)));
    proof {
        lemma_fixed_names();
        lemma_fixed_values();
        assert(kept + Seq::<Seq<char>>::empty() =~= kept);
    }
    let mut map = match forward_headers(Direction::Response, upstream) {
        Some(map) => map,
        None => {
            assert(!new_map_takes(kept + Seq::<Seq<char>>::empty()));
            assert(!new_map_takes(kept + (seq!["cache-control"@] + seq!["x-accel-buffering"@])));
            return Err(ForwardError::HeadersRefused);
        },
    };
    let ghost built = map;
    assert(new_map_takes(kept + Seq::<Seq<char>>::empty()) == header_map_takes(
        built,
        Seq::empty(),
    ));
    assert(new_map_takes(kept + (seq!["cache-control"@] + seq!["x-accel-buffering"@]))
        == header_map_takes(built, seq!["cache-control"@] + seq!["x-accel-buffering"@]));
    if event_stream {
        if !header_map_insert(&mut map, &field_of("cache-control", "no-cache".as_bytes())) {
            return Err(ForwardError::HeadersRefused);
        }
        if !header_map_insert(&mut map, &field_of("x-accel-buffering", "no".as_bytes())) {
            return Err(ForwardError::HeadersRefused);
        }
    }
    Ok(map)
}

/// The counter of the class of an upstream status, if it has one.
pub open spec fn status_bucket_spec(status: u16) -> Option<Counter> {
    if 200 <= status < 300 {
        Some(Counter::UpstreamResponses2xxTotal)
    } else if 300 <= status < 400 {
        Some(Counter::UpstreamResponses3xxTotal)
    } else if 400 <= status < 500 {
        Some(Counter::UpstreamResponses4xxTotal)
    } else if 500 <= status < 600 {
        Some(Counter::UpstreamResponses5xxTotal)
    } else {
        None
    }
}

/// Classes an upstream status.
pub fn status_bucket(status: u16) -> (r: Option<Counter>)
    ensures
        r == status_bucket_spec(status),
{
    if 200 <= status && status < 300 {
        Some(Counter::UpstreamResponses2xxTotal)
    } else if 300 <= status && status < 400 {
        Some(Counter::UpstreamResponses3xxTotal)
    } else if 400 <= status && status < 500 {
        Some(Counter::UpstreamResponses4xxTotal)
    } else if 500 <= status && status < 600 {
        Some(Counter::UpstreamResponses5xxTotal)
    } else {
        None
    }
}

/// One step up of `counter`.
pub open spec fn one_more(counter: Counter) -> CounterDelta {
    CounterDelta { counter, amount: 1 }
}

/// One step down of `counter`.
pub open spec fn one_less(counter: Counter) -> CounterDelta {
    CounterDelta { counter, amount: -1i64 }
}

/// What happens to a request at the forwarder.
#[derive(Debug, Clone, Copy, PartialEq, Eq, Structural)]
pub enum ForwardEvent {
    /// The request was not sent: its body is too large, a header value of
    /// the account is invalid, or the header map took no more fields.
    Refused,
    /// The request was handed to the HTTP client.
    Sent,
    /// The upstream could not be reached.
    TransportFailed,
    /// The response headers arrived, `latency_millis` after the request was
    /// sent.
    Responded { status: u16, latency_millis: u128, event_stream: bool },
    /// The body of a buffered response could not be read.
    BodyFailed,
    /// A streamed response came to its end or was dropped.
    StreamEnded,
}

/// The event that a failure of the forwarder counts as: a transport failure
/// and an unreadable answer each as what they are, every other failure as a
/// request that was not sent.
pub open spec fn failure_event_spec(error: ForwardError) -> ForwardEvent {
    match error {
        ForwardError::UpstreamTransport => ForwardEvent::TransportFailed,
        ForwardError::UpstreamProtocol => ForwardEvent::BodyFailed,
        ForwardError::RequestTooLarge => ForwardEvent::Refused,
        ForwardError::InvalidAuthorization => ForwardEvent::Refused,
        ForwardError::InvalidAccountId => ForwardEvent::Refused,
        ForwardError::HeadersRefused => ForwardEvent::Refused,
    }
}

/// Tells which event a failure of the forwarder counts as.
pub fn failure_event(error: ForwardError) -> (r: ForwardEvent)
    ensures
        r == failure_event_spec(error),
{
    match error {
        ForwardError::UpstreamTransport => ForwardEvent::TransportFailed,
        ForwardError::UpstreamProtocol => ForwardEvent::BodyFailed,
        ForwardError::RequestTooLarge => ForwardEvent::Refused,
        ForwardError::InvalidAuthorization => ForwardEvent::Refused,
        ForwardError::InvalidAccountId => ForwardEvent::Refused,
        ForwardError::HeadersRefused => ForwardEvent::Refused,
    }
}

/// What an event at the forwarder does to the counters.
///
/// A request that is refused moves none. Sending counts one upstream
/// request. Response headers add the latency to its sum, if it fits in an
/// `i64`, count one latency sample and one response in the class of its
/// status; a stream also counts one stream started and one in flight, which
/// its end takes back. Failures to reach the upstream or to read its answer
/// count one upstream error.
pub open spec fn forward_deltas_spec(event: ForwardEvent) -> Seq<CounterDelta> {
    match event {
        ForwardEvent::Refused => Seq::empty(),
        ForwardEvent::Sent => seq![one_more(Counter::UpstreamRequestsTotal)],
        ForwardEvent::TransportFailed => seq![one_more(Counter::UpstreamErrorsTotal)],
        ForwardEvent::Responded { status, latency_millis, event_stream } => {
            let latency = if latency_millis > i64::MAX {
                Seq::empty()
            } else {
                seq![
                    CounterDelta {
                        counter: Counter::UpstreamLatencyMsSum,
                        amount: latency_millis as i64,
                    },
                    one_more(Counter::UpstreamLatencyMsCount),
                ]
            };
            let class = match status_bucket_spec(status) {
                Some(counter) => seq![one_more(counter)],
                None => Seq::empty(),
            };
            let stream = if event_stream {
                seq![one_more(Counter::SseStreamsTotal), one_more(Counter::SseStreamsInflight)]
            } else {
                Seq::empty()
            };
            latency + class + stream
        },
        ForwardEvent::BodyFailed => seq![one_more(Counter::UpstreamErrorsTotal)],
        ForwardEvent::StreamEnded => seq![one_less(Counter::SseStreamsInflight)],
    }
}

fn step_up(counter: Counter) -> (r: CounterDelta)
    ensures
        r == one_more(counter),
{
    CounterDelta { counter, amount: 1 }
}

/// Tells how an event at the forwarder moves the counters. See
/// [`forward_deltas_spec`].
pub fn forward_deltas(event: ForwardEvent) -> (r: Vec<CounterDelta>)
    ensures
        r@ == forward_deltas_spec(event),
{
    let mut out: Vec<CounterDelta> = Vec::new();
    match event {
        ForwardEvent::Refused => {},
        ForwardEvent::Sent => {
            out.push(step_up(Counter::UpstreamRequestsTotal));
        },
        ForwardEvent::TransportFailed => {
            out.push(step_up(Counter::UpstreamErrorsTotal));
        },
        ForwardEvent::Responded { status, latency_millis, event_stream } => {
            if latency_millis <= 0x7fff_ffff_ffff_ffff {
                out.push(
                    CounterDelta {
                        counter: Counter::UpstreamLatencyMsSum,
                        amount: latency_millis as i64,
                    },
                );
                out.push(step_up(Counter::UpstreamLatencyMsCount));
            }
            match status_bucket(status) {
                Some(counter) => {
                    out.push(step_up(counter));
                },
                None => {},
            }
            if event_stream {
                out.push(step_up(Counter::SseStreamsTotal));
                out.push(step_up(Counter::SseStreamsInflight));
            }
        },
        ForwardEvent::BodyFailed => {
            out.push(step_up(Counter::UpstreamErrorsTotal));
        },
        ForwardEvent::StreamEnded => {
            out.push(CounterDelta { counter: Counter::SseStreamsInflight, amount: -1 });
        },
    }
    assert(out@ =~= forward_deltas_spec(event));
    out
}

/// A body of exactly the cap is accepted, and one byte more is refused.
pub proof fn lemma_body_cap_is_exact()
    ensures
        accept_body_chunk_spec(0, MAX_BODY_BYTES) == Ok::<usize, ForwardError>(MAX_BODY_BYTES),
        accept_body_chunk_spec(0, (MAX_BODY_BYTES + 1) as usize) == Err::<usize, ForwardError>(
            ForwardError::RequestTooLarge,
        ),
        ForwardError::RequestTooLarge.status_spec() == 400,
        forward_deltas_spec(ForwardEvent::Refused).len() == 0,
{
}

} // verus!
