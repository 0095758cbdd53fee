//! Counters, gauges and request ids.
//!
//! The pipeline decides which counters move and by how much; this module
//! names the counters and says what a movement does to them. A counter wraps
//! around on overflow, as an atomic integer does.

use crate::codec::base64url_encode;
use crate::codec::base64url_nopad;
use crate::codec::is_base64url_char;
use crate::codec::os_random;
use crate::codec::utf8;
use crate::headers::is_header_value;
use vstd::prelude::*;
use vstd::string::StringExecFns;

verus! {

/// The counters and gauges of the gateway.
#[derive(Debug, Clone, Copy, PartialEq, Eq, Structural)]
pub enum Counter {
    /// Requests handled, public paths excepted.
    RequestsTotal,
    /// Requests being handled.
    RequestsInflight,
    /// Requests answered with 401.
    RequestsUnauthorizedTotal,
    /// Requests answered with a 5xx status.
    Requests5xxTotal,
    /// Failures of the key/value store in the request plane.
    RedisErrorsTotal,
    /// Routing failures that are not the store's.
    RoutingErrorsTotal,
    /// Credential failures that are not the store's.
    TokenErrorsTotal,
    /// Requests sent upstream.
    UpstreamRequestsTotal,
    /// Upstream transport and protocol failures.
    UpstreamErrorsTotal,
    /// Upstream responses with a 2xx status.
    UpstreamResponses2xxTotal,
    /// Upstream responses with a 3xx status.
    UpstreamResponses3xxTotal,
    /// Upstream responses with a 4xx status.
    UpstreamResponses4xxTotal,
    /// Upstream responses with a 5xx status.
    UpstreamResponses5xxTotal,
    /// Sum of the upstream latencies, in milliseconds.
    UpstreamLatencyMsSum,
    /// Number of upstream latencies summed.
    UpstreamLatencyMsCount,
    /// Event streams being proxied.
    SseStreamsInflight,
    /// Event streams started.
    SseStreamsTotal,
    /// Sum of the request durations, in milliseconds.
    RequestDurationMsSum,
    /// Number of request durations summed.
    RequestDurationMsCount,
}

/// A movement of one counter.
#[derive(Debug, Clone, Copy, PartialEq, Eq, Structural)]
pub struct CounterDelta {
    pub counter: Counter,
    pub amount: i64,
}

/// The values of all counters.
#[derive(Debug, Clone, Copy, PartialEq, Eq, Structural)]
pub struct GatewayMetrics {
    pub requests_total: i64,
    pub requests_inflight: i64,
    pub requests_unauthorized_total: i64,
    pub requests_5xx_total: i64,
    pub redis_errors_total: i64,
    pub routing_errors_total: i64,
    pub token_errors_total: i64,
    pub upstream_requests_total: i64,
    pub upstream_errors_total: i64,
    pub upstream_responses_2xx_total: i64,
    pub upstream_responses_3xx_total: i64,
    pub upstream_responses_4xx_total: i64,
    pub upstream_responses_5xx_total: i64,
    pub upstream_latency_ms_sum: i64,
    pub upstream_latency_ms_count: i64,
    pub sse_streams_inflight: i64,
    pub sse_streams_total: i64,
    pub request_duration_ms_sum: i64,
    pub request_duration_ms_count: i64,
}

/// `a + b` in 64-bit two's-complement arithmetic.
pub open spec fn wrapping_sum(a: i64, b: i64) -> i64 {
    if a + b > i64::MAX {
        (a + b - 0x1_0000_0000_0000_0000) as i64
    } else if a + b < i64::MIN {
        (a + b + 0x1_0000_0000_0000_0000) as i64
    } else {
        (a + b) as i64
    }
}

/// `a + b`, wrapping around at the bounds of `i64`.
pub fn wrapping_add(a: i64, b: i64) -> (r: i64)
    ensures
        r == wrapping_sum(a, b),
{
    if a >= 0 && b > i64::MAX - a {
        // The sum lies above the range by less than 2^63.
        let over: i64 = b - (i64::MAX - a) - 1;
        i64::MIN + over
    } else if a < 0 && b < i64::MIN - a {
        let under: i64 = (i64::MIN - a) - (b + 1);
        i64::MAX - under
    } else {
        a + b
    }
}

impl GatewayMetrics {
    /// The value of `counter`.
    pub open spec fn value_spec(self, counter: Counter) -> i64 {
        match counter {
            Counter::RequestsTotal => self.requests_total,
            Counter::RequestsInflight => self.requests_inflight,
            Counter::RequestsUnauthorizedTotal => self.requests_unauthorized_total,
            Counter::Requests5xxTotal => self.requests_5xx_total,
            Counter::RedisErrorsTotal => self.redis_errors_total,
            Counter::RoutingErrorsTotal => self.routing_errors_total,
            Counter::TokenErrorsTotal => self.token_errors_total,
            Counter::UpstreamRequestsTotal => self.upstream_requests_total,
            Counter::UpstreamErrorsTotal => self.upstream_errors_total,
            Counter::UpstreamResponses2xxTotal => self.upstream_responses_2xx_total,
            Counter::UpstreamResponses3xxTotal => self.upstream_responses_3xx_total,
            Counter::UpstreamResponses4xxTotal => self.upstream_responses_4xx_total,
            Counter::UpstreamResponses5xxTotal => self.upstream_responses_5xx_total,
            Counter::UpstreamLatencyMsSum => self.upstream_latency_ms_sum,
            Counter::UpstreamLatencyMsCount => self.upstream_latency_ms_count,
            Counter::SseStreamsInflight => self.sse_streams_inflight,
            Counter::SseStreamsTotal => self.sse_streams_total,
            Counter::RequestDurationMsSum => self.request_duration_ms_sum,
            Counter::RequestDurationMsCount => self.request_duration_ms_count,
        }
    }

    /// All counters at zero.
    pub fn new() -> (r: GatewayMetrics)
        ensures
            forall|c: Counter| r.value_spec(c) == 0,
    {
        GatewayMetrics {
            requests_total: 0,
            requests_inflight: 0,
            requests_unauthorized_total: 0,
            requests_5xx_total: 0,
            redis_errors_total: 0,
            routing_errors_total: 0,
            token_errors_total: 0,
            upstream_requests_total: 0,
            upstream_errors_total: 0,
            upstream_responses_2xx_total: 0,
            upstream_responses_3xx_total: 0,
            upstream_responses_4xx_total: 0,
            upstream_responses_5xx_total: 0,
            upstream_latency_ms_sum: 0,
            upstream_latency_ms_count: 0,
            sse_streams_inflight: 0,
            sse_streams_total: 0,
            request_duration_ms_sum: 0,
            request_duration_ms_count: 0,
        }
    }

    /// The value of `counter`.
    pub fn value(&self, counter: Counter) -> (r: i64)
        ensures
            r == self.value_spec(counter),
    {
        match counter {
            Counter::RequestsTotal => self.requests_total,
            Counter::RequestsInflight => self.requests_inflight,
            Counter::RequestsUnauthorizedTotal => self.requests_unauthorized_total,
            Counter::Requests5xxTotal => self.requests_5xx_total,
            Counter::RedisErrorsTotal => self.redis_errors_total,
            Counter::RoutingErrorsTotal => self.routing_errors_total,
            Counter::TokenErrorsTotal => self.token_errors_total,
            Counter::UpstreamRequestsTotal => self.upstream_requests_total,
            Counter::UpstreamErrorsTotal => self.upstream_errors_total,
            Counter::UpstreamResponses2xxTotal => self.upstream_responses_2xx_total,
            Counter::UpstreamResponses3xxTotal => self.upstream_responses_3xx_total,
            Counter::UpstreamResponses4xxTotal => self.upstream_responses_4xx_total,
            Counter::UpstreamResponses5xxTotal => self.upstream_responses_5xx_total,
            Counter::UpstreamLatencyMsSum => self.upstream_latency_ms_sum,
            Counter::UpstreamLatencyMsCount => self.upstream_latency_ms_count,
            Counter::SseStreamsInflight => self.sse_streams_inflight,
            Counter::SseStreamsTotal => self.sse_streams_total,
            Counter::RequestDurationMsSum => self.request_duration_ms_sum,
            Counter::RequestDurationMsCount => self.request_duration_ms_count,
        }
    }

    /// Moves one counter by `delta.amount`, wrapping; the others stay.
    pub fn record(&mut self, delta: CounterDelta)
        ensures
            final(self).value_spec(delta.counter) == wrapping_sum(
                old(self).value_spec(delta.counter),
                delta.amount,
            ),
            forall|c: Counter| c != delta.counter ==> final(self).value_spec(c) == old(
                self,
            ).value_spec(c),
    {
        let amount = delta.amount;
        match delta.counter {
            Counter::RequestsTotal => {
                self.requests_total = wrapping_add(self.requests_total, amount);
            },
            Counter::RequestsInflight => {
                self.requests_inflight = wrapping_add(self.requests_inflight, amount);
            },
            Counter::RequestsUnauthorizedTotal => {
                self.requests_unauthorized_total = wrapping_add(
                    self.requests_unauthorized_total,
                    amount,
                );
            },
            Counter::Requests5xxTotal => {
                self.requests_5xx_total = wrapping_add(self.requests_5xx_total, amount);
            },
            Counter::RedisErrorsTotal => {
                self.redis_errors_total = wrapping_add(self.redis_errors_total, amount);
            },
            Counter::RoutingErrorsTotal => {
                self.routing_errors_total = wrapping_add(self.routing_errors_total, amount);
            },
            Counter::TokenErrorsTotal => {
                self.token_errors_total = wrapping_add(self.token_errors_total, amount);
            },
            Counter::UpstreamRequestsTotal => {
                self.upstream_requests_total = wrapping_add(self.upstream_requests_total, amount);
            },
            Counter::UpstreamErrorsTotal => {
                self.upstream_errors_total = wrapping_add(self.upstream_errors_total, amount);
            },
            Counter::UpstreamResponses2xxTotal => {
                self.upstream_responses_2xx_total = wrapping_add(
                    self.upstream_responses_2xx_total,
                    amount,
                );
            },
            Counter::UpstreamResponses3xxTotal => {
                self.upstream_responses_3xx_total = wrapping_add(
                    self.upstream_responses_3xx_total,
                    amount,
                );
            },
            Counter::UpstreamResponses4xxTotal => {
                self.upstream_responses_4xx_total = wrapping_add(
                    self.upstream_responses_4xx_total,
                    amount,
                );
            },
            Counter::UpstreamResponses5xxTotal => {
                self.upstream_responses_5xx_total = wrapping_add(
                    self.upstream_responses_5xx_total,
                    amount,
                );
            },
            Counter::UpstreamLatencyMsSum => {
                self.upstream_latency_ms_sum = wrapping_add(self.upstream_latency_ms_sum, amount);
            },
            Counter::UpstreamLatencyMsCount => {
                self.upstream_latency_ms_count = wrapping_add(
                    self.upstream_latency_ms_count,
                    amount,
                );
            },
            Counter::SseStreamsInflight => {
                self.sse_streams_inflight = wrapping_add(self.sse_streams_inflight, amount);
            },
            Counter::SseStreamsTotal => {
                self.sse_streams_total = wrapping_add(self.sse_streams_total, amount);
            },
            Counter::RequestDurationMsSum => {
                self.request_duration_ms_sum = wrapping_add(self.request_duration_ms_sum, amount);
            },
            Counter::RequestDurationMsCount => {
                self.request_duration_ms_count = wrapping_add(
                    self.request_duration_ms_count,
                    amount,
                );
            },
        }
    }
}

/// The movements for a request duration: the duration is added to the sum
/// and one to the count; a duration that does not fit in an `i64` is not
/// recorded.
pub open spec fn request_duration_deltas(elapsed_millis: u128) -> Seq<CounterDelta> {
    if elapsed_millis > i64::MAX {
        Seq::empty()
    } else {
        seq![
            CounterDelta { counter: Counter::RequestDurationMsSum, amount: elapsed_millis as i64 },
            CounterDelta { counter: Counter::RequestDurationMsCount, amount: 1 },
        ]
    }
}

/// Tells how the duration of a request moves the counters.
pub fn record_request_duration_ms(elapsed_millis: u128) -> (r: Vec<CounterDelta>)
    ensures
        r@ == request_duration_deltas(elapsed_millis),
{
    let mut out: Vec<CounterDelta> = Vec::new();
    if elapsed_millis <= 0x7fff_ffff_ffff_ffff {
        out.push(
            CounterDelta { counter: Counter::RequestDurationMsSum, amount: elapsed_millis as i64 },
        );
        out.push(CounterDelta { counter: Counter::RequestDurationMsCount, amount: 1 });
    }
    assert(out@ =~= request_duration_deltas(elapsed_millis));
    out
}

/// The decimal digit for `d`.
pub open spec fn digit_char(d: int) -> char
    recommends
        0 <= d < 10,
{
    ((48 + d) as u8) as char
}

/// The decimal digits of `n`, without leading zeros.
pub open spec fn digits_spec(n: nat) -> Seq<char>
    decreases n,
{
    if n < 10 {
        seq![digit_char(n as int)]
    } else {
        digits_spec(n / 10).push(digit_char((n % 10) as int))
    }
}

/// `n` in decimal, with a minus sign if it is negative.
pub open spec fn decimal_spec(n: int) -> Seq<char> {
    if n < 0 {
        seq!['-'] + digits_spec((-n) as nat)
    } else {
        digits_spec(n as nat)
    }
}

fn digit_str(d: u64) -> (r: &'static str)
    requires
        d < 10,
    ensures
        r@ == seq![digit_char(d as int)],
{
    proof {
        reveal_strlit("0");
        reveal_strlit("1");
        reveal_strlit("2");
        reveal_strlit("3");
        reveal_strlit("4");
        reveal_strlit("5");
        reveal_strlit("6");
        reveal_strlit("7");
        reveal_strlit("8");
        reveal_strlit("9");
    }
    let r = if d == 0 {
        "0"
    } else if d == 1 {
        "1"
    } else if d == 2 {
        "2"
    } else if d == 3 {
        "3"
    } else if d == 4 {
        "4"
    } else if d == 5 {
        "5"
    } else if d == 6 {
        "6"
    } else if d == 7 {
        "7"
    } else if d == 8 {
        "8"
    } else {
        "9"
    };
    assert(r@ =~= seq![digit_char(d as int)]);
    r
}

fn push_digits(n: u64, out: &mut String)
    ensures
        final(out)@ == old(out)@ + digits_spec(n as nat),
    decreases n,
{
    if n >= 10 {
        push_digits(n / 10, out);
    }
    let ghost before = out@;
    out.append(digit_str(n % 10));
    assert(out@ =~= old(out)@ + digits_spec(n as nat));
}

/// Appends `n` in decimal to `out`.
pub fn push_decimal(n: i64, out: &mut String)
    ensures
        final(out)@ == old(out)@ + decimal_spec(n as int),
{
    if n < 0 {
        out.append("-");
        proof {
            reveal_strlit("-");
        }
        let magnitude: u64 = ((-(n + 1)) as u64) + 1;
        push_digits(magnitude, out);
        assert(out@ =~= old(out)@ + decimal_spec(n as int));
    } else {
        push_digits(n as u64, out);
    }
}

/// The request id for what the random generator gave: `req_` and the 16
/// random bytes in base64url, or `req_` and the time in milliseconds when
/// there are no random bytes.
pub open spec fn request_id_spec(random: Option<Seq<u8>>, now_ms: i64) -> Seq<char> {
    match random {
        Some(bytes) => "req_"@ + base64url_nopad(bytes),
        None => "req_"@ + decimal_spec(now_ms as int),
    }
}

/// Builds a request id from the random bytes, or from the time if there
/// are none. The id can always be sent as a header value.
pub fn request_id_from(random: Option<&[u8]>, now_ms: i64) -> (r: String)
    requires
        random matches Some(bytes) ==> crate::codec::is_encodable(bytes@.len()),
    ensures
        r@ == request_id_spec(
            match random {
                Some(bytes) => Some(bytes@),
                None => None,
            },
            now_ms,
        ),
        random matches Some(bytes) ==> r@.len() == 4 + crate::codec::base64url_len(
            bytes@.len(),
        ),
        is_header_value(utf8(r@)),
{
    let mut id = String::from_str("req_");
    proof {
        reveal_strlit("req_");
    }
    match random {
        Some(bytes) => {
            let encoded = base64url_encode(bytes);
            id.append(encoded.as_str());
        },
        None => {
            push_decimal(now_ms, &mut id);
        },
    }
    proof {
        lemma_request_id_is_header_value(
            match random {
                Some(bytes) => Some(bytes@),
                None => None,
            },
            now_ms,
        );
    }
    id
}

/// A fresh request id: [`request_id_spec`] for the 16 bytes that the
/// operating system's random generator gave, which makes an id of 26
/// characters, and, if it gave nothing, for the time that the clock showed.
pub fn new_request_id() -> (r: String)
    ensures
        exists|random: Option<Seq<u8>>, now_ms: i64|
            (random matches Some(bytes) ==> bytes.len() == 16 && r@.len() == 26) && #[trigger]
            request_id_spec(random, now_ms) == r@,
        is_header_value(utf8(r@)),
{
    match os_random(16) {
        Some(bytes) => {
            let id = request_id_from(Some(bytes.as_slice()), 0);
            assert(id@ == request_id_spec(Some(bytes@), 0));
            id
        },
        None => {
            let now_ms = crate::time::now_ms();
            let id = request_id_from(None, now_ms);
            assert(id@ == request_id_spec(None, now_ms));
            id
        },
    }
}

/// The digits of a number are digits.
pub proof fn lemma_digits_chars(n: nat)
    ensures
        forall|i: int|
            0 <= i < digits_spec(n).len() ==> '0' <= (#[trigger] digits_spec(n)[i]) <= '9',
    decreases n,
{
    if n >= 10 {
        lemma_digits_chars(n / 10);
        let d = digit_char((n % 10) as int);
        assert('0' <= d <= '9');
        assert forall|i: int| 0 <= i < digits_spec(n).len() implies '0' <= (
        #[trigger] digits_spec(n)[i]) <= '9' by {
            if i < digits_spec(n / 10).len() {
                assert(digits_spec(n)[i] == digits_spec(n / 10)[i]);
            }
        }
    } else {
        assert('0' <= digit_char(n as int) <= '9');
    }
}

/// A number in decimal is written with digits and the minus sign.
pub proof fn lemma_decimal_chars(n: int)
    ensures
        forall|i: int|
            0 <= i < decimal_spec(n).len() ==> ('0' <= (#[trigger] decimal_spec(n)[i]) <= '9'
                || decimal_spec(n)[i] == '-'),
{
    if n < 0 {
        lemma_digits_chars((-n) as nat);
    } else {
        lemma_digits_chars(n as nat);
    }
}

/// A request id can be sent as a header value, whatever the clock showed
/// and whatever the random bytes were, given that their base64 text is
/// written in the base64url alphabet (which the encoder promises).
pub proof fn lemma_request_id_is_header_value(random: Option<Seq<u8>>, now_ms: i64)
    requires
        random matches Some(bytes) ==> forall|i: int|
            0 <= i < base64url_nopad(bytes).len() ==> is_base64url_char(
                #[trigger] base64url_nopad(bytes)[i],
            ),
    ensures
        is_header_value(utf8(request_id_spec(random, now_ms))),
{
    reveal_strlit("req_");
    let id = request_id_spec(random, now_ms);
    lemma_decimal_chars(now_ms as int);
    assert forall|i: int| 0 <= i < id.len() implies ' ' <= #[trigger] id[i] <= '~' by {
        if i >= 4 {
            let c = id[i];
            match random {
                Some(bytes) => {
                    assert(c == base64url_nopad(bytes)[i - 4]);
                    assert(is_base64url_char(c));
                },
                None => {
                    assert(c == decimal_spec(now_ms as int)[i - 4]);
                },
            }
        }
    }
    lemma_visible_ascii_is_header_value(id);
}

/// A text of visible ASCII characters can be sent as a header value.
pub proof fn lemma_visible_ascii_is_header_value(text: Seq<char>)
    requires
        forall|i: int| 0 <= i < text.len() ==> ' ' <= #[trigger] text[i] <= '~',
    ensures
        is_header_value(utf8(text)),
{
    assert(vstd::utf8::is_ascii_chars(text)) by {
        assert forall|i: int| 0 <= i < text.len() implies '\0' <= #[trigger] text[i]
            <= '\u{7f}' by {
            assert(' ' <= text[i] <= '~');
        }
    }
    vstd::utf8::is_ascii_chars_encode_utf8(text);
    let bytes = utf8(text);
    assert forall|i: int| 0 <= i < bytes.len() implies crate::headers::is_header_value_byte(
        #[trigger] bytes[i],
    ) by {
        assert(' ' <= text[i] <= '~');
        assert(bytes[i] == text[i] as u8);
    }
}

} // verus!
