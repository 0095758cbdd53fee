use codex_mgr::codec::hash_opaque_id;
use codex_mgr::observability::new_request_id;
use codex_mgr::observability::push_decimal;
use codex_mgr::observability::record_request_duration_ms;
use codex_mgr::observability::request_id_from;
use codex_mgr::observability::wrapping_add;
use codex_mgr::observability::Counter;
use codex_mgr::observability::CounterDelta;
use codex_mgr::observability::GatewayMetrics;
use codex_mgr::time::duration_ms;
use codex_mgr::time::now_ms;
use codex_mgr::time::timestamp_ms;

const COUNTERS: [Counter; 19] = [
    Counter::RequestsTotal,
    Counter::RequestsInflight,
    Counter::RequestsUnauthorizedTotal,
    Counter::Requests5xxTotal,
    Counter::RedisErrorsTotal,
    Counter::RoutingErrorsTotal,
    Counter::TokenErrorsTotal,
    Counter::UpstreamRequestsTotal,
    Counter::UpstreamErrorsTotal,
    Counter::UpstreamResponses2xxTotal,
    Counter::UpstreamResponses3xxTotal,
    Counter::UpstreamResponses4xxTotal,
    Counter::UpstreamResponses5xxTotal,
    Counter::UpstreamLatencyMsSum,
    Counter::UpstreamLatencyMsCount,
    Counter::SseStreamsInflight,
    Counter::SseStreamsTotal,
    Counter::RequestDurationMsSum,
    Counter::RequestDurationMsCount,
];

#[test]
fn opaque_ids_are_hashed() {
    assert_eq!(hash_opaque_id("chat-1"), "6uuREbHGdEJ46AOXfb8l-9rGqbbTIkTskfwMgman9ls");
    assert_eq!(hash_opaque_id(""), "47DEQpj8HBSa-_TImW-5JCeuQeRkm5NMpJWZG3hSuFU");
    assert_eq!(hash_opaque_id("caf\u{e9}"), "hQ99xDkQ_4kPiHnA7Sb-aXyToGetk6fVD0ZqcCipv04");
}

#[test]
fn request_id_from_random_bytes() {
    assert_eq!(request_id_from(Some(&[0u8; 16]), 5), "req_AAAAAAAAAAAAAAAAAAAAAA");
    assert_eq!(request_id_from(Some(b"0123456789abcdef"), 5), "req_MDEyMzQ1Njc4OWFiY2RlZg");
}

#[test]
fn request_id_falls_back_to_the_clock() {
    assert_eq!(request_id_from(None, 1_700_000_000_123), "req_1700000000123");
    assert_eq!(request_id_from(None, 0), "req_0");
    assert_eq!(request_id_from(None, -42), "req_-42");
    assert_eq!(request_id_from(None, i64::MAX), "req_9223372036854775807");
    assert_eq!(request_id_from(None, i64::MIN), "req_-9223372036854775808");
}

#[test]
fn new_request_ids_are_distinct() {
    let a = new_request_id();
    let b = new_request_id();
    assert!(a.starts_with("req_"));
    assert_eq!(a.len(), 4 + 22);
    assert_ne!(a, b);
    assert!(a.bytes().all(|c| c.is_ascii_alphanumeric() || c == b'-' || c == b'_'));
}

#[test]
fn decimal_rendering() {
    for n in [0i64, 7, 10, 99, 100, 1234567890, -1, -10, -999, i64::MAX, i64::MIN, i64::MIN + 1] {
        let mut out = String::from("x");
        push_decimal(n, &mut out);
        assert_eq!(out, format!("x{n}"));
    }
}

#[test]
fn counters_start_at_zero() {
    let m = GatewayMetrics::new();
    for c in COUNTERS {
        assert_eq!(m.value(c), 0);
    }
}

#[test]
fn recording_moves_one_counter() {
    for (i, c) in COUNTERS.iter().enumerate() {
        let mut m = GatewayMetrics::new();
        m.record(CounterDelta { counter: *c, amount: 3 + i as i64 });
        m.record(CounterDelta { counter: *c, amount: -1 });
        for other in COUNTERS {
            let expected = if other == *c { 2 + i as i64 } else { 0 };
            assert_eq!(m.value(other), expected);
        }
    }
}

#[test]
fn counters_are_the_named_fields() {
    let mut m = GatewayMetrics::new();
    m.record(CounterDelta { counter: Counter::RequestsTotal, amount: 1 });
    m.record(CounterDelta { counter: Counter::SseStreamsInflight, amount: 2 });
    m.record(CounterDelta { counter: Counter::UpstreamLatencyMsSum, amount: 3 });
    assert_eq!(m.requests_total, 1);
    assert_eq!(m.sse_streams_inflight, 2);
    assert_eq!(m.upstream_latency_ms_sum, 3);
    assert_eq!(m.requests_inflight, 0);
}

#[test]
fn counters_wrap_around() {
    assert_eq!(wrapping_add(i64::MAX, 1), i64::MIN);
    assert_eq!(wrapping_add(i64::MIN, -1), i64::MAX);
    assert_eq!(wrapping_add(i64::MAX, i64::MAX), -2);
    assert_eq!(wrapping_add(i64::MIN, i64::MIN), 0);
    assert_eq!(wrapping_add(5, -7), -2);
    for (a, b) in [(i64::MAX, 17), (i64::MIN, -17), (1 << 62, 1 << 62), (-(1 << 62), -(1 << 62) - 1)] {
        assert_eq!(wrapping_add(a, b), a.wrapping_add(b));
    }
    let mut m = GatewayMetrics::new();
    m.record(CounterDelta { counter: Counter::RequestDurationMsSum, amount: i64::MAX });
    m.record(CounterDelta { counter: Counter::RequestDurationMsSum, amount: 1 });
    assert_eq!(m.request_duration_ms_sum, i64::MIN);
}

#[test]
fn request_duration_is_recorded_if_it_fits() {
    assert_eq!(
        record_request_duration_ms(250),
        vec![
            CounterDelta { counter: Counter::RequestDurationMsSum, amount: 250 },
            CounterDelta { counter: Counter::RequestDurationMsCount, amount: 1 },
        ]
    );
    assert_eq!(record_request_duration_ms(i64::MAX as u128).len(), 2);
    assert_eq!(record_request_duration_ms(i64::MAX as u128 + 1), vec![]);
}

#[test]
fn duration_saturates() {
    assert_eq!(duration_ms(0), 0);
    assert_eq!(duration_ms(1500), 1500);
    assert_eq!(duration_ms(i64::MAX as u128), i64::MAX);
    assert_eq!(duration_ms(i64::MAX as u128 + 1), i64::MAX);
    assert_eq!(duration_ms(u128::MAX), i64::MAX);
}

#[test]
fn timestamps_keep_the_low_bits() {
    assert_eq!(timestamp_ms(None), 0);
    assert_eq!(timestamp_ms(Some(0)), 0);
    assert_eq!(timestamp_ms(Some(1_700_000_000_123)), 1_700_000_000_123);
    for m in [i64::MAX as u128, i64::MAX as u128 + 1, u64::MAX as u128, u64::MAX as u128 + 1, u128::MAX, (1u128 << 64) + 5, 3u128 << 63] {
        assert_eq!(timestamp_ms(Some(m)), m as i64);
    }
}

#[test]
fn the_clock_runs() {
    let a = now_ms();
    let b = now_ms();
    // After 2020 and not backwards by more than a clock adjustment.
    assert!(a > 1_577_836_800_000);
    assert!(b >= a - 60_000);
}
