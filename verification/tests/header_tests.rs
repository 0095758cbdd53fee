use codex_mgr::header_policy::connection_hop_headers;
use codex_mgr::header_policy::forward_fields;
use codex_mgr::header_policy::forward_headers;
use codex_mgr::header_policy::forward_request_headers;
use codex_mgr::header_policy::forward_response_headers;
use codex_mgr::header_policy::is_hop_by_hop;
use codex_mgr::header_policy::Direction;
use codex_mgr::header_policy::should_drop_header;
use codex_mgr::header_policy::should_drop_request_header;
use codex_mgr::header_policy::should_drop_response_header;
use codex_mgr::headers::first_field;
use codex_mgr::headers::read_header;
use axum::http::HeaderMap;
use axum::http::HeaderName;
use axum::http::HeaderValue;
use codex_mgr::headers::fields_of;
use codex_mgr::headers::header_map_of;
use codex_mgr::headers::HeaderField;

fn field(name: &str, value: &str) -> HeaderField {
    HeaderField::new(name, value.as_bytes()).unwrap()
}

fn names(fields: &[HeaderField]) -> Vec<(String, String)> {
    fields
        .iter()
        .map(|f| (f.name().to_string(), String::from_utf8_lossy(f.value()).to_string()))
        .collect()
}

fn pair(name: &str, value: &str) -> (String, String) {
    (name.to_string(), value.to_string())
}

#[test]
fn header_names_are_normalized() {
    let f = HeaderField::new("Content-Type", b"text/plain").unwrap();
    assert_eq!(f.name(), "content-type");
    assert_eq!(f.value(), b"text/plain");
    assert_eq!(f.text(), Some("text/plain".to_string()));
    assert_eq!(f.clone(), f);
}

#[test]
fn invalid_header_names_are_refused() {
    assert_eq!(HeaderField::new("", b"x"), None);
    assert_eq!(HeaderField::new("a b", b"x"), None);
    assert_eq!(HeaderField::new("a:b", b"x"), None);
    assert_eq!(HeaderField::new("caf\u{e9}", b"x"), None);
    assert_eq!(HeaderField::new(&"a".repeat(65536), b"x"), None);
    assert!(HeaderField::new(&"A".repeat(65535), b"x").is_some());
    assert!(HeaderField::new("!#$%&'*+-.^_`|~09azAZ", b"x").is_some());
}

#[test]
fn header_text_needs_visible_ascii() {
    assert_eq!(field("a", "tab\tand space").text(), Some("tab\tand space".to_string()));
    assert_eq!(HeaderField::new("a", b"nul\0").unwrap().text(), None);
    assert_eq!(HeaderField::new("a", b"del\x7f").unwrap().text(), None);
    assert_eq!(HeaderField::new("a", b"high\xff").unwrap().text(), None);
    assert_eq!(HeaderField::new("a", b"").unwrap().text(), Some(String::new()));
}

#[test]
fn first_field_finds_the_first_of_a_name() {
    let headers = vec![field("a", "1"), field("b", "2"), field("a", "3")];
    assert_eq!(first_field(&headers, "a"), Some(&headers[0]));
    assert_eq!(first_field(&headers, "b"), Some(&headers[1]));
    assert_eq!(first_field(&headers, "c"), None);
    // Lookups are by normalized name.
    assert_eq!(first_field(&headers, "A"), None);
}

#[test]
fn read_header_trims_and_rejects_blank() {
    let headers = vec![field("x", "  v  "), field("y", " \t "), field("z", "")];
    assert_eq!(read_header(&headers, "x"), Some("v".to_string()));
    assert_eq!(read_header(&headers, "y"), None);
    assert_eq!(read_header(&headers, "z"), None);
    assert_eq!(read_header(&headers, "w"), None);
}

fn map_of(pairs: &[(&str, &[u8])]) -> HeaderMap {
    let mut map = HeaderMap::new();
    for (name, value) in pairs {
        map.append(
            HeaderName::from_bytes(name.as_bytes()).unwrap(),
            HeaderValue::from_bytes(value).unwrap(),
        );
    }
    map
}

#[test]
fn fields_of_a_map_are_what_it_yields() {
    let map = map_of(&[("Accept", b"*/*"), ("cookie", b"a=1"), ("x-bin", b"\xff"), ("cookie", b"b=2")]);
    let fields = fields_of(&map);
    let yielded: Vec<(String, Vec<u8>)> =
        map.iter().map(|(n, v)| (n.as_str().to_string(), v.as_bytes().to_vec())).collect();
    let got: Vec<(String, Vec<u8>)> =
        fields.iter().map(|f| (f.name().to_string(), f.value().to_vec())).collect();
    assert_eq!(got, yielded);
    assert_eq!(
        names(&fields[..2]),
        vec![pair("accept", "*/*"), pair("cookie", "a=1")]
    );
    assert_eq!(fields.len(), 4);
    assert_eq!(fields_of(&HeaderMap::new()), vec![]);
}

#[test]
fn a_map_is_built_by_appending() {
    let fields = vec![field("a", "1"), field("b", "2"), field("a", "3"), field("c", "4"), field("b", "5")];
    let map = header_map_of(&fields).unwrap();
    assert_eq!(map, map_of(&[("a", b"1"), ("b", b"2"), ("a", b"3"), ("c", b"4"), ("b", b"5")]));
    // A field stands after the last field of its name.
    assert_eq!(
        names(&fields_of(&map)),
        vec![pair("a", "1"), pair("a", "3"), pair("b", "2"), pair("b", "5"), pair("c", "4")]
    );
    let values: Vec<&[u8]> = map.get_all("a").iter().map(|v| v.as_bytes()).collect();
    assert_eq!(values, vec![&b"1"[..], &b"3"[..]]);
    assert_eq!(header_map_of(&[]), Some(HeaderMap::new()));
}

#[test]
fn a_map_refuses_what_is_no_header_value() {
    let bad = vec![field("a", "1"), HeaderField::new("b", b"line\nbreak").unwrap()];
    assert_eq!(header_map_of(&bad), None);
    let del = vec![HeaderField::new("b", b"\x7f").unwrap()];
    assert_eq!(header_map_of(&del), None);
}

#[test]
fn policy_on_a_header_map() {
    let map = map_of(&[
        ("accept", b"*/*"),
        ("authorization", b"Bearer t"),
        ("cookie", b"a=1"),
        ("connection", b"x-hop"),
        ("x-hop", b"1"),
        ("cookie", b"b=2"),
        ("conversation_id", b"chat-1"),
        ("host", b"gw"),
    ]);
    let request = forward_headers(Direction::Request, &map).unwrap();
    assert_eq!(request, map_of(&[("accept", b"*/*"), ("cookie", b"a=1"), ("cookie", b"b=2")]));
    let response = forward_headers(Direction::Response, &map).unwrap();
    assert_eq!(
        response,
        map_of(&[
            ("accept", b"*/*"),
            ("authorization", b"Bearer t"),
            ("cookie", b"a=1"),
            ("cookie", b"b=2"),
            ("conversation_id", b"chat-1"),
            ("host", b"gw"),
        ])
    );
}

#[test]
fn fixed_hop_by_hop_set() {
    for name in [
        "connection",
        "keep-alive",
        "proxy-authenticate",
        "proxy-authorization",
        "te",
        "trailer",
        "transfer-encoding",
        "upgrade",
    ] {
        assert!(is_hop_by_hop(name, &[]), "{name}");
        assert!(should_drop_request_header(name, &[]), "{name}");
        assert!(should_drop_response_header(name, &[]), "{name}");
    }
    for name in ["content-type", "accept", "keep-alive2", "t", "", "x-upgrade"] {
        assert!(!is_hop_by_hop(name, &[]), "{name}");
        assert!(!should_drop_response_header(name, &[]), "{name}");
    }
}

#[test]
fn request_policy_drops_gateway_and_path_headers() {
    for name in [
        "authorization",
        "host",
        "content-length",
        "cf-ray",
        "cf-",
        "cf-connecting-ip",
        "cdn-loop",
        "x-forwarded-for",
        "x-forwarded-",
        "x-forwarded-proto",
        "x-real-ip",
        "conversation_id",
        "session_id",
    ] {
        assert!(should_drop_request_header(name, &[]), "{name}");
        assert!(!should_drop_response_header(name, &[]), "{name}");
    }
    for name in [
        "cf",
        "cfx-ray",
        "x-forwarded",
        "x-real-ip2",
        "cdn-loops",
        "content-type",
        "cookie",
        "conversation-id",
        "conversation_id2",
        "session",
    ] {
        assert!(!should_drop_request_header(name, &[]), "{name}");
    }
}

#[test]
fn connection_listed_headers_are_hop_by_hop() {
    let hops = vec!["x-custom".to_string()];
    assert!(is_hop_by_hop("x-custom", &hops));
    assert!(should_drop_request_header("x-custom", &hops));
    assert!(should_drop_response_header("x-custom", &hops));
    assert!(!is_hop_by_hop("x-custom2", &hops));
}

#[test]
fn connection_tokens_are_split_trimmed_and_normalized() {
    let headers = vec![
        field("connection", "Keep-Alive, X-Foo ,,  , bad token, x-bar"),
        field("accept", "connection"),
        HeaderField::new("connection", b"x-bin\xff").unwrap(),
        field("connection", "close"),
        field("connection", ""),
    ];
    assert_eq!(
        connection_hop_headers(&headers),
        vec!["keep-alive".to_string(), "x-foo".to_string(), "x-bar".to_string(), "close".to_string()]
    );
    assert_eq!(connection_hop_headers(&[]), Vec::<String>::new());
}

#[test]
fn forward_request_headers_keeps_order_and_repeats() {
    let headers = vec![
        field("accept", "text/event-stream"),
        field("authorization", "Bearer gw_token"),
        field("cookie", "a=1"),
        field("connection", "x-hop, keep-alive"),
        field("x-hop", "1"),
        field("cookie", "b=2"),
        field("host", "gateway.example"),
        field("content-length", "12"),
        field("cf-ray", "abc"),
        field("x-forwarded-for", "10.0.0.1"),
        field("x-real-ip", "10.0.0.1"),
        field("cdn-loop", "cloudflare"),
        field("te", "trailers"),
        field("conversation_id", "chat-1"),
        field("session_id", "s-1"),
        field("content-type", "application/json"),
    ];
    let out = forward_fields(Direction::Request, &headers);
    assert_eq!(
        names(&out),
        vec![
            pair("accept", "text/event-stream"),
            pair("cookie", "a=1"),
            pair("cookie", "b=2"),
            pair("content-type", "application/json"),
        ]
    );
}

#[test]
fn forward_response_headers_drops_only_hop_by_hop() {
    let headers = vec![
        field("content-type", "text/event-stream"),
        field("transfer-encoding", "chunked"),
        field("set-cookie", "a=1"),
        field("connection", "x-internal"),
        field("x-internal", "1"),
        field("set-cookie", "b=2"),
        field("authorization", "kept"),
        field("content-length", "5"),
        field("upgrade", "h2c"),
    ];
    let out = forward_fields(Direction::Response, &headers);
    assert_eq!(
        names(&out),
        vec![
            pair("content-type", "text/event-stream"),
            pair("set-cookie", "a=1"),
            pair("set-cookie", "b=2"),
            pair("authorization", "kept"),
            pair("content-length", "5"),
        ]
    );
}

#[test]
fn forwarded_headers_never_hold_a_dropped_name() {
    let all = [
        "accept", "authorization", "host", "content-length", "cf-x", "cdn-loop", "x-forwarded-host",
        "x-real-ip", "connection", "keep-alive", "proxy-authenticate", "proxy-authorization", "te",
        "trailer", "transfer-encoding", "upgrade", "x-a", "x-b", "user-agent",
    ];
    for listed in ["", "x-a", "x-a, x-b", "user-agent"] {
        let mut headers: Vec<HeaderField> = all.iter().map(|n| field(n, "v")).collect();
        headers.push(field("connection", listed));
        let hops = connection_hop_headers(&headers);
        for f in forward_fields(Direction::Request, &headers) {
            assert!(!should_drop_request_header(f.name(), &hops), "{}", f.name());
        }
        for f in forward_fields(Direction::Response, &headers) {
            assert!(!is_hop_by_hop(f.name(), &hops), "{}", f.name());
        }
    }
}

#[test]
fn values_that_are_not_text_pass_the_policy_unchanged() {
    let headers = vec![HeaderField::new("x-bin", b"\xff\xfe raw").unwrap()];
    let out = forward_fields(Direction::Request, &headers);
    assert_eq!(out.len(), 1);
    assert_eq!(out[0].value(), b"\xff\xfe raw");
}

#[test]
fn conversation_headers_are_not_sent_upstream() {
    let headers = vec![
        field("Conversation_ID", "chat-1"),
        field("accept", "*/*"),
        field("session_id", "s-1"),
        field("conversation_id", "chat-2"),
    ];
    assert_eq!(names(&forward_fields(Direction::Request, &headers)), vec![pair("accept", "*/*")]);
    // The response policy does not know them.
    assert_eq!(forward_fields(Direction::Response, &headers).len(), 4);
}

#[test]
fn the_two_directions_share_one_policy_function() {
    let headers = vec![field("host", "gw"), field("te", "trailers"), field("accept", "*/*")];
    let map = header_map_of(&headers).unwrap();
    assert_eq!(forward_request_headers(&map), forward_fields(Direction::Request, &headers));
    assert_eq!(forward_response_headers(&map), forward_fields(Direction::Response, &headers));
    assert_eq!(
        fields_of(&forward_headers(Direction::Request, &map).unwrap()),
        forward_request_headers(&map)
    );
    assert_eq!(names(&forward_fields(Direction::Response, &headers)), vec![pair("host", "gw"), pair("accept", "*/*")]);
    assert!(should_drop_header(Direction::Request, "host", &[]));
    assert!(!should_drop_header(Direction::Response, "host", &[]));
}

#[test]
fn request_policy_on_a_map_built_by_appending() {
    let map = map_of(&[
        ("connection", b"x-foo, keep-alive"),
        ("x-foo", b"1"),
        ("x-bar", b"2"),
        ("authorization", b"Bearer t"),
        ("host", b"h"),
        ("content-length", b"3"),
        ("cf-ray", b"r"),
        ("cdn-loop", b"c"),
        ("x-forwarded-for", b"1.1.1.1"),
        ("x-real-ip", b"1.1.1.1"),
        ("te", b"trailers"),
        ("accept", b"a"),
        ("accept", b"b"),
    ]);
    assert_eq!(
        names(&forward_request_headers(&map)),
        vec![pair("x-bar", "2"), pair("accept", "a"), pair("accept", "b")]
    );
    assert_eq!(map.len(), 13);
}

#[test]
fn response_policy_on_a_map_built_by_appending() {
    let map = map_of(&[
        ("content-type", b"text/event-stream"),
        ("transfer-encoding", b"chunked"),
        ("content-length", b"5"),
        ("connection", b"x-up"),
        ("x-up", b"1"),
        ("set-cookie", b"a"),
        ("set-cookie", b"b"),
        ("x-forwarded-for", b"9"),
    ]);
    assert_eq!(
        names(&forward_response_headers(&map)),
        vec![
            pair("content-type", "text/event-stream"),
            pair("content-length", "5"),
            pair("set-cookie", "a"),
            pair("set-cookie", "b"),
            pair("x-forwarded-for", "9"),
        ]
    );
}

#[test]
fn a_map_takes_many_fields() {
    let fields: Vec<HeaderField> =
        (0..2000).map(|i| field(&format!("x-h{i}"), "v")).collect();
    let map = header_map_of(&fields).unwrap();
    assert_eq!(map.len(), 2000);
    assert_eq!(fields_of(&map), fields);
}

#[test]
fn a_full_map_takes_no_new_name() {
    let fields: Vec<HeaderField> =
        (0..40000).map(|i| field(&format!("x-h{i}"), "v")).collect();
    assert_eq!(header_map_of(&fields), None);
    // Values of one name do not fill the table.
    let repeated: Vec<HeaderField> = (0..40000).map(|_| field("x-h", "v")).collect();
    assert_eq!(header_map_of(&repeated).map(|m| m.len()), Some(40000));
}
