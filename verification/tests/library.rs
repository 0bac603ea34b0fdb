use http::header::{HeaderName, HeaderValue};
use http::{HeaderMap, Request};
use tower_otel::fields::{
    axum_server_span_fields, client_span_fields, get_http_version, http_server_span_fields,
    sized_server_span_fields, version_debug_text, version_number_text,
};
use tower_otel::grpc::{extract_service_method, grpc_span_fields, is_reflection_service};
use tower_otel::headers::{
    header_attribute_list, header_text, header_value_to_str, inject_header,
    is_valid_header_key, is_valid_header_value,
};
use tower_otel::helper::{
    checked_approximate_request_size, checked_approximate_response_size,
    compute_approximate_request_body_size, compute_approximate_request_size,
    compute_approximate_response_body_size, compute_approximate_response_size,
};
use tower_otel::host::{
    extract_server_conn_info, forwarded_host_param, parse_forwarded_header, parse_host_string,
    server_host_candidate, split_host_and_port, trim_start_str,
};
use tower_otel::metrics::{metric_labels, request_metric_attributes};
use tower_otel::request::{HttpVersion, PeerAddr, RequestHead};
use tower_otel::response::{is_server_error, otel_status_code, status_code_text, status_fields};
use tower_otel::text::{find_str, str_equal, trim_str};
use tower_otel::trace_id::{get_current_otel_trace_id, trace_id_from_ids};

fn head_with(uri: &str, headers: &[(&str, &[u8])]) -> RequestHead {
    let mut builder = Request::builder().uri(uri);
    for (name, value) in headers {
        builder = builder.header(*name, HeaderValue::from_bytes(value).unwrap());
    }
    RequestHead::from_request(&builder.body(()).unwrap())
}

fn peer(ip: &str, port: u16) -> PeerAddr {
    PeerAddr { ip: ip.to_string(), port }
}

fn some(s: &str) -> Option<String> {
    Some(s.to_string())
}

#[test]
fn split_host_and_port_splits_at_the_first_colon() {
    assert_eq!(split_host_and_port("a:b:c"), (some("a"), some("b:c")));
    assert_eq!(split_host_and_port(""), (some(""), None));
    assert_eq!(split_host_and_port(":80"), (some(""), some("80")));
}

#[test]
fn split_host_and_port_rejoins_to_the_host() {
    for host in ["example.com:443", "a:b:c", "noport", ""] {
        match split_host_and_port(host) {
            (Some(a), Some(p)) => assert_eq!(format!("{a}:{p}"), host),
            (Some(a), None) => assert_eq!(a, host),
            _ => panic!("no address"),
        }
    }
}

#[test]
fn forwarded_header_without_for_gives_nothing() {
    assert_eq!(parse_forwarded_header("proto=http;by=203.0.113.43"), (None, None));
    assert_eq!(parse_forwarded_header(""), (None, None));
}

#[test]
fn forwarded_header_value_is_trimmed() {
    assert_eq!(parse_forwarded_header("by=x; for=  10.0.0.1 ;proto=http"), (some("10.0.0.1"), None));
    assert_eq!(parse_forwarded_header("for=\u{3000}h:1\u{2029},for=z"), (some("h"), some("1")));
}

#[test]
fn forwarded_header_takes_precedence_over_host() {
    let head = head_with("/", &[("host", b"example.com:80"), ("forwarded", b"for=192.0.2.1:8080")]);
    let (address, port) = tower_otel::host::extract_server_address_and_port(&head);
    assert_eq!(address, some("192.0.2.1"));
    assert_eq!(port, some("8080"));
}

#[test]
fn unprintable_forwarded_header_falls_through() {
    let head = head_with("/", &[("forwarded", b"for=\xff"), ("host", b"h:1")]);
    let (address, port) = tower_otel::host::extract_server_address_and_port(&head);
    assert_eq!(address, some("h"));
    assert_eq!(port, some("1"));
}

#[test]
fn no_header_and_no_authority_gives_nothing() {
    let head = head_with("/path", &[]);
    assert_eq!(tower_otel::host::extract_server_address_and_port(&head), (None, None));
}

#[test]
fn forwarded_host_parameter_is_found() {
    assert_eq!(forwarded_host_param("for=1.2.3.4;host=example.com"), some("example.com"));
    assert_eq!(forwarded_host_param("host=\"example.com\""), some("example.com"));
    assert_eq!(forwarded_host_param("host=host=a"), some("a"));
    assert_eq!(forwarded_host_param(" host=\"x\""), some("x"));
    assert_eq!(forwarded_host_param("for=192.0.2.60; host=203.0.113.43"), some("203.0.113.43"));
    assert_eq!(forwarded_host_param("proto=http;for=a"), None);
    assert_eq!(forwarded_host_param(""), None);
}

#[test]
fn trim_start_removes_leading_white_space_only() {
    assert_eq!(trim_start_str(" \t a b "), "a b ");
    assert_eq!(trim_str("\u{3000}a b\u{2029} "), "a b");
    assert_eq!(trim_str("   "), "");
}

#[test]
fn parse_host_string_prefers_the_resolved_address() {
    assert_eq!(parse_host_string("x", Some(("1.2.3.4".to_string(), 80))), (some("1.2.3.4"), Some(80)));
    assert_eq!(parse_host_string("example.com:8080", None), (some("example.com"), Some(8080)));
    assert_eq!(parse_host_string("h:notaport", None), (some("h"), None));
    assert_eq!(parse_host_string("h:70000", None), (some("h"), None));
    assert_eq!(parse_host_string("h", None), (some("h"), None));
}

#[test]
fn server_host_candidate_follows_the_header_order() {
    let head = head_with("/", &[("forwarded", b"for=a"), ("x-forwarded-host", b"b:1"), ("host", b"c")]);
    assert_eq!(server_host_candidate(&head), some("b:1"));
    let head = head_with("/", &[("forwarded", b"host=a"), ("host", b"c")]);
    assert_eq!(server_host_candidate(&head), some("a"));
    let head = head_with("/", &[("host", b"c")]);
    assert_eq!(server_host_candidate(&head), some("c"));
    let head = head_with("/", &[]);
    assert_eq!(server_host_candidate(&head), None);
    assert_eq!(extract_server_conn_info(&head, Some(("9.9.9.9".to_string(), 80))), (None, None));
    let head = head_with("/", &[("host", b"c:81")]);
    assert_eq!(extract_server_conn_info(&head, None), (some("c"), Some(81)));
}

#[test]
fn authority_pseudo_header_is_never_found() {
    let head = head_with("/", &[("host", b"c")]);
    assert_eq!(header_text(&head.headers, ":authority"), None);
}

#[test]
fn header_lookup_ignores_the_case_of_the_key() {
    let head = head_with("/", &[("x-custom", b"one")]);
    assert_eq!(header_text(&head.headers, "X-Custom"), some("one"));
    assert_eq!(header_text(&head.headers, "bad key"), None);
}

#[test]
fn header_value_text_needs_visible_ascii() {
    assert_eq!(header_value_to_str(&b"abc\tdef".to_vec()), some("abc\tdef"));
    assert_eq!(header_value_to_str(&b"caf\xc3\xa9".to_vec()), None);
    assert_eq!(header_value_to_str(&Vec::new()), some(""));
}

#[test]
fn header_attributes_keep_printable_values_in_order() {
    let mut map = HeaderMap::new();
    map.insert(HeaderName::from_static("x-a"), HeaderValue::from_static("1"));
    map.insert(HeaderName::from_static("x-b"), HeaderValue::from_bytes(b"\xff").unwrap());
    map.append(HeaderName::from_static("x-a"), HeaderValue::from_static("2"));
    let attributes = header_attribute_list(&map, "http.request.header.");
    assert_eq!(
        attributes,
        vec![
            ("http.request.header.x-a".to_string(), "1".to_string()),
            ("http.request.header.x-a".to_string(), "2".to_string()),
        ]
    );
}

#[test]
fn injected_header_is_read_back() {
    let mut map = HeaderMap::new();
    map.insert(HeaderName::from_static("traceparent"), HeaderValue::from_static("old"));
    map.append(HeaderName::from_static("traceparent"), HeaderValue::from_static("older"));
    map.insert(HeaderName::from_static("other"), HeaderValue::from_static("kept"));
    inject_header(&mut map, "TraceParent", "00-abc-01");
    assert_eq!(header_text(&map, "traceparent"), some("00-abc-01"));
    assert_eq!(map.get_all("traceparent").iter().count(), 1);
    assert_eq!(header_text(&map, "other"), some("kept"));
}

#[test]
fn invalid_injections_leave_the_map_unchanged() {
    let mut map = HeaderMap::new();
    inject_header(&mut map, "bad key", "v");
    inject_header(&mut map, "", "v");
    inject_header(&mut map, "good", "bad\nvalue");
    assert!(map.is_empty());
    assert!(!is_valid_header_key("bad key"));
    assert!(is_valid_header_key("Good-Key"));
    assert!(is_valid_header_value("caf\u{e9}"));
    assert!(!is_valid_header_value("a\u{7f}"));
}

#[test]
fn request_sizes_add_up() {
    let head = head_with("http://example.com/abc", &[("content-length", b"10")]);
    // "/abc" + "GET" + "content-length" + "10" + "example.com" + 10
    assert_eq!(compute_approximate_request_size(&head), 4 + 3 + 14 + 2 + 11 + 10);
    assert_eq!(compute_approximate_request_body_size(&head), 10);
    assert_eq!(checked_approximate_request_size(&head), Some(44));
}

#[test]
fn content_length_that_is_no_number_counts_as_zero() {
    let head = head_with("/", &[("content-length", b"ten")]);
    assert_eq!(compute_approximate_request_body_size(&head), 0);
    assert_eq!(compute_approximate_request_size(&head), 1 + 3 + 14 + 3);
}

#[test]
fn unprintable_content_length_has_no_size() {
    let head = head_with("/", &[("content-length", b"\xff")]);
    assert_eq!(checked_approximate_request_size(&head), None);
    let mut map = HeaderMap::new();
    map.insert(HeaderName::from_static("content-length"), HeaderValue::from_bytes(b"\xff").unwrap());
    assert_eq!(checked_approximate_response_size(&map), None);
}

#[test]
fn oversized_content_length_has_no_size() {
    let head = head_with("/", &[("content-length", b"18446744073709551615")]);
    assert_eq!(compute_approximate_request_body_size(&head), usize::MAX);
    assert_eq!(checked_approximate_request_size(&head), None);
}

#[test]
fn response_sizes_add_up() {
    let mut map = HeaderMap::new();
    map.insert(HeaderName::from_static("content-length"), HeaderValue::from_static("+7"));
    map.insert(HeaderName::from_static("x"), HeaderValue::from_static("yz"));
    assert_eq!(compute_approximate_response_body_size(&map), 7);
    assert_eq!(compute_approximate_response_size(&map), 14 + 2 + 1 + 2 + 7);
}

#[test]
fn status_outcomes() {
    assert!(is_server_error(500));
    assert!(is_server_error(599));
    assert!(!is_server_error(499));
    assert!(!is_server_error(600));
    assert_eq!(otel_status_code(503), "ERROR");
    assert_eq!(otel_status_code(404), "OK");
    assert_eq!(status_code_text(204), "204");
    let fields = status_fields(503);
    assert_eq!(fields.status_code, "503");
    assert_eq!(fields.error_type, some("503"));
    assert_eq!(status_fields(200).error_type, None);
}

#[test]
fn trace_id_is_reported_for_valid_contexts_only() {
    assert_eq!(
        trace_id_from_ids(0x4bf92f3577b34da6a3ce929d0e0e4736, 0x00f067aa0ba902b7),
        some("4bf92f3577b34da6a3ce929d0e0e4736")
    );
    assert_eq!(trace_id_from_ids(1, 1), some("00000000000000000000000000000001"));
    assert_eq!(trace_id_from_ids(0, 1), None);
    assert_eq!(trace_id_from_ids(1, 0), None);
    assert_eq!(trace_id_from_ids(u128::MAX, 1), some("ffffffffffffffffffffffffffffffff"));
}

#[test]
fn reported_trace_id_reads_back_as_the_id() {
    let id: u128 = 0x0123456789abcdef0011223344556677;
    let text = trace_id_from_ids(id, 5).unwrap();
    assert_eq!(text.len(), 32);
    assert_eq!(u128::from_str_radix(&text, 16).unwrap(), id);
}

#[test]
fn no_current_span_has_no_trace_id() {
    assert_eq!(get_current_otel_trace_id(), None);
    assert_eq!(tower_otel::traces::get_current_otel_trace_id(), None);
    assert_eq!(tower_otel::traces::helper::get_current_otel_trace_id(), None);
}

#[test]
fn http_versions_are_named() {
    let head = RequestHead::from_request(&Request::builder().version(http::Version::HTTP_2).body(()).unwrap());
    assert_eq!(head.version, HttpVersion::Http2);
    assert_eq!(get_http_version(&head), Some("2"));
    assert_eq!(version_debug_text(HttpVersion::Http2), "HTTP/2.0");
    assert_eq!(version_number_text(HttpVersion::Http11), "1.1");
    assert_eq!(version_number_text(HttpVersion::Http09), "0.9");
}

#[test]
fn grpc_paths_name_service_and_method() {
    assert_eq!(extract_service_method("/pkg.Svc/Method"), ("pkg.Svc".to_string(), "Method".to_string()));
    assert_eq!(extract_service_method("//a//b/c"), ("a".to_string(), "b".to_string()));
    assert_eq!(extract_service_method("/only"), ("only".to_string(), String::new()));
    assert_eq!(extract_service_method(""), (String::new(), String::new()));
}

#[test]
fn reflection_service_is_not_traced() {
    assert!(is_reflection_service("grpc.reflection.v1.ServerReflection"));
    assert!(!is_reflection_service("grpc.reflection.v1.ServerReflectio"));
    let head = head_with("/grpc.reflection.v1.ServerReflection/ServerReflectionInfo", &[]);
    assert!(grpc_span_fields(&head, None, None).is_none());
    let head = head_with("/helloworld.Greeter/SayHello", &[]);
    let fields = grpc_span_fields(&head, Some(peer("10.0.0.1", 50051)), Some(peer("10.0.0.2", 4000))).unwrap();
    assert_eq!(fields.otel_name, "helloworld.Greeter/SayHello");
    assert_eq!(fields.server_address, some("10.0.0.1"));
    assert_eq!(fields.server_port, Some(50051));
    assert_eq!(fields.client_address, some("10.0.0.2"));
    assert_eq!(fields.client_port, Some(4000));
}

#[test]
fn http_server_span_names_method_and_route() {
    let head = head_with("http://example.com:8080/users/42?x=1", &[("user-agent", b"test-bot")]);
    let fields = http_server_span_fields(&head, some("/users/{id}"), Some(peer("127.0.0.1", 5000)));
    assert_eq!(fields.otel_name, "GET /users/{id}");
    assert_eq!(fields.route, "/users/{id}");
    assert_eq!(fields.url_path, "/users/42");
    assert_eq!(fields.url_query, some("x=1"));
    assert_eq!(fields.user_agent, some("test-bot"));
    assert_eq!(fields.server_address, some("example.com"));
    assert_eq!(fields.server_port, some("8080"));
    assert_eq!(fields.client_address, some("127.0.0.1"));
    assert_eq!(fields.client_port, some("5000"));
    let fields = http_server_span_fields(&head, None, None);
    assert_eq!(fields.otel_name, "GET /users/42");
    assert_eq!(fields.client_port, None);
}

#[test]
fn axum_server_span_fields_are_filled() {
    let head = head_with("/test_ok", &[("host", b"127.0.0.1:3000")]);
    let fields = axum_server_span_fields(
        &head,
        "/test_ok".to_string(),
        None,
        some("/test_ok"),
        Some(peer("127.0.0.1", 40000)),
        None,
    );
    assert_eq!(fields.otel_name, "GET /test_ok");
    assert_eq!(fields.protocol_version, "1.1");
    assert_eq!(fields.server_address, some("127.0.0.1"));
    assert_eq!(fields.server_port, Some(3000));
    assert_eq!(fields.client_port, Some(40000));
    assert_eq!(fields.user_agent, None);
}

#[test]
fn sized_server_span_fields_are_filled() {
    let head = head_with("/p?q=1", &[("user-agent", b"ua")]);
    let fields = sized_server_span_fields(&head, "/p".to_string(), some("q=1"), None, None);
    assert_eq!(fields.otel_name, "GET ");
    assert_eq!(fields.route, "");
    assert_eq!(fields.local_address, "unknown");
    assert_eq!(fields.local_port, 0);
    assert_eq!(fields.protocol_version, "HTTP/1.1");
    assert_eq!(fields.request_size, 2 + 3 + 10 + 2);
    assert_eq!(fields.request_body_size, 0);
}

#[test]
fn client_span_fields_are_filled() {
    let head = head_with("https://testdns.fr/", &[]);
    let fields = client_span_fields(&head, Some(peer("10.0.0.1", 1234)), Some(peer("1.1.1.1", 443)));
    assert_eq!(fields.otel_name, "GET https://testdns.fr");
    assert_eq!(fields.url_full, "https://testdns.fr/");
    assert_eq!(fields.peer_address, some("1.1.1.1"));
    assert_eq!(fields.server_port, Some(1234));
}

#[test]
fn metric_labels_carry_the_request_and_the_status() {
    let head = head_with("/x", &[]);
    let attributes = request_metric_attributes(&head, None);
    assert_eq!(attributes.server_address, "unknown");
    assert_eq!(attributes.route, "");
    assert_eq!(attributes.request_size, 2 + 3);
    let head = head_with("/x", &[("host", b"h")]);
    let attributes = request_metric_attributes(&head, some("/x"));
    assert_eq!(attributes.server_address, "h");
    let labels = metric_labels(&attributes, 404);
    assert_eq!(labels.status_code, "404");
    assert_eq!(labels.method, "GET");
    assert_eq!(labels.route, "/x");
}

#[test]
fn text_helpers() {
    assert_eq!(find_str("abcfor=x", "for="), Some(3));
    assert_eq!(find_str("ab", "abc"), None);
    assert_eq!(find_str("ab", ""), Some(0));
    assert_eq!(parse_host_string("h:+80", None), (some("h"), Some(80)));
    assert_eq!(parse_host_string("h:65536", None), (some("h"), None));
    assert_eq!(parse_host_string("h:", None), (some("h"), None));
    let head = head_with("/", &[("content-length", b"-1")]);
    assert_eq!(compute_approximate_request_body_size(&head), 0);
    assert!(str_equal("a", "a"));
    assert!(!str_equal("a", "b"));
    assert_eq!(status_code_text(65535), "65535");
}


#[test]
fn inject_header_sets_the_pair_when_there_is_room() {
    let mut map = HeaderMap::new();
    assert!(inject_header(&mut map, "TraceParent", "00-abc-01"));
    assert_eq!(header_text(&map, "traceparent"), some("00-abc-01"));
    assert!(inject_header(&mut map, "bad key", "v"));
    assert_eq!(map.keys_len(), 1);
}

#[test]
fn injected_fields_keep_the_other_headers() {
    let mut map = HeaderMap::new();
    map.insert(HeaderName::from_static("other"), HeaderValue::from_static("old"));
    map.insert(HeaderName::from_static("keep"), HeaderValue::from_static("k"));
    let fields = vec![
        ("TraceParent".to_string(), "v1".to_string()),
        ("bad key".to_string(), "x".to_string()),
        ("other".to_string(), "new".to_string()),
    ];
    tower_otel::headers::inject_fields(&mut map, &fields);
    assert_eq!(header_text(&map, "traceparent"), some("v1"));
    assert_eq!(header_text(&map, "other"), some("new"));
    assert_eq!(header_text(&map, "keep"), some("k"));
    assert_eq!(map.keys_len(), 3);
}

#[test]
fn user_agent_printability_is_tested() {
    let head = head_with("/", &[]);
    assert!(tower_otel::fields::user_agent_is_printable(&head));
    let head = head_with("/", &[("user-agent", b"test-bot")]);
    assert!(tower_otel::fields::user_agent_is_printable(&head));
    let head = head_with("/", &[("user-agent", b"caf\xc3\xa9")]);
    assert!(!tower_otel::fields::user_agent_is_printable(&head));
}

#[test]
fn forwarded_host_after_white_space_gives_the_server_address() {
    let head = head_with("/", &[("forwarded", b"for=192.0.2.60; host=203.0.113.43")]);
    assert_eq!(server_host_candidate(&head), some("203.0.113.43"));
    assert_eq!(
        extract_server_conn_info(&head, Some(("203.0.113.43".to_string(), 80))),
        (some("203.0.113.43"), Some(80))
    );
    assert_eq!(extract_server_conn_info(&head, None), (some("203.0.113.43"), None));
}

#[test]
fn client_url_is_written_as_given() {
    assert_eq!(tower_otel::fields::url_text(&head_with("https://testdns.fr", &[])), "https://testdns.fr");
    assert_eq!(tower_otel::fields::url_text(&head_with("https://testdns.fr/a?b", &[])), "https://testdns.fr/a?b");
    assert_eq!(tower_otel::fields::url_text(&head_with("/", &[])), "/");
}

#[test]
fn response_attributes_mirror_request_attributes() {
    let mut map = HeaderMap::new();
    map.insert(HeaderName::from_static("x-a"), HeaderValue::from_static("1"));
    map.insert(HeaderName::from_static("x-b"), HeaderValue::from_bytes(b"\xff").unwrap());
    let request = header_attribute_list(&map, "http.request.header.");
    let response = header_attribute_list(&map, "http.response.header.");
    assert_eq!(request, vec![("http.request.header.x-a".to_string(), "1".to_string())]);
    assert_eq!(response, vec![("http.response.header.x-a".to_string(), "1".to_string())]);
}

#[test]
fn fields_are_put_in_the_propagator_order() {
    let fields = vec![
        ("tracestate".to_string(), "s".to_string()),
        ("baggage".to_string(), "b".to_string()),
        ("traceparent".to_string(), "p".to_string()),
    ];
    let keys = vec!["traceparent".to_string(), "tracestate".to_string()];
    assert_eq!(
        tower_otel::headers::order_fields(&fields, &keys),
        vec![
            ("traceparent".to_string(), "p".to_string()),
            ("tracestate".to_string(), "s".to_string()),
            ("baggage".to_string(), "b".to_string()),
        ]
    );
}

#[test]
fn custom_attributes_are_owned_in_order() {
    let list = tower_otel::span::custom_attribute_list(&vec![("my_value", "here"), ("k", "v")]);
    assert_eq!(list, vec![("my_value".to_string(), "here".to_string()), ("k".to_string(), "v".to_string())]);
    assert!(tower_otel::span::custom_attribute_list(&vec![]).is_empty());
}

#[test]
fn http_response_records_name_server_errors() {
    let http_response_record_list = tower_otel::span::http_response_record_list;
    assert_eq!(
        http_response_record_list(503, true),
        vec![("http.response.status_code", "503".to_string()), ("error.type", "503".to_string())]
    );
    assert_eq!(http_response_record_list(503, false), vec![("http.response.status_code", "503".to_string())]);
    assert_eq!(http_response_record_list(200, true), vec![("http.response.status_code", "200".to_string())]);
}

#[test]
fn request_version_is_always_known() {
    let req = Request::builder().uri("/").body(()).unwrap();
    assert_ne!(RequestHead::from_request(&req).version, HttpVersion::Other);
}
