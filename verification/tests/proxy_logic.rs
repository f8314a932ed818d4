use wispers_connect::http_parse::{RawHeader, RawRequest};
use wispers_connect::proxy::{
    build_http_request, check_forward_reply, error_response, forward_command, parse_proxy_target,
    parse_request, parse_wispers_host, reply_verdict, request_from_raw, status_text, ProxyError,
};

fn owned_headers(r: &wispers_connect::proxy::ParsedRequest) -> Vec<(String, String)> {
    r.headers.clone()
}

fn pair(a: &str, b: &str) -> (String, String) {
    (a.to_string(), b.to_string())
}

#[test]
fn target_round_trip_with_port_and_no_path() {
    let t = parse_proxy_target("http://12.wispers.link:8080").unwrap();
    assert_eq!(t.node_number, 12);
    assert_eq!(t.port, 8080);
    assert_eq!(t.path, "/");
}

#[test]
fn target_largest_node_number() {
    let t = parse_proxy_target("http://2147483647.wispers.link/x").unwrap();
    assert_eq!(t.node_number, 2147483647);
    let err = parse_proxy_target("http://2147483648.wispers.link/x").unwrap_err();
    assert_eq!(err.status_code(), 400);
    assert_eq!(
        err.message(),
        "invalid node number in hostname: 2147483648.wispers.link"
    );
}

#[test]
fn target_invalid_port() {
    let err = parse_proxy_target("http://3.wispers.link:99999/").unwrap_err();
    assert_eq!(err.status_code(), 400);
    assert_eq!(err.message(), "invalid port: 99999");
    let err = parse_proxy_target("http://3.wispers.link:/").unwrap_err();
    assert_eq!(err.message(), "invalid port: ");
    let err = parse_proxy_target("http://3.wispers.link:8o/").unwrap_err();
    assert_eq!(err.message(), "invalid port: 8o");
}

#[test]
fn target_numbers_may_carry_a_plus_sign() {
    // Rust's integer parsing accepts a leading `+`, and so does the proxy.
    let t = parse_proxy_target("http://+3.wispers.link:+80/").unwrap();
    assert_eq!(t.node_number, 3);
    assert_eq!(t.port, 80);
}

#[test]
fn target_error_messages() {
    let err = parse_proxy_target("ftp://3.wispers.link/").unwrap_err();
    assert_eq!(
        err.message(),
        "proxy requests must use absolute URLs (http://...)"
    );
    let err = parse_proxy_target("http://example.com:8080/a").unwrap_err();
    assert_eq!(err.status_code(), 403);
    assert_eq!(
        err.message(),
        "only *.wispers.link hosts are allowed, got: example.com"
    );
}

#[test]
fn wispers_host_cases() {
    assert_eq!(parse_wispers_host("9.wispers.link").unwrap().node_number, 9);
    assert!(matches!(parse_wispers_host("wispers.link"), Err(None)));
    assert!(matches!(parse_wispers_host("9.example.org"), Err(None)));
    match parse_wispers_host("x.wispers.link") {
        Err(Some(e)) => assert_eq!(e.status_code(), 400),
        _ => panic!("expected a bad request"),
    }
}

#[test]
fn parse_request_keeps_client_host_and_drops_connection() {
    let buf = b"GET http://3.wispers.link/x?y=1 HTTP/1.1\r\nHost: 3.wispers.link\r\nConnection: close\r\nUser-Agent: a\r\n\r\n";
    let r = parse_request(buf).unwrap();
    assert_eq!(r.method, "GET");
    assert_eq!(r.version, 1);
    assert!(!r.keep_alive);
    assert_eq!(r.target.node_number, 3);
    assert_eq!(r.target.path, "/x?y=1");
    assert_eq!(
        owned_headers(&r),
        vec![pair("Host", "3.wispers.link"), pair("User-Agent", "a")]
    );
}

#[test]
fn parse_request_http11_keeps_alive_by_default() {
    let buf = b"GET http://3.wispers.link/ HTTP/1.1\r\nAccept: */*\r\n\r\n";
    let r = parse_request(buf).unwrap();
    assert!(r.keep_alive);
    assert_eq!(
        owned_headers(&r),
        vec![pair("Accept", "*/*"), pair("Host", "3.wispers.link")]
    );
}

#[test]
fn parse_request_http10_closes_unless_asked() {
    let r = parse_request(b"GET http://4.wispers.link:8080/ HTTP/1.0\r\n\r\n").unwrap();
    assert_eq!(r.version, 0);
    assert!(!r.keep_alive);
    assert_eq!(owned_headers(&r), vec![pair("Host", "4.wispers.link:8080")]);

    let r = parse_request(b"GET http://4.wispers.link/ HTTP/1.0\r\nCONNECTION: Keep-Alive\r\n\r\n")
        .unwrap();
    assert!(r.keep_alive);
    assert_eq!(owned_headers(&r), vec![pair("Host", "4.wispers.link")]);
}

#[test]
fn parse_request_drops_hop_by_hop_headers() {
    let buf = b"POST http://2.wispers.link/u HTTP/1.1\r\nTransfer-Encoding: chunked\r\nUpgrade: h2c\r\nTE: trailers\r\nProxy-Authorization: x\r\nKeep-Alive: 5\r\nContent-Type: text/plain\r\nhost: 2.wispers.link\r\n\r\n";
    let r = parse_request(buf).unwrap();
    assert_eq!(
        owned_headers(&r),
        vec![pair("Content-Type", "text/plain"), pair("host", "2.wispers.link")]
    );
}

#[test]
fn parse_request_decodes_invalid_utf8_lossily() {
    let buf = b"GET http://2.wispers.link/ HTTP/1.1\r\nX-Data: a\xffb\r\nHost: h\r\n\r\n";
    let r = parse_request(buf).unwrap();
    assert_eq!(
        owned_headers(&r),
        vec![pair("X-Data", "a\u{FFFD}b"), pair("Host", "h")]
    );
}

#[test]
fn parse_request_errors() {
    let err = parse_request(b"GET http://3.wispers.link/ HTTP/1.1\r\nHost: x\r\n").unwrap_err();
    assert_eq!(err.status_code(), 400);
    assert_eq!(err.message(), "incomplete HTTP request");

    let err = parse_request(b"GET / HTTP/1.1\r\n\r\n").unwrap_err();
    assert_eq!(err.status_code(), 400);
    assert_eq!(
        err.message(),
        "proxy requests must use absolute URLs (http://...)"
    );

    let err = parse_request(b"GET http://example.com/ HTTP/1.1\r\n\r\n").unwrap_err();
    assert_eq!(err.status_code(), 403);

    let err = parse_request(b"GET http://3.wispers.link/ HTTP/9.9\r\n\r\n").unwrap_err();
    assert_eq!(err.status_code(), 400);
    assert!(err.message().starts_with("failed to parse HTTP request: "));
}

#[test]
fn request_from_raw_reports_missing_parts() {
    let raw = RawRequest {
        method: None,
        path: Some("http://1.wispers.link/".to_string()),
        version: Some(1),
        headers: vec![],
    };
    assert_eq!(request_from_raw(raw).unwrap_err().message(), "missing method");
    let raw = RawRequest {
        method: Some("GET".to_string()),
        path: None,
        version: Some(1),
        headers: vec![],
    };
    assert_eq!(request_from_raw(raw).unwrap_err().message(), "missing path");
    let raw = RawRequest {
        method: Some("GET".to_string()),
        path: Some("http://1.wispers.link/".to_string()),
        version: None,
        headers: vec![],
    };
    assert_eq!(request_from_raw(raw).unwrap_err().message(), "missing version");
}

#[test]
fn request_from_raw_last_connection_header_decides() {
    let raw = RawRequest {
        method: Some("GET".to_string()),
        path: Some("http://1.wispers.link/".to_string()),
        version: Some(0),
        headers: vec![
            RawHeader { name: "Connection".to_string(), value: b"keep-alive".to_vec() },
            RawHeader { name: "Connection".to_string(), value: b"close".to_vec() },
        ],
    };
    let r = request_from_raw(raw).unwrap();
    assert!(!r.keep_alive);
    assert_eq!(owned_headers(&r), vec![pair("Host", "1.wispers.link")]);
}

#[test]
fn request_text_round_trip_through_parse() {
    let buf = b"PUT http://6.wispers.link:81/k HTTP/1.1\r\nA: 1\r\n\r\n";
    let r = parse_request(buf).unwrap();
    assert_eq!(
        build_http_request(&r),
        "PUT /k HTTP/1.1\r\nA: 1\r\nHost: 6.wispers.link:81\r\n\r\n"
    );
}

#[test]
fn error_response_texts() {
    assert_eq!(
        error_response(404, "nope"),
        "HTTP/1.1 404 Error\r\nContent-Type: text/plain\r\nConnection: close\r\n\r\nnope\n"
    );
    let e = ProxyError::Forbidden("only here".to_string());
    assert_eq!(
        e.response(),
        "HTTP/1.1 403 Forbidden\r\nContent-Type: text/plain\r\nConnection: close\r\n\r\nonly here\n"
    );
    assert_eq!(ProxyError::BadGateway(String::new()).status_code(), 502);
    assert_eq!(ProxyError::GatewayTimeout(String::new()).status_code(), 504);
}

#[test]
fn status_texts() {
    assert_eq!(status_text(400), "Bad Request");
    assert_eq!(status_text(403), "Forbidden");
    assert_eq!(status_text(502), "Bad Gateway");
    assert_eq!(status_text(504), "Gateway Timeout");
    assert_eq!(status_text(200), "Error");
}

#[test]
fn forward_command_text() {
    assert_eq!(forward_command(8080), "FORWARD 8080\n");
    assert_eq!(forward_command(0), "FORWARD 0\n");
}

#[test]
fn forward_reply_cases() {
    assert!(check_forward_reply(b"OK\n").is_ok());
    assert!(check_forward_reply(b"  OK \r\n").is_ok());
    let e = check_forward_reply(b"ERROR no such port\n").unwrap_err();
    assert_eq!(e.status_code(), 502);
    assert_eq!(e.message(), "Remote error: no such port");
    let e = check_forward_reply(b"NOPE").unwrap_err();
    assert_eq!(e.message(), "Unexpected response: NOPE");
    let e = check_forward_reply(b"\xffOK").unwrap_err();
    assert_eq!(e.message(), "Unexpected response: \u{FFFD}OK");
    let e = check_forward_reply(b"").unwrap_err();
    assert_eq!(e.message(), "Unexpected response: ");
}

#[test]
fn reply_verdict_cases() {
    assert!(reply_verdict("OK").is_ok());
    assert_eq!(reply_verdict("ERROR ").unwrap_err().message(), "Remote error: ");
    assert_eq!(reply_verdict("ok").unwrap_err().message(), "Unexpected response: ok");
}

#[test]
fn forward_reply_trims_unicode_white_space() {
    assert!(check_forward_reply("\u{3000}OK\u{a0}\t".as_bytes()).is_ok());
    let e = check_forward_reply("\u{2003}ERROR busy \u{85}".as_bytes()).unwrap_err();
    assert_eq!(e.message(), "Remote error: busy");
}
