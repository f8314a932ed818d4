use wispers_connect::proxy::{
    build_http_request, is_hop_by_hop_header, parse_proxy_target, ParsedRequest, ProxyTarget,
};

#[test]
fn test_parse_proxy_target_basic() {
    let target = parse_proxy_target("http://3.wispers.link/").unwrap();
    assert_eq!(target.node_number, 3);
    assert_eq!(target.port, 80);
    assert_eq!(target.path, "/");
}

#[test]
fn test_parse_proxy_target_with_path() {
    let target = parse_proxy_target("http://42.wispers.link/api/v1/users").unwrap();
    assert_eq!(target.node_number, 42);
    assert_eq!(target.port, 80);
    assert_eq!(target.path, "/api/v1/users");
}

#[test]
fn test_parse_proxy_target_with_port() {
    let target = parse_proxy_target("http://5.wispers.link:8080/test").unwrap();
    assert_eq!(target.node_number, 5);
    assert_eq!(target.port, 8080);
    assert_eq!(target.path, "/test");
}

#[test]
fn test_parse_proxy_target_with_query() {
    let target = parse_proxy_target("http://1.wispers.link/search?q=test&page=2").unwrap();
    assert_eq!(target.node_number, 1);
    assert_eq!(target.port, 80);
    assert_eq!(target.path, "/search?q=test&page=2");
}

#[test]
fn test_parse_proxy_target_no_path() {
    let target = parse_proxy_target("http://7.wispers.link").unwrap();
    assert_eq!(target.node_number, 7);
    assert_eq!(target.port, 80);
    assert_eq!(target.path, "/");
}

#[test]
fn test_parse_proxy_target_invalid_no_http() {
    // HTTPS and relative paths should return 400 Bad Request
    let err = parse_proxy_target("https://3.wispers.link/").unwrap_err();
    assert_eq!(err.status_code(), 400);

    let err = parse_proxy_target("/path").unwrap_err();
    assert_eq!(err.status_code(), 400);
}

#[test]
fn test_parse_proxy_target_forbidden_hostname() {
    // Non-wispers.link hosts should return 403 Forbidden
    let err = parse_proxy_target("http://example.com/").unwrap_err();
    assert_eq!(err.status_code(), 403);

    let err = parse_proxy_target("http://google.com/").unwrap_err();
    assert_eq!(err.status_code(), 403);
}

#[test]
fn test_parse_proxy_target_invalid_node_number() {
    // Invalid node numbers in wispers.link should return 400
    let err = parse_proxy_target("http://abc.wispers.link/").unwrap_err();
    assert_eq!(err.status_code(), 400);

    let err = parse_proxy_target("http://0.wispers.link/").unwrap_err();
    assert_eq!(err.status_code(), 400);

    let err = parse_proxy_target("http://-1.wispers.link/").unwrap_err();
    assert_eq!(err.status_code(), 400);
}

#[test]
fn test_hop_by_hop_headers() {
    assert!(is_hop_by_hop_header("connection"));
    assert!(is_hop_by_hop_header("keep-alive"));
    assert!(is_hop_by_hop_header("transfer-encoding"));
    assert!(!is_hop_by_hop_header("content-type"));
    assert!(!is_hop_by_hop_header("host"));
}

#[test]
fn test_build_http_request() {
    let request = ParsedRequest {
        target: ProxyTarget {
            node_number: 3,
            port: 80,
            path: "/api/test".to_string(),
        },
        method: "GET".to_string(),
        version: 1,
        headers: vec![
            ("Host".to_string(), "3.wispers.link".to_string()),
            ("User-Agent".to_string(), "test/1.0".to_string()),
        ],
        keep_alive: true,
    };

    let http = build_http_request(&request);
    assert_eq!(
        http,
        "GET /api/test HTTP/1.1\r\nHost: 3.wispers.link\r\nUser-Agent: test/1.0\r\n\r\n"
    );
}

#[test]
fn test_build_http_request_http10() {
    let request = ParsedRequest {
        target: ProxyTarget {
            node_number: 5,
            port: 8080,
            path: "/".to_string(),
        },
        method: "POST".to_string(),
        version: 0,
        headers: vec![("Host".to_string(), "5.wispers.link:8080".to_string())],
        keep_alive: false,
    };

    let http = build_http_request(&request);
    assert!(http.starts_with("POST / HTTP/1.0\r\n"));
}
