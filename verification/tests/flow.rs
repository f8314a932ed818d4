use wispers_connect::flow::{
    contains_head_end, ConnectOutcome, ConnectionFlow, FlowAction, FlowPhase, ForwardOutcome,
    ReadOutcome, ReadStep, RequestReader, MAX_REQUEST_BYTES,
};
use wispers_connect::proxy::ProxyError;

#[test]
fn head_end_detection() {
    assert!(contains_head_end(&b"GET / HTTP/1.1\r\n\r\n".to_vec()));
    assert!(contains_head_end(&b"\r\n\r\nrest".to_vec()));
    assert!(!contains_head_end(&b"GET / HTTP/1.1\r\n".to_vec()));
    assert!(!contains_head_end(&b"\r\n\r".to_vec()));
    assert!(!contains_head_end(&Vec::new()));
}

#[test]
fn reader_completes_a_head_split_over_reads() {
    let mut r = RequestReader::new();
    assert_eq!(r.room(), MAX_REQUEST_BYTES);
    let first = b"GET http://3.wispers.link/ HTTP/1.1\r\n\r";
    match r.accept(first) {
        ReadStep::NeedMore => {}
        other => panic!("unexpected step {:?}", other),
    }
    assert_eq!(r.room(), MAX_REQUEST_BYTES - first.len());
    match r.accept(b"\n") {
        ReadStep::Complete(bytes) => {
            assert_eq!(bytes, b"GET http://3.wispers.link/ HTTP/1.1\r\n\r\n".to_vec());
        }
        other => panic!("unexpected step {:?}", other),
    }
    assert_eq!(r.room(), MAX_REQUEST_BYTES);
}

#[test]
fn reader_reports_a_close_before_anything() {
    let mut r = RequestReader::new();
    assert!(matches!(r.accept(b""), ReadStep::Closed));
}

#[test]
fn reader_reports_a_close_mid_request() {
    let mut r = RequestReader::new();
    assert!(matches!(r.accept(b"GET"), ReadStep::NeedMore));
    match r.accept(b"") {
        ReadStep::Failed(e) => {
            assert_eq!(e.status_code(), 400);
            assert_eq!(e.message(), "connection closed before complete request");
        }
        other => panic!("unexpected step {:?}", other),
    }
}

#[test]
fn reader_refuses_an_oversized_head() {
    let mut r = RequestReader::new();
    let big = vec![b'a'; MAX_REQUEST_BYTES - 1];
    assert!(matches!(r.accept(&big), ReadStep::NeedMore));
    assert_eq!(r.room(), 1);
    match r.accept(b"a") {
        ReadStep::Failed(e) => assert_eq!(e.message(), "request too large"),
        other => panic!("unexpected step {:?}", other),
    }
}

#[test]
fn reader_accepts_a_head_that_fills_the_limit() {
    let mut r = RequestReader::new();
    let mut big = vec![b'a'; MAX_REQUEST_BYTES - 4];
    big.extend_from_slice(b"\r\n\r\n");
    match r.accept(&big) {
        ReadStep::Complete(bytes) => assert_eq!(bytes.len(), MAX_REQUEST_BYTES),
        other => panic!("unexpected step {:?}", other),
    }
}

fn request_bytes(keep_alive: bool) -> Vec<u8> {
    if keep_alive {
        b"GET http://3.wispers.link/ HTTP/1.1\r\n\r\n".to_vec()
    } else {
        b"GET http://3.wispers.link/ HTTP/1.1\r\nConnection: close\r\n\r\n".to_vec()
    }
}

#[test]
fn flow_serves_keep_alive_requests_until_the_client_closes() {
    let mut f = ConnectionFlow::new();
    assert_eq!(f.phase, FlowPhase::Reading);
    match f.on_read(ReadOutcome::Data(request_bytes(true))) {
        FlowAction::Connect(req) => assert_eq!(req.target.node_number, 3),
        other => panic!("unexpected action {:?}", other),
    }
    assert_eq!(f.requests, 1);
    assert_eq!(f.phase, FlowPhase::Connecting);
    assert!(matches!(f.on_connect(ConnectOutcome::Connected), FlowAction::Forward));
    assert_eq!(f.phase, FlowPhase::Forwarding);
    assert!(matches!(f.on_forward(ForwardOutcome::Done), FlowAction::ReadNext));
    assert_eq!(f.phase, FlowPhase::Reading);
    assert!(matches!(
        f.on_read(ReadOutcome::Data(request_bytes(true))),
        FlowAction::Connect(_)
    ));
    assert_eq!(f.requests, 2);
    assert!(matches!(f.on_connect(ConnectOutcome::Connected), FlowAction::Forward));
    assert!(matches!(f.on_forward(ForwardOutcome::Done), FlowAction::ReadNext));
    assert!(matches!(f.on_read(ReadOutcome::ClientClosed), FlowAction::Close));
    assert_eq!(f.phase, FlowPhase::Closed);
    assert_eq!(f.requests, 2);
}

#[test]
fn flow_closes_after_a_request_without_keep_alive() {
    let mut f = ConnectionFlow::new();
    assert!(matches!(
        f.on_read(ReadOutcome::Data(request_bytes(false))),
        FlowAction::Connect(_)
    ));
    assert!(!f.keep_alive);
    assert!(matches!(f.on_connect(ConnectOutcome::Connected), FlowAction::Forward));
    assert!(matches!(f.on_forward(ForwardOutcome::Done), FlowAction::Close));
    assert_eq!(f.phase, FlowPhase::Closed);
}

#[test]
fn flow_answers_a_failed_first_read_only() {
    let mut f = ConnectionFlow::new();
    match f.on_read(ReadOutcome::Failed(ProxyError::BadRequest("request too large".to_string()))) {
        FlowAction::Respond(e) => assert_eq!(e.message(), "request too large"),
        other => panic!("unexpected action {:?}", other),
    }
    assert_eq!(f.phase, FlowPhase::Closed);

    let mut f = ConnectionFlow::new();
    assert!(matches!(
        f.on_read(ReadOutcome::Data(request_bytes(true))),
        FlowAction::Connect(_)
    ));
    f.on_connect(ConnectOutcome::Connected);
    f.on_forward(ForwardOutcome::Done);
    assert!(matches!(
        f.on_read(ReadOutcome::Failed(ProxyError::BadRequest("x".to_string()))),
        FlowAction::Close
    ));
}

#[test]
fn flow_answers_a_malformed_request() {
    let mut f = ConnectionFlow::new();
    match f.on_read(ReadOutcome::Data(b"GET http://example.com/ HTTP/1.1\r\n\r\n".to_vec())) {
        FlowAction::Respond(e) => assert_eq!(e.status_code(), 403),
        other => panic!("unexpected action {:?}", other),
    }
    assert_eq!(f.requests, 0);
    assert_eq!(f.phase, FlowPhase::Closed);
}

#[test]
fn flow_answers_connection_failures() {
    let mut f = ConnectionFlow::new();
    f.on_read(ReadOutcome::Data(request_bytes(true)));
    match f.on_connect(ConnectOutcome::Failed("no route".to_string())) {
        FlowAction::Respond(e) => {
            assert_eq!(e.status_code(), 502);
            assert_eq!(e.message(), "failed to connect to node: no route");
        }
        other => panic!("unexpected action {:?}", other),
    }
    let mut f = ConnectionFlow::new();
    f.on_read(ReadOutcome::Data(request_bytes(true)));
    match f.on_connect(ConnectOutcome::TimedOut) {
        FlowAction::Respond(e) => {
            assert_eq!(e.status_code(), 504);
            assert_eq!(e.message(), "connection to node timed out");
        }
        other => panic!("unexpected action {:?}", other),
    }
}

#[test]
fn flow_handles_forward_failures() {
    let mut f = ConnectionFlow::new();
    f.on_read(ReadOutcome::Data(request_bytes(true)));
    f.on_connect(ConnectOutcome::Connected);
    match f.on_forward(ForwardOutcome::TimedOut) {
        FlowAction::RespondQuietly(e) => {
            assert_eq!(e.status_code(), 504);
            assert_eq!(e.message(), "request timed out");
        }
        other => panic!("unexpected action {:?}", other),
    }
    let mut f = ConnectionFlow::new();
    f.on_read(ReadOutcome::Data(request_bytes(true)));
    f.on_connect(ConnectOutcome::Connected);
    assert!(matches!(f.on_forward(ForwardOutcome::Failed), FlowAction::Close));
    assert_eq!(f.phase, FlowPhase::Closed);
}
