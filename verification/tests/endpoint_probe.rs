use codex_tz_launcher::http::{
    debugger_request, debugger_url_accepted, header_read_state, response_body_length,
    version_body_ok, HeaderRead,
};

#[test]
fn request_names_the_port() {
    assert_eq!(
        debugger_request(9341),
        "GET /json/version HTTP/1.1\r\nHost: 127.0.0.1:9341\r\nConnection: close\r\n\r\n"
    );
    assert_eq!(
        debugger_request(0),
        "GET /json/version HTTP/1.1\r\nHost: 127.0.0.1:0\r\nConnection: close\r\n\r\n"
    );
}

#[test]
fn header_reading_stops_at_blank_line_or_limit() {
    assert_eq!(header_read_state(b"HTTP/1.1 200 OK\r\n\r\n"), HeaderRead::Complete);
    assert_eq!(header_read_state(b"HTTP/1.1 200 OK\r\n"), HeaderRead::NeedMore);
    assert_eq!(header_read_state(b""), HeaderRead::NeedMore);
    assert_eq!(header_read_state(&vec![b'a'; 8191]), HeaderRead::NeedMore);
    assert_eq!(header_read_state(&vec![b'a'; 8192]), HeaderRead::TooLong);
}

#[test]
fn header_with_length_is_accepted() {
    assert_eq!(response_body_length(b"HTTP/1.1 200 OK\r\nContent-Length:64\r\n\r\n"), Some(64));
    assert_eq!(response_body_length(b"HTTP/1.0 200 OK\r\ncontent-length:  +12 \r\n\r\n"), Some(12));
    assert_eq!(
        response_body_length(b"HTTP/1.1 200 OK\r\nX-Other: 1\r\nCONTENT-LENGTH: 65536\r\n\r\n"),
        Some(65536)
    );
}

#[test]
fn header_refusals() {
    assert_eq!(response_body_length(b"HTTP/1.1 404 Not Found\r\nContent-Length: 5\r\n\r\n"), None);
    assert_eq!(response_body_length(b"HTTP/1.1 200 OK\r\n\r\n"), None);
    assert_eq!(response_body_length(b"HTTP/1.1 200 OK\r\nContent-Length: 0\r\n\r\n"), None);
    assert_eq!(response_body_length(b"HTTP/1.1 200 OK\r\nContent-Length: 65537\r\n\r\n"), None);
    assert_eq!(response_body_length(b"HTTP/1.1 200 OK\r\nContent-Length: 5\r\nContent-Length: 5\r\n\r\n"), None);
    assert_eq!(
        response_body_length(b"HTTP/1.1 200 OK\r\nTransfer-Encoding: chunked\r\nContent-Length: 5\r\n\r\n"),
        None
    );
    assert_eq!(response_body_length(b"HTTP/1.1 200 OK\r\nContent-Length: -5\r\n\r\n"), None);
    assert_eq!(response_body_length(b"HTTP/1.1 200 OK\r\nContent-Length: 99999999999999999999999\r\n\r\n"), None);
    assert_eq!(response_body_length(b"HTTP/1.1 200 OK\r\nContent-Length: 5\xff\r\n\r\n"), None);
    assert_eq!(response_body_length(b"HTTP/1.1 200OK\r\nContent-Length: 5\r\n\r\n"), None);
}

#[test]
fn unicode_white_space_is_trimmed_from_the_length() {
    assert_eq!(
        response_body_length("HTTP/1.1 200 OK\r\nContent-Length:\u{3000}7\u{a0}\r\n\r\n".as_bytes()),
        Some(7)
    );
}

#[test]
fn debugger_urls_must_be_local_and_on_the_port() {
    assert!(debugger_url_accepted("ws://127.0.0.1:9222/devtools/browser/x", 9222));
    assert!(debugger_url_accepted("ws://localhost:9222/", 9222));
    assert!(debugger_url_accepted("ws://[::1]:9222/devtools", 9222));
    assert!(!debugger_url_accepted("ws://127.0.0.1:9223/devtools", 9222));
    assert!(!debugger_url_accepted("ws://example.invalid:9222/devtools/browser/test", 9222));
    assert!(!debugger_url_accepted("ws://127.0.0.1:92220/", 9222));
}

#[test]
fn version_document_is_checked() {
    let port = 41234;
    let valid = format!("{{\"webSocketDebuggerUrl\":\"ws://127.0.0.1:{port}/devtools/browser/test\"}}");
    let invalid = format!("{{\"webSocketDebuggerUrl\":\"ws://example.invalid:{port}/devtools/browser/test\"}}");
    assert!(version_body_ok(valid.as_bytes(), port));
    assert!(!version_body_ok(invalid.as_bytes(), port));
    assert!(!version_body_ok(b"not json", port));
    assert!(!version_body_ok(b"{\"webSocketDebuggerUrl\":5}", port));
}

/// The reply of a service on the port, as the probe reads it: the header up
/// to the blank line, then the announced body.
fn probe(reply: &[u8], port: u16) -> bool {
    let mut header = Vec::new();
    let mut rest = reply.iter();
    loop {
        match header_read_state(&header) {
            HeaderRead::Complete => break,
            HeaderRead::TooLong => return false,
            HeaderRead::NeedMore => match rest.next() {
                Some(b) => header.push(*b),
                None => return false,
            },
        }
    }
    let length = match response_body_length(&header) {
        Some(n) => n,
        None => return false,
    };
    let body: Vec<u8> = rest.take(length).copied().collect();
    body.len() == length && version_body_ok(&body, port)
}

// The reply a local service sends is checked byte for byte by the library's
// header and body rules; the socket that carries it is the caller's part.
#[test]
fn debugger_endpoint_rejects_unrelated_http_service() {
    for valid in [false, true] {
        let port: u16 = 40111;
        let host = if valid { "127.0.0.1" } else { "example.invalid" };
        let body = format!("{{\"webSocketDebuggerUrl\":\"ws://{host}:{port}/devtools/browser/test\"}}");
        let reply = format!("HTTP/1.1 200 OK\r\nContent-Length:{}\r\n\r\n{body}", body.len());
        assert!(debugger_request(port).ends_with("\r\n\r\n"));
        assert_eq!(probe(reply.as_bytes(), port), valid);
    }
}
