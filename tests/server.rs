use http_server::bytes::{contains_bytes, parse_usize, push_decimal, token_at, trim_line_ending};
use http_server::request::{decode_head, find_content_length, is_blank_line, DecodeError, Request};
use http_server::response::{ContentType, StatusLine};
use http_server::router::{
    file_read_response, file_write_response, generate_response, handle_user_agent, path_to_status_line,
    resolve_path, Action,
};

fn request(line: &str, headers: &[&str], body: &[u8]) -> Request {
    Request {
        request_line: line.as_bytes().to_vec(),
        headers: headers.iter().map(|h| h.as_bytes().to_vec()).collect(),
        body: body.to_vec(),
    }
}

fn reply(action: Action) -> Vec<u8> {
    match action {
        Action::Respond(s) => s.get_message(),
        other => panic!("expected a response, got {:?}", other),
    }
}

fn lines(raw: &[&str]) -> Vec<Vec<u8>> {
    raw.iter().map(|l| l.as_bytes().to_vec()).collect()
}

#[test]
fn root_is_bare_ok() {
    let r = request("GET / HTTP/1.1", &["Host: localhost:4221"], b"");
    assert_eq!(reply(generate_response(&r)), b"HTTP/1.1 200 OK\r\n\r\n".to_vec());
    let r = request("POST / HTTP/1.1", &[], b"xyz");
    assert_eq!(reply(generate_response(&r)), b"HTTP/1.1 200 OK\r\n\r\n".to_vec());
}

#[test]
fn echo_returns_segment() {
    let r = request("GET /echo/abc HTTP/1.1", &[], b"");
    assert_eq!(
        reply(generate_response(&r)),
        b"HTTP/1.1 200 OK\r\nContent-Type: text/plain\r\nContent-Length: 3\r\n\r\nabc".to_vec()
    );
}

#[test]
fn echo_counts_bytes_not_chars() {
    let r = request("GET /echo/h\u{e9}llo HTTP/1.1", &[], b"");
    let mut expected = b"HTTP/1.1 200 OK\r\nContent-Type: text/plain\r\nContent-Length: 6\r\n\r\n".to_vec();
    expected.extend_from_slice("h\u{e9}llo".as_bytes());
    assert_eq!(reply(generate_response(&r)), expected);
}

#[test]
fn echo_empty_and_long_segments() {
    let r = request("GET /echo/ HTTP/1.1", &[], b"");
    assert_eq!(
        reply(generate_response(&r)),
        b"HTTP/1.1 200 OK\r\nContent-Type: text/plain\r\nContent-Length: 0\r\n\r\n".to_vec()
    );
    let s = "a".repeat(1234);
    let r = request(&format!("GET /echo/{} HTTP/1.1", s), &[], b"");
    let expected = format!("HTTP/1.1 200 OK\r\nContent-Type: text/plain\r\nContent-Length: 1234\r\n\r\n{}", s);
    assert_eq!(reply(generate_response(&r)), expected.into_bytes());
}

#[test]
fn echo_keeps_slashes_and_percent_signs() {
    let r = request("GET /echo/a/b%20c HTTP/1.1", &[], b"");
    assert_eq!(
        reply(generate_response(&r)),
        b"HTTP/1.1 200 OK\r\nContent-Type: text/plain\r\nContent-Length: 7\r\n\r\na/b%20c".to_vec()
    );
}

#[test]
fn user_agent_is_reflected() {
    let r = request(
        "GET /user-agent HTTP/1.1",
        &["Host: localhost:4221", "User-Agent: curl/7.81.0", "Accept: */*"],
        b"",
    );
    assert_eq!(
        reply(generate_response(&r)),
        b"HTTP/1.1 200 OK\r\nContent-Type: text/plain\r\nContent-Length: 11\r\n\r\ncurl/7.81.0".to_vec()
    );
}

#[test]
fn user_agent_without_space() {
    let s = handle_user_agent(&lines(&["User-Agent:agent/1"]));
    assert_eq!(
        s.get_message(),
        b"HTTP/1.1 200 OK\r\nContent-Type: text/plain\r\nContent-Length: 7\r\n\r\nagent/1".to_vec()
    );
}

#[test]
fn user_agent_strips_one_space_only() {
    let s = handle_user_agent(&lines(&["User-Agent:  two"]));
    assert_eq!(
        s.get_message(),
        b"HTTP/1.1 200 OK\r\nContent-Type: text/plain\r\nContent-Length: 4\r\n\r\n two".to_vec()
    );
}

#[test]
fn user_agent_missing_is_not_found() {
    let r = request("GET /user-agent HTTP/1.1", &["Host: localhost:4221"], b"");
    assert_eq!(reply(generate_response(&r)), b"HTTP/1.1 404 Not Found\r\n\r\n".to_vec());
}

#[test]
fn user_agent_mentioned_mid_line_has_no_body() {
    let s = handle_user_agent(&lines(&["X-User-Agent: other"]));
    assert_eq!(s.get_message(), b"HTTP/1.1 200 OK\r\nContent-Type: text/plain\r\n\r\n".to_vec());
}

#[test]
fn user_agent_route_matches_substring() {
    let r = request("GET /api/user-agent/x HTTP/1.1", &["User-Agent: ua"], b"");
    assert_eq!(
        reply(path_to_status_line(b"/api/user-agent/x", &r)),
        b"HTTP/1.1 200 OK\r\nContent-Type: text/plain\r\nContent-Length: 2\r\n\r\nua".to_vec()
    );
}

#[test]
fn unknown_path_is_not_found() {
    let r = request("GET /nope HTTP/1.1", &[], b"");
    assert_eq!(reply(generate_response(&r)), b"HTTP/1.1 404 Not Found\r\n\r\n".to_vec());
}

#[test]
fn request_line_without_target_is_not_found() {
    let r = request("GET", &[], b"");
    assert_eq!(reply(generate_response(&r)), b"HTTP/1.1 404 Not Found\r\n\r\n".to_vec());
}

#[test]
fn files_get_reads_the_named_file() {
    let r = request("GET /files/notes.txt HTTP/1.1", &[], b"");
    match generate_response(&r) {
        Action::ReadFile(p) => assert_eq!(p, b"notes.txt".to_vec()),
        other => panic!("unexpected {:?}", other),
    }
}

#[test]
fn files_post_writes_the_body() {
    let r = request("POST /files/new.bin HTTP/1.1", &["Content-Length: 4"], b"data");
    match generate_response(&r) {
        Action::WriteFile(p, b) => {
            assert_eq!(p, b"new.bin".to_vec());
            assert_eq!(b, b"data".to_vec());
        }
        other => panic!("unexpected {:?}", other),
    }
}

#[test]
fn files_other_method_is_not_found() {
    let r = request("PUT /files/x HTTP/1.1", &[], b"");
    assert_eq!(reply(generate_response(&r)), b"HTTP/1.1 404 Not Found\r\n\r\n".to_vec());
}

#[test]
fn file_write_then_read_round_trip() {
    let body = b"hello\x00world".to_vec();
    let post = request("POST /files/rt HTTP/1.1", &["Content-Length: 11"], &body);
    let stored = match generate_response(&post) {
        Action::WriteFile(p, b) => {
            assert_eq!(p, b"rt".to_vec());
            b
        }
        other => panic!("unexpected {:?}", other),
    };
    let written = file_write_response(true).expect("created");
    assert_eq!(written.get_message(), b"HTTP/1.1 201 Created\r\nContent-Type: text/plain\r\n\r\n".to_vec());
    let get = request("GET /files/rt HTTP/1.1", &[], b"");
    match generate_response(&get) {
        Action::ReadFile(p) => assert_eq!(p, b"rt".to_vec()),
        other => panic!("unexpected {:?}", other),
    }
    let mut expected =
        b"HTTP/1.1 200 OK\r\nContent-Type: application/octet-stream\r\nContent-Length: 11\r\n\r\n".to_vec();
    expected.extend_from_slice(&body);
    assert_eq!(file_read_response(Some(stored)).get_message(), expected);
}

#[test]
fn missing_file_is_not_found() {
    assert_eq!(file_read_response(None).get_message(), b"HTTP/1.1 404 Not Found\r\n\r\n".to_vec());
}

#[test]
fn failed_write_gives_no_response() {
    assert!(file_write_response(false).is_none());
}

#[test]
fn encode_variants() {
    assert_eq!(
        StatusLine::Success(None, Some(ContentType::TextPlain)).get_message(),
        b"HTTP/1.1 200 OK\r\nContent-Type: text/plain\r\n\r\n".to_vec()
    );
    assert_eq!(
        StatusLine::Success(Some(b"x".to_vec()), None).get_message(),
        b"HTTP/1.1 200 OK\r\nContent-Length: 1\r\n\r\nx".to_vec()
    );
    assert_eq!(
        StatusLine::Created(ContentType::ApplicationOctetStream).get_message(),
        b"HTTP/1.1 201 Created\r\nContent-Type: application/octet-stream\r\n\r\n".to_vec()
    );
    assert_eq!(StatusLine::NotFound.get_message(), b"HTTP/1.1 404 Not Found\r\n\r\n".to_vec());
}

#[test]
fn immediate_close_is_empty_request() {
    assert_eq!(decode_head(&Vec::new()).unwrap_err(), DecodeError::EmptyRequest);
}

#[test]
fn leading_blank_line_is_empty_request() {
    assert_eq!(decode_head(&lines(&["\r\n"])).unwrap_err(), DecodeError::EmptyRequest);
}

#[test]
fn head_cut_short_is_malformed() {
    let raw = lines(&["GET / HTTP/1.1\r\n", "Host: a\r\n"]);
    assert_eq!(decode_head(&raw).unwrap_err(), DecodeError::MalformedRequest);
}

#[test]
fn head_decodes_crlf_and_lf_lines() {
    let raw = lines(&["GET /echo/x HTTP/1.1\r\n", "Host: a\n", "User-Agent: b\r\n", "\n"]);
    let head = decode_head(&raw).expect("head");
    assert_eq!(head.request_line, b"GET /echo/x HTTP/1.1".to_vec());
    assert_eq!(head.headers, vec![b"Host: a".to_vec(), b"User-Agent: b".to_vec()]);
    assert_eq!(head.body_length(), 0);
}

#[test]
fn head_with_body_checks_length() {
    let raw = lines(&["POST /files/a HTTP/1.1\r\n", "Content-Length: 3\r\n", "\r\n"]);
    let head = decode_head(&raw).expect("head");
    assert_eq!(head.body_length(), 3);
    assert_eq!(head.clone().with_body(b"ab".to_vec()).unwrap_err(), DecodeError::MalformedRequest);
    let req = head.with_body(b"abc".to_vec()).expect("request");
    assert_eq!(req.body, b"abc".to_vec());
    assert_eq!(req.headers, vec![b"Content-Length: 3".to_vec()]);
}

#[test]
fn content_length_forms() {
    assert_eq!(find_content_length(&lines(&["Content-Length: 42"])), 42);
    assert_eq!(find_content_length(&lines(&["Host: a", "Content-Length:  7 extra"])), 7);
    assert_eq!(find_content_length(&lines(&["Content-Length: +9"])), 9);
    assert_eq!(find_content_length(&lines(&["Content-Length: abc"])), 0);
    assert_eq!(find_content_length(&lines(&["Content-Length: -1"])), 0);
    assert_eq!(find_content_length(&lines(&["Content-Length:5"])), 0);
    assert_eq!(find_content_length(&lines(&["content-length: 5"])), 0);
    assert_eq!(find_content_length(&lines(&["Host: a"])), 0);
    assert_eq!(find_content_length(&lines(&["Content-Length: 99999999999999999999999"])), 0);
    assert_eq!(find_content_length(&lines(&["Content-Length: x", "Content-Length: 5"])), 0);
}

#[test]
fn resolve_path_takes_second_token() {
    assert_eq!(resolve_path(b"GET /a/b HTTP/1.1"), Some(b"/a/b".to_vec()));
    assert_eq!(resolve_path(b"  GET\t/x  "), Some(b"/x".to_vec()));
    assert_eq!(resolve_path(b"GET"), None);
    assert_eq!(resolve_path(b""), None);
}

#[test]
fn blank_line_detection() {
    assert!(is_blank_line(b"\r\n"));
    assert!(is_blank_line(b"\n"));
    assert!(is_blank_line(b""));
    assert!(!is_blank_line(b" \r\n"));
    assert!(!is_blank_line(b"\r"));
}

#[test]
fn line_endings_trimmed() {
    assert_eq!(trim_line_ending(b"abc\r\n"), b"abc".to_vec());
    assert_eq!(trim_line_ending(b"abc\n"), b"abc".to_vec());
    assert_eq!(trim_line_ending(b"abc\r"), b"abc\r".to_vec());
    assert_eq!(trim_line_ending(b"abc"), b"abc".to_vec());
}

#[test]
fn substring_search() {
    assert!(contains_bytes(b"/a/user-agent", b"/user-agent"));
    assert!(!contains_bytes(b"/user-agen", b"/user-agent"));
    assert!(contains_bytes(b"xx", b""));
    assert!(!contains_bytes(b"abc", b"abd"));
}

#[test]
fn tokens_and_numbers() {
    assert_eq!(token_at(b" a  bc d", 1), Some(b"bc".to_vec()));
    assert_eq!(token_at(b" a  bc d", 3), None);
    assert_eq!(parse_usize(b"0"), Some(0));
    assert_eq!(parse_usize(b"18446744073709551615"), Some(usize::MAX));
    assert_eq!(parse_usize(b"18446744073709551616"), None);
    assert_eq!(parse_usize(b"+"), None);
    assert_eq!(parse_usize(b""), None);
    let mut out = b"n=".to_vec();
    push_decimal(&mut out, 10203);
    assert_eq!(out, b"n=10203".to_vec());
}
