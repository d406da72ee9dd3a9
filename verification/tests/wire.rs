//! Parsing, building and serializing over the wire format, end to end.
use httpcore::errors::ParseError;
use httpcore::handler::handle;
use httpcore::headers::HeaderMap;
use httpcore::method::Method;
use httpcore::request::Request;
use httpcore::response::Response;

fn find_sub(haystack: &[u8], needle: &[u8]) -> Option<usize> {
    if needle.len() > haystack.len() {
        return None;
    }
    (0..=haystack.len() - needle.len()).find(|&i| &haystack[i..i + needle.len()] == needle)
}

fn build(req: &Request) -> Response {
    let mut resp = Response::new();
    resp.set_response(req);
    resp
}

#[test]
fn get_hello_parses_builds_and_serializes() {
    let req = Request::parse(b"GET /hello HTTP/1.1\r\nHost: x\r\n\r\n").unwrap();
    assert_eq!(req.method, Method::GET);
    assert_eq!(req.path, b"/hello");
    assert_eq!(req.headers.len(), 1);
    assert_eq!(req.headers.get(b"Host"), Some(&b"x".to_vec()));
    assert_eq!(req.body, b"");
    let resp = build(&req);
    assert_eq!(resp.status.get_code(), 200);
    assert_eq!(resp.status.get_message(), b"OK");
    assert_eq!(resp.body, b"Hello, path: /hello");
    let wire = resp.format();
    assert!(wire.starts_with(b"HTTP/1.1 200 OK\r\n"));
}

#[test]
fn fetch_method_fails_and_no_response_is_written() {
    let window = b"FETCH /x HTTP/1.1\r\nHost: x\r\n\r\n";
    assert_eq!(Request::parse(window).unwrap_err(), ParseError::InvalidMethod);
    assert_eq!(handle(window), None);
}

#[test]
fn options_preflight_carries_cors_headers() {
    let req = Request::parse(b"OPTIONS /cors HTTP/1.1\r\n\r\n").unwrap();
    let resp = build(&req);
    assert_eq!(resp.status.get_code(), 200);
    let wire = resp.format();
    assert!(find_sub(&wire, b"Access-Control-Allow-Origin: *\r\n").is_some());
    assert_eq!(resp.headers.get(b"Access-Control-Request-Method"), Some(&b"*".to_vec()));
    assert_eq!(resp.headers.get(b"Access-Control-Request-Headers"), Some(&b"*".to_vec()));
    assert_eq!(resp.headers.get(b"Access-Control-Allow-Origin"), Some(&b"*".to_vec()));
    assert_eq!(resp.headers.get(b"Access-Control-Max-Age"), Some(&b"86400".to_vec()));
}

#[test]
fn non_preflight_carries_no_cors_headers() {
    for window in [
        &b"GET /x HTTP/1.1\r\n\r\n"[..],
        b"POST /x HTTP/1.1\r\n\r\n",
        b"DELETE /x HTTP/1.1\r\n\r\n",
    ] {
        let resp = build(&Request::parse(window).unwrap());
        assert!(resp.headers.get(b"Access-Control-Request-Method").is_none());
        assert!(resp.headers.get(b"Access-Control-Request-Headers").is_none());
        assert!(resp.headers.get(b"Access-Control-Allow-Origin").is_none());
        assert!(resp.headers.get(b"Access-Control-Max-Age").is_none());
    }
}

#[test]
fn delete_implies_no_content() {
    let resp = build(&Request::parse(b"DELETE /x HTTP/1.1\r\n\r\n").unwrap());
    assert_eq!(resp.status.get_code(), 204);
    assert!(resp.format().starts_with(b"HTTP/1.1 204 No Content\r\n"));
}

#[test]
fn content_length_is_exact_byte_length() {
    let resp = build(&Request::parse(b"POST /some/where HTTP/1.1\r\n\r\n").unwrap());
    let expected = resp.body.len().to_string();
    assert_eq!(resp.headers.get(b"Content-Length"), Some(&expected.into_bytes()));
    assert_eq!(resp.headers.get(b"Content-Type"), Some(&b"text/plain".to_vec()));
    // "Hello, path: /some/where" is 24 bytes
    assert_eq!(resp.headers.get(b"Content-Length"), Some(&b"24".to_vec()));
}

#[test]
fn serialized_response_recovers_body_after_blank_line() {
    let resp = build(&Request::parse(b"PUT /data HTTP/1.1\r\n\r\nignored").unwrap());
    let wire = resp.format();
    let marker = find_sub(&wire, b"\r\n\r\n").unwrap();
    assert_eq!(&wire[marker + 4..], resp.body.as_slice());
}

#[test]
fn fixed_lines_come_first_and_in_order() {
    let resp = build(&Request::parse(b"GET / HTTP/1.1\r\n\r\n").unwrap());
    let wire = resp.format();
    let expect = b"HTTP/1.1 200 OK\r\nDate: Fri, 31 Dec 1999 23:59:59 GMT\r\nServer: Rust Server\r\nConnection: close\r\n";
    assert_eq!(&wire[..expect.len()], &expect[..]);
}

#[test]
fn malformed_header_line_fails_only_that_request() {
    let window = b"GET / HTTP/1.1\r\nBadHeader\r\n\r\n";
    assert_eq!(Request::parse(window).unwrap_err(), ParseError::MalformedHeaderLine);
    assert_eq!(handle(window), None);
    // the very next, well-formed request is served as ever
    assert!(handle(b"GET / HTTP/1.1\r\n\r\n").is_some());
}

#[test]
fn missing_request_line_terminator() {
    assert_eq!(
        Request::parse(b"GET /x HTTP/1.1").unwrap_err(),
        ParseError::MalformedRequestLine,
    );
}

#[test]
fn blank_or_one_token_request_line() {
    assert_eq!(Request::parse(b"\r\n\r\n").unwrap_err(), ParseError::MalformedRequestLine);
    assert_eq!(Request::parse(b"   \r\n\r\n").unwrap_err(), ParseError::MalformedRequestLine);
    assert_eq!(Request::parse(b"GET\r\n\r\n").unwrap_err(), ParseError::MalformedRequestLine);
    assert_eq!(Request::parse(b"GET \r\n\r\n").unwrap_err(), ParseError::MalformedRequestLine);
}

#[test]
fn invalid_method_checked_before_headers() {
    // the blank-line marker is missing too, but the method fails first
    assert_eq!(
        Request::parse(b"FETCH /x HTTP/1.1\r\nHost: x").unwrap_err(),
        ParseError::InvalidMethod,
    );
}

#[test]
fn missing_blank_line_marker() {
    assert_eq!(
        Request::parse(b"GET /x HTTP/1.1\r\nHost: x").unwrap_err(),
        ParseError::MalformedHeaders,
    );
}

#[test]
fn invalid_utf8_window() {
    assert_eq!(
        Request::parse(b"GET /\xff HTTP/1.1\r\n\r\n").unwrap_err(),
        ParseError::EncodingError,
    );
    assert_eq!(
        // a lone continuation byte in the body
        Request::parse(b"GET / HTTP/1.1\r\n\r\n\x80").unwrap_err(),
        ParseError::EncodingError,
    );
}

#[test]
fn multibyte_text_is_accepted() {
    let req = Request::parse("GET /h\u{e9}llo HTTP/1.1\r\n\r\n".as_bytes()).unwrap();
    assert_eq!(req.path, "/h\u{e9}llo".as_bytes());
}

#[test]
fn empty_header_block() {
    let req = Request::parse(b"GET /x HTTP/1.1\r\n\r\nsome body").unwrap();
    assert_eq!(req.headers.len(), 0);
    assert_eq!(req.body, b"some body");
}

#[test]
fn duplicate_header_last_write_wins() {
    let req = Request::parse(b"GET / HTTP/1.1\r\nA: 1\r\nA: 2\r\n\r\n").unwrap();
    assert_eq!(req.headers.len(), 1);
    assert_eq!(req.headers.get(b"A"), Some(&b"2".to_vec()));
}

#[test]
fn header_value_keeps_later_separators() {
    let req = Request::parse(b"GET / HTTP/1.1\r\nA: b: c\r\n\r\n").unwrap();
    assert_eq!(req.headers.get(b"A"), Some(&b"b: c".to_vec()));
}

#[test]
fn body_is_taken_verbatim() {
    let req = Request::parse(b"POST /x HTTP/1.1\r\nContent-Length: 3\r\n\r\nabc\r\nxyz").unwrap();
    assert_eq!(req.body, b"abc\r\nxyz");
}

#[test]
fn fresh_request_and_response_are_empty() {
    let req = Request::new();
    assert_eq!(req.method, Method::GET);
    assert_eq!(req.path, b"");
    assert_eq!(req.headers.len(), 0);
    assert_eq!(req.body, b"");
    let resp = Response::new();
    assert_eq!(resp.status.get_code(), 200);
    assert_eq!(resp.headers.len(), 0);
    assert_eq!(resp.body, b"");
}

#[test]
fn header_map_overwrites_in_place() {
    let mut m = HeaderMap::new();
    m.insert(b"a".to_vec(), b"1".to_vec());
    m.insert(b"b".to_vec(), b"2".to_vec());
    m.insert(b"a".to_vec(), b"3".to_vec());
    assert_eq!(m.len(), 2);
    assert_eq!(m.get(b"a"), Some(&b"3".to_vec()));
    assert_eq!(m.get(b"b"), Some(&b"2".to_vec()));
    assert_eq!(m.get(b"c"), None);
    // names are matched literally, never case-insensitively
    assert_eq!(m.get(b"A"), None);
}

#[test]
fn fresh_response_serializes_to_the_fixed_head_alone() {
    let resp = Response::new();
    let wire = resp.format();
    assert_eq!(
        wire,
        b"HTTP/1.1 200 OK\r\nDate: Fri, 31 Dec 1999 23:59:59 GMT\r\nServer: Rust Server\r\nConnection: close\r\n\r\n".to_vec(),
    );
}

#[test]
fn content_length_with_several_digits() {
    // a path of 87 bytes makes the 13-byte template total exactly 100
    let path: String = std::iter::repeat('a').take(87).collect();
    let window = format!("GET {} HTTP/1.1\r\n\r\n", path);
    let resp = build(&Request::parse(window.as_bytes()).unwrap());
    assert_eq!(resp.body.len(), 100);
    assert_eq!(resp.headers.get(b"Content-Length"), Some(&b"100".to_vec()));
}

#[test]
fn handle_produces_full_exchange() {
    let wire = handle(b"GET /hello HTTP/1.1\r\nHost: x\r\n\r\n").unwrap();
    assert!(wire.starts_with(b"HTTP/1.1 200 OK\r\n"));
    assert!(find_sub(&wire, b"Connection: close\r\n").is_some());
    assert!(find_sub(&wire, b"Content-Type: text/plain\r\n").is_some());
    assert!(wire.ends_with(b"\r\nHello, path: /hello"));
}
