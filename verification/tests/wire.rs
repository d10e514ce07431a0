use serve_core::http::{encode, Header, Method, Request, Response};
use serve_core::parser::{parse_request, trim, ParseError};

#[test]
fn parses_a_get_without_headers() {
    let req = parse_request(b"GET /users HTTP/1.1\r\n\r\n").unwrap();
    assert_eq!(req.method(), Method::Get);
    assert_eq!(req.path(), b"/users".to_vec());
    assert_eq!(req.version(), b"HTTP/1.1".to_vec());
    assert!(req.headers().is_empty());
    assert!(req.body().is_empty());
}

#[test]
fn parses_headers_and_body() {
    let raw = b"POST /users HTTP/1.1\r\nHost: example.org\r\ncontent-length: 23\r\nX-Tag:  a b \r\n\r\n{\"name\":\"Ada\",\"age\":30}trailing";
    let req = parse_request(raw).unwrap();
    assert_eq!(req.method(), Method::Post);
    assert_eq!(req.path(), b"/users".to_vec());
    assert_eq!(req.headers().len(), 3);
    assert_eq!(req.headers()[0].name, b"Host".to_vec());
    assert_eq!(req.headers()[0].value, b"example.org".to_vec());
    assert_eq!(req.headers()[2].name, b"X-Tag".to_vec());
    assert_eq!(req.headers()[2].value, b"a b".to_vec());
    assert_eq!(req.header(b"Content-Length").unwrap(), &b"23".to_vec());
    assert_eq!(req.body(), b"{\"name\":\"Ada\",\"age\":30}".to_vec());
}

#[test]
fn a_request_line_with_fewer_than_two_tokens_is_malformed() {
    assert_eq!(parse_request(b"").unwrap_err(), ParseError::EmptyRequestLine);
    assert_eq!(parse_request(b"   \r\n\r\n").unwrap_err(), ParseError::EmptyRequestLine);
    assert_eq!(parse_request(b"\r\n\r\nGET / HTTP/1.1").unwrap_err(), ParseError::EmptyRequestLine);
    assert_eq!(parse_request(b"GET\r\n\r\n").unwrap_err(), ParseError::MissingTarget);
    assert_eq!(parse_request(b"GET   \r\nHost: x\r\n\r\n").unwrap_err(), ParseError::MissingTarget);
}

#[test]
fn the_version_is_kept_and_may_be_missing() {
    let req = parse_request(b"GET / whatever/9\r\n\r\n").unwrap();
    assert_eq!(req.version(), b"whatever/9".to_vec());
    let req = parse_request(b"GET /\r\n\r\n").unwrap();
    assert_eq!(req.path(), b"/".to_vec());
    assert!(req.version().is_empty());
    let req = parse_request(b"  GET \t /a   HTTP/1.0 extra\r\n\r\n").unwrap();
    assert_eq!(req.method(), Method::Get);
    assert_eq!(req.path(), b"/a".to_vec());
    assert_eq!(req.version(), b"HTTP/1.0".to_vec());
}

#[test]
fn without_a_blank_line_everything_is_header_block() {
    let req = parse_request(b"GET /users HTTP/1.1\r\nHost: a\r\nAccept: b").unwrap();
    assert_eq!(req.headers().len(), 2);
    assert_eq!(req.headers()[1].name, b"Accept".to_vec());
    assert_eq!(req.headers()[1].value, b"b".to_vec());
    assert!(req.body().is_empty());
    let req = parse_request(b"GET /users HTTP/1.1").unwrap();
    assert!(req.headers().is_empty());
    assert!(req.body().is_empty());
}

#[test]
fn content_length_bounds_the_body() {
    let req = parse_request(b"POST /u HTTP/1.1\r\nContent-Length: 3\r\n\r\nabcdef").unwrap();
    assert_eq!(req.body(), b"abc".to_vec());
    let req = parse_request(b"POST /u HTTP/1.1\r\nContent-Length: 0\r\n\r\nabcdef").unwrap();
    assert!(req.body().is_empty());
    let req = parse_request(b"POST /u HTTP/1.1\r\nContent-Length: 6\r\n\r\nabcdef").unwrap();
    assert_eq!(req.body(), b"abcdef".to_vec());
}

#[test]
fn bytes_beyond_the_buffer_are_not_waited_for() {
    let req = parse_request(b"POST /u HTTP/1.1\r\nContent-Length: 100\r\n\r\nabcdef").unwrap();
    assert_eq!(req.body(), b"abcdef".to_vec());
    let req =
        parse_request(b"POST /u HTTP/1.1\r\nContent-Length: 99999999999999999999999\r\n\r\nabc")
            .unwrap();
    assert_eq!(req.body(), b"abc".to_vec());
}

#[test]
fn an_unparseable_content_length_leaves_the_whole_rest_as_body() {
    let req = parse_request(b"POST /u HTTP/1.1\r\nContent-Length: 3x\r\n\r\nabcdef").unwrap();
    assert_eq!(req.body(), b"abcdef".to_vec());
    let req = parse_request(b"POST /u HTTP/1.1\r\nContent-Length: -1\r\n\r\nabcdef").unwrap();
    assert_eq!(req.body(), b"abcdef".to_vec());
    let req = parse_request(b"POST /u HTTP/1.1\r\nContent-Length:\r\n\r\nabcdef").unwrap();
    assert_eq!(req.body(), b"abcdef".to_vec());
    let req = parse_request(b"POST /u HTTP/1.1\r\nHost: h\r\n\r\nabcdef").unwrap();
    assert_eq!(req.body(), b"abcdef".to_vec());
}

#[test]
fn the_body_ends_at_the_first_blank_line_only() {
    let req = parse_request(b"POST /u HTTP/1.1\r\n\r\na\r\n\r\nb").unwrap();
    assert!(req.headers().is_empty());
    assert_eq!(req.body(), b"a\r\n\r\nb".to_vec());
}

#[test]
fn header_names_are_matched_without_regard_to_case() {
    let req = parse_request(b"GET / HTTP/1.1\r\nCoNtEnT-TyPe: text/x\r\n\r\n").unwrap();
    assert_eq!(req.header(b"content-type").unwrap(), &b"text/x".to_vec());
    assert_eq!(req.header(b"CONTENT-TYPE").unwrap(), &b"text/x".to_vec());
    assert!(req.header(b"content-typ").is_none());
    assert!(req.header(b"content-type2").is_none());
}

#[test]
fn duplicate_headers_are_kept_in_arrival_order() {
    let req =
        parse_request(b"GET / HTTP/1.1\r\nX-A: 1\r\nX-B: 2\r\nx-a: 3\r\n\r\n").unwrap();
    assert_eq!(req.headers().len(), 3);
    assert_eq!(req.headers()[0].value, b"1".to_vec());
    assert_eq!(req.headers()[1].value, b"2".to_vec());
    assert_eq!(req.headers()[2].name, b"x-a".to_vec());
    assert_eq!(req.headers()[2].value, b"3".to_vec());
    assert_eq!(req.header(b"X-A").unwrap(), &b"1".to_vec());
}

#[test]
fn a_line_without_a_colon_states_no_header() {
    let req = parse_request(b"GET / HTTP/1.1\r\nnonsense\r\nA: b:c\r\n\r\n").unwrap();
    assert_eq!(req.headers().len(), 1);
    assert_eq!(req.headers()[0].name, b"A".to_vec());
    assert_eq!(req.headers()[0].value, b"b:c".to_vec());
}

#[test]
fn method_names_are_upper_case() {
    let names: [(&[u8], Method); 10] = [
        (b"GET", Method::Get),
        (b"HEAD", Method::Head),
        (b"POST", Method::Post),
        (b"PUT", Method::Put),
        (b"DELETE", Method::Delete),
        (b"CONNECT", Method::Connect),
        (b"OPTIONS", Method::Options),
        (b"TRACE", Method::Trace),
        (b"PATCH", Method::Patch),
        (b"get", Method::Other),
    ];
    for (name, method) in names {
        assert_eq!(Method::from_token(name), method);
    }
    let req = parse_request(b"BREW /pot HTCPCP/1.0\r\n\r\n").unwrap();
    assert_eq!(req.method(), Method::Other);
}

#[test]
fn trim_takes_whitespace_off_both_ends() {
    assert_eq!(trim(b"  a b\t\r\n"), b"a b");
    assert_eq!(trim(b"   "), b"");
    assert_eq!(trim(b""), b"");
    assert_eq!(trim(b"x"), b"x");
}

#[test]
fn encodes_a_json_response() {
    let r = Response::new(404, b"application/json", b"{\"message\":\"Not found\"}".to_vec());
    let bytes = encode(&r);
    assert_eq!(
        bytes,
        b"HTTP/1.1 404 Not Found\r\nContent-Type: application/json\r\nContent-Length: 23\r\n\r\n{\"message\":\"Not found\"}".to_vec()
    );
}

#[test]
fn encodes_status_lines_with_their_reasons() {
    let cases: [(u16, &str); 10] = [
        (200, "HTTP/1.1 200 OK\r\n"),
        (201, "HTTP/1.1 201 Created\r\n"),
        (204, "HTTP/1.1 204 No Content\r\n"),
        (400, "HTTP/1.1 400 Bad Request\r\n"),
        (404, "HTTP/1.1 404 Not Found\r\n"),
        (405, "HTTP/1.1 405 Method Not Allowed\r\n"),
        (408, "HTTP/1.1 408 Request Timeout\r\n"),
        (500, "HTTP/1.1 500 Internal Server Error\r\n"),
        (503, "HTTP/1.1 503 Service Unavailable\r\n"),
        (299, "HTTP/1.1 299 Unknown\r\n"),
    ];
    for (status, line) in cases {
        let bytes = encode(&Response::new(status, b"text/plain", Vec::new()));
        let expected = format!("{}Content-Type: text/plain\r\nContent-Length: 0\r\n\r\n", line);
        assert_eq!(bytes, expected.into_bytes());
    }
}

#[test]
fn an_encoded_response_states_the_length_of_its_body() {
    let body = vec![b'x'; 1234];
    let bytes = encode(&Response::new(200, b"text/plain", body.clone()));
    let mut expected =
        b"HTTP/1.1 200 OK\r\nContent-Type: text/plain\r\nContent-Length: 1234\r\n\r\n".to_vec();
    expected.extend_from_slice(&body);
    assert_eq!(bytes, expected);
}

#[test]
fn a_response_looks_its_headers_up_without_regard_to_case() {
    let r = Response::new(200, b"text/plain", Vec::new());
    assert_eq!(r.header(b"content-type").unwrap(), &b"text/plain".to_vec());
    assert!(r.header(b"content-length").is_none());
}

#[test]
fn a_request_is_what_it_was_made_of() {
    let headers = vec![
        Header { name: b"Host".to_vec(), value: b"a".to_vec() },
        Header { name: b"host".to_vec(), value: b"b".to_vec() },
    ];
    let req = Request::new(
        Method::Put,
        b"/x".to_vec(),
        b"HTTP/1.1".to_vec(),
        headers,
        b"body".to_vec(),
    );
    assert_eq!(req.method(), Method::Put);
    assert_eq!(req.path(), b"/x");
    assert_eq!(req.version(), b"HTTP/1.1");
    assert_eq!(req.headers().len(), 2);
    assert_eq!(req.header(b"HOST").unwrap(), &b"a".to_vec());
    assert_eq!(req.body(), b"body");
}
