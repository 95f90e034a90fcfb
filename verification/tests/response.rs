use http_wire::error::Error;
use http_wire::headers::Headers;
use http_wire::request::Request;
use http_wire::response::Response;
use http_wire::router::error_response;
use http_wire::router::file_response;
use http_wire::router::generate_response;
use http_wire::router::strip_prefix;
use http_wire::router::trim_start;
use http_wire::router::Reply;
use http_wire::status_code::StatusCode;

fn ready(reply: Reply) -> Response {
    match reply {
        Reply::Ready(response) => response,
        Reply::NeedsFile(name) => panic!("unexpected request for the file {}", name),
    }
}

fn request_for(input: &[u8]) -> Request<'_> {
    let (_, request) = Request::parse_header(input).unwrap();
    request.unwrap()
}

#[test]
fn status_only_response_has_no_header_and_no_body() {
    let response = Response::from_status_code(StatusCode::NoContent);
    assert_eq!(response.status_code, StatusCode::NoContent);
    assert!(response.headers.is_empty());
    assert!(response.body.is_none());
}

#[test]
fn body_response_announces_its_body() {
    let response = Response::from_body(b"hello world".to_vec());
    assert_eq!(response.status_code, StatusCode::OK);
    assert_eq!(response.headers.len(), 2);
    assert_eq!(response.headers.get("Content-Type"), Some(&"text/plain".to_string()));
    assert_eq!(response.headers.get("Content-Length"), Some(&"11".to_string()));
    assert_eq!(response.body, Some(b"hello world".to_vec()));
}

#[test]
fn encode_status_only() {
    let response = Response::from_status_code(StatusCode::NotFound);
    assert_eq!(response.encode(), b"HTTP/1.1 404 Not Found\r\n\r\n");
}

#[test]
fn encode_with_body() {
    let response = Response::from_body(b"abc".to_vec());
    assert_eq!(
        response.encode(),
        b"HTTP/1.1 200 OK\r\nContent-Type: text/plain\r\nContent-Length: 3\r\n\r\nabc"
    );
}

#[test]
fn encode_with_empty_body() {
    let response = Response::from_body(Vec::new());
    assert_eq!(
        response.encode(),
        b"HTTP/1.1 200 OK\r\nContent-Type: text/plain\r\nContent-Length: 0\r\n\r\n"
    );
}

#[test]
fn encode_keeps_the_order_of_insertion_and_overrides_in_place() {
    let mut response = Response::from_body(vec![0u8, 255, 13, 10]);
    response.headers.insert("X-Trace".to_string(), "1".to_string());
    response.headers.insert("Content-Type".to_string(), "application/octet-stream".to_string());
    let mut expected = b"HTTP/1.1 200 OK\r\nContent-Type: application/octet-stream\r\nContent-Length: 4\r\nX-Trace: 1\r\n\r\n".to_vec();
    expected.extend_from_slice(&[0u8, 255, 13, 10]);
    assert_eq!(response.encode(), expected);
    assert_eq!(response.encode(), expected);
}

#[test]
fn encode_writes_large_lengths_in_full() {
    let response = Response::from_body(vec![b'x'; 12345]);
    let encoded = response.encode();
    assert!(encoded.starts_with(b"HTTP/1.1 200 OK\r\nContent-Type: text/plain\r\nContent-Length: 12345\r\n\r\nxxx"));
    assert_eq!(encoded.len(), 68 + 12345);
}

#[test]
fn headers_store_and_replace() {
    let mut headers: Headers<String> = Headers::new();
    assert!(headers.is_empty());
    headers.insert("a".to_string(), "1".to_string());
    headers.insert("b".to_string(), "2".to_string());
    headers.insert("a".to_string(), "3".to_string());
    assert_eq!(headers.len(), 2);
    assert!(!headers.is_empty());
    assert_eq!(headers.get("a"), Some(&"3".to_string()));
    assert_eq!(headers.get("b"), Some(&"2".to_string()));
    assert_eq!(headers.get("A"), None);
    assert_eq!(headers.field(0), Some((&"a".to_string(), &"3".to_string())));
    assert_eq!(headers.field(1), Some((&"b".to_string(), &"2".to_string())));
    assert_eq!(headers.field(2), None);
}

#[test]
fn echo_route() {
    let request = request_for(b"GET /echo/abc123 HTTP/1.1\r\n\r\n");
    let response = ready(generate_response(&request));
    assert_eq!(response.status_code, StatusCode::OK);
    assert_eq!(u16::from(response.status_code), 200);
    assert_eq!(response.headers.get("Content-Type"), Some(&"text/plain".to_string()));
    assert_eq!(response.headers.get("Content-Length"), Some(&"6".to_string()));
    assert_eq!(response.body, Some(b"abc123".to_vec()));
}

#[test]
fn echo_route_cuts_the_prefix_once() {
    let request = request_for(b"GET /echo//echo/x/echo/ HTTP/1.1\r\n\r\n");
    let response = ready(generate_response(&request));
    assert_eq!(response.body, Some(b"/echo/x/echo/".to_vec()));

    let request = request_for(b"GET /echo//echo/x HTTP/1.1\r\n\r\n");
    let response = ready(generate_response(&request));
    assert_eq!(response.status_code, StatusCode::OK);
    assert_eq!(response.body, Some(b"/echo/x".to_vec()));
    assert_eq!(response.headers.get("Content-Length"), Some(&"7".to_string()));
    assert_eq!(response.headers.get("Content-Type"), Some(&"text/plain".to_string()));
}

#[test]
fn echo_route_with_nothing_after_the_prefix() {
    let request = request_for(b"GET /echo/ HTTP/1.1\r\n\r\n");
    let response = ready(generate_response(&request));
    assert_eq!(response.body, Some(Vec::new()));
    assert_eq!(response.headers.get("Content-Length"), Some(&"0".to_string()));
}

#[test]
fn user_agent_route_without_the_header_is_a_bad_request() {
    let request = request_for(b"GET /user-agent HTTP/1.1\r\nHost: x\r\n\r\n");
    let response = ready(generate_response(&request));
    assert_eq!(response.status_code, StatusCode::BadRequest);
    assert!(response.headers.is_empty());
    assert!(response.body.is_none());
    assert_eq!(response.encode(), b"HTTP/1.1 400 Bad Request\r\n\r\n");
}

#[test]
fn user_agent_under_another_spelling_is_not_sent_back() {
    let request = request_for(b"GET /user-agent HTTP/1.1\r\nuser-agent: curl\r\n\r\n");
    let response = ready(generate_response(&request));
    assert_eq!(response.status_code, StatusCode::BadRequest);
    assert!(response.body.is_none());
}

#[test]
fn every_reply_is_read_back_from_its_bytes() {
    let inputs: [&[u8]; 6] = [
        b"GET / HTTP/1.1\r\n\r\n",
        b"GET /echo/a%20b HTTP/1.1\r\n\r\n",
        b"GET /echo//echo/ HTTP/1.1\r\n\r\n",
        b"GET /user-agent HTTP/1.1\r\nUser-Agent: a: b\r\n\r\n",
        b"GET /user-agent HTTP/1.1\r\n\r\n",
        b"POST /nothing/here HTTP/1.1\r\n\r\n",
    ];
    for input in inputs {
        let request = request_for(input);
        let response = ready(generate_response(&request));
        match &response.body {
            Some(body) => {
                assert_eq!(
                    response.headers.get("Content-Length"),
                    Some(&body.len().to_string())
                );
                assert_eq!(response.headers.get("Content-Type"), Some(&"text/plain".to_string()));
            }
            None => assert_eq!(response.headers.get("Content-Length"), None),
        }
        let bytes = response.encode();
        let (rest, decoded) = Response::decode(&bytes).unwrap();
        let decoded = decoded.unwrap();
        assert!(rest.is_empty());
        assert_eq!(decoded.status_code, response.status_code);
        assert_eq!(decoded.headers.len(), response.headers.len());
        assert_eq!(decoded.body, response.body);
    }
}

#[test]
fn a_refused_head_is_answered_with_bad_request() {
    for error in [
        Error::InvalidMethod,
        Error::MalformedLineEnding,
        Error::InvalidUtf8,
        Error::MalformedStartLine,
        Error::UnsupportedVersion,
        Error::MalformedHeader,
        Error::InvalidContentLength,
    ] {
        let response = error_response(error);
        assert_eq!(response.status_code, StatusCode::BadRequest);
        assert!(response.headers.is_empty());
        assert!(response.body.is_none());
    }
    let error = Request::parse_header(b"FOO / HTTP/1.1\r\n\r\n").unwrap_err();
    assert_eq!(error_response(error).encode(), b"HTTP/1.1 400 Bad Request\r\n\r\n");
}

#[test]
fn files_route_drops_every_leading_prefix() {
    let request = request_for(b"GET /files//files/a.txt HTTP/1.1\r\n\r\n");
    match generate_response(&request) {
        Reply::NeedsFile(name) => assert_eq!(name, "a.txt"),
        Reply::Ready(_) => panic!("the file has to be read first"),
    }
}

#[test]
fn strip_prefix_cuts_one_prefix() {
    assert_eq!(strip_prefix("/a/a/b", "/a"), Some("/a/b"));
    assert_eq!(strip_prefix("/a", "/a"), Some(""));
    assert_eq!(strip_prefix("/b/a", "/a"), None);
    assert_eq!(strip_prefix("abc", ""), Some("abc"));
    assert_eq!(strip_prefix("\u{e9}t\u{e9}", "\u{e9}"), Some("t\u{e9}"));
}

#[test]
fn unknown_route() {
    let request = request_for(b"GET /nope HTTP/1.1\r\n\r\n");
    let response = ready(generate_response(&request));
    assert_eq!(u16::from(response.status_code), 404);
    assert_eq!(response.status_code.text(), "Not Found");
    assert!(response.body.is_none());
    assert_eq!(response.encode(), b"HTTP/1.1 404 Not Found\r\n\r\n");
}

#[test]
fn root_route() {
    let request = request_for(b"GET / HTTP/1.1\r\n\r\n");
    let response = ready(generate_response(&request));
    assert_eq!(response.status_code, StatusCode::OK);
    assert!(response.headers.is_empty());
    assert!(response.body.is_none());
}

#[test]
fn user_agent_route() {
    let request = request_for(b"GET /user-agent HTTP/1.1\r\nUser-Agent: curl/7.64.1\r\n\r\n");
    let response = ready(generate_response(&request));
    assert_eq!(response.status_code, StatusCode::OK);
    assert_eq!(response.headers.get("Content-Length"), Some(&"11".to_string()));
    assert_eq!(response.body, Some(b"curl/7.64.1".to_vec()));
}

#[test]
fn files_route_names_the_file() {
    let request = request_for(b"GET /files/notes.txt HTTP/1.1\r\n\r\n");
    match generate_response(&request) {
        Reply::NeedsFile(name) => assert_eq!(name, "notes.txt"),
        Reply::Ready(_) => panic!("the file has to be read first"),
    }
}

#[test]
fn file_response_for_present_and_absent_files() {
    let found = file_response(Some(b"data".to_vec()));
    assert_eq!(found.status_code, StatusCode::OK);
    assert_eq!(found.body, Some(b"data".to_vec()));
    assert_eq!(found.headers.get("Content-Length"), Some(&"4".to_string()));
    let missing = file_response(None);
    assert_eq!(missing.status_code, StatusCode::NotFound);
    assert!(missing.body.is_none());
}

#[test]
fn trim_start_drops_leading_prefixes_only() {
    assert_eq!(trim_start("/a/a/b/a/", "/a"), "/b/a/");
    assert_eq!(trim_start("abc", "x"), "abc");
    assert_eq!(trim_start("abc", ""), "abc");
    assert_eq!(trim_start("aaa", "a"), "");
}

#[test]
fn decode_gives_an_encoded_response_back() {
    let response = Response::from_body(b"abc123".to_vec());
    let bytes = response.encode();
    let (rest, decoded) = Response::decode(&bytes).unwrap();
    let decoded = decoded.unwrap();
    assert!(rest.is_empty());
    assert_eq!(decoded.status_code, response.status_code);
    assert_eq!(decoded.headers.len(), response.headers.len());
    assert_eq!(decoded.headers.field(0), response.headers.field(0));
    assert_eq!(decoded.headers.field(1), response.headers.field(1));
    assert_eq!(decoded.headers.get("Content-Type"), Some(&"text/plain".to_string()));
    assert_eq!(decoded.headers.get("Content-Length"), Some(&"6".to_string()));
    assert_eq!(decoded.body, response.body);
    assert_eq!(decoded.encode(), bytes);
}

#[test]
fn decode_gives_every_status_back() {
    for number in 0..=u16::MAX {
        if let Ok(status) = StatusCode::try_from(number) {
            let bytes = Response::from_status_code(status).encode();
            let (rest, decoded) = Response::decode(&bytes).unwrap();
            let decoded = decoded.unwrap();
            assert!(rest.is_empty());
            assert_eq!(decoded.status_code, status);
            assert!(decoded.headers.is_empty());
            assert!(decoded.body.is_none());
        }
    }
}

#[test]
fn decode_keeps_added_headers_and_binary_bodies() {
    let mut response = Response::from_body(vec![0u8, 13, 10, 13, 10, 255]);
    response.headers.insert("X-Trace".to_string(), "a: b".to_string());
    let mut bytes = response.encode();
    bytes.extend_from_slice(b"next");
    let (rest, decoded) = Response::decode(&bytes).unwrap();
    let decoded = decoded.unwrap();
    assert_eq!(rest, b"next");
    assert_eq!(decoded.status_code, StatusCode::OK);
    assert_eq!(decoded.headers.len(), 3);
    assert_eq!(decoded.headers.get("X-Trace"), Some(&"a: b".to_string()));
    assert_eq!(decoded.body, Some(vec![0u8, 13, 10, 13, 10, 255]));
}

#[test]
fn decode_waits_for_the_whole_body() {
    let input = b"HTTP/1.1 200 OK\r\nContent-Length: 5\r\n\r\nabc";
    let (rest, decoded) = Response::decode(input).unwrap();
    assert_eq!(rest, input);
    assert!(decoded.is_none());
    let (rest, decoded) = Response::decode(b"HTTP/1.1 200 OK\r\nContent-Le").unwrap();
    assert_eq!(rest, b"HTTP/1.1 200 OK\r\nContent-Le");
    assert!(decoded.is_none());
}

#[test]
fn decode_refuses_malformed_status_lines() {
    assert_eq!(Response::decode(b"HTTP/1.1\r\n\r\n").unwrap_err(), Error::MalformedStatusLine);
    assert_eq!(Response::decode(b"HTTP/1.1 200\r\n\r\n").unwrap_err(), Error::MalformedStatusLine);
    assert_eq!(Response::decode(b"HTTP/1.0 200 OK\r\n\r\n").unwrap_err(), Error::UnsupportedVersion);
    assert_eq!(Response::decode(b"HTTP/1.1 299 OK\r\n\r\n").unwrap_err(), Error::InvalidStatusCode);
    assert_eq!(Response::decode(b"HTTP/1.1 abc OK\r\n\r\n").unwrap_err(), Error::InvalidStatusCode);
    assert_eq!(Response::decode(b"HTTP/1.1 70000 OK\r\n\r\n").unwrap_err(), Error::InvalidStatusCode);
    assert_eq!(Response::decode(b"HTTP/1.1 200 Fine\r\n\r\n").unwrap_err(), Error::MalformedStatusLine);
    assert_eq!(Response::decode(b"HTTP/1.1 200 OK\r\nContent-Length: x\r\n\r\n").unwrap_err(), Error::InvalidContentLength);
    assert_eq!(Response::decode(b"HTTP/1.1 200 OK\r\nbad\r\n\r\n").unwrap_err(), Error::MalformedHeader);
}

#[test]
fn a_value_with_a_line_ending_does_not_come_back() {
    let mut response = Response::from_status_code(StatusCode::OK);
    response.headers.insert("X".to_string(), "a\r\nY: b".to_string());
    let bytes = response.encode();
    let (_, decoded) = Response::decode(&bytes).unwrap();
    let decoded = decoded.unwrap();
    assert_eq!(decoded.headers.len(), 2);
    assert_eq!(decoded.headers.get("X"), Some(&"a".to_string()));
}

#[test]
fn owned_headers_keep_fields_and_order() {
    let mut borrowed: Headers<&str> = Headers::new();
    borrowed.insert("b", "1");
    borrowed.insert("a", "2");
    let owned = borrowed.to_owned();
    assert_eq!(owned.len(), 2);
    assert_eq!(owned.field(0), Some((&"b".to_string(), &"1".to_string())));
    assert_eq!(owned.field(1), Some((&"a".to_string(), &"2".to_string())));
}
