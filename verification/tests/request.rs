use http_wire::connection::advance;
use http_wire::connection::Step;
use http_wire::error::Error;
use http_wire::method::Method;
use http_wire::request::Request;

#[test]
fn parse_no_headers_no_body() {
    let input = b"GET /index.html HTTP/1.1\r\n\r\n";
    let (rest, request) = Request::parse_header(input).unwrap();

    assert!(rest.is_empty());

    let request = request.unwrap();
    assert_eq!(request.method, Method::Get);
    assert_eq!(request.target, "/index.html");
    assert!(request.headers.is_empty());
    assert_eq!(request.body_len, 0);
    assert!(request.body.is_none());
}

#[test]
fn parse_headers_no_body() {
    let input =
        b"GET /index.html HTTP/1.1\r\nHost: localhost:4221\r\nUser-Agent: curl/7.64.1\r\n\r\n";
    let (rest, request) = Request::parse_header(input).unwrap();

    assert!(rest.is_empty());

    let request = request.unwrap();
    assert_eq!(request.method, Method::Get);
    assert_eq!(request.target, "/index.html");
    assert_eq!(request.headers.len(), 2);
    assert_eq!(request.headers.get("Host"), Some(&"localhost:4221"));
    assert_eq!(request.headers.get("User-Agent"), Some(&"curl/7.64.1"));
    assert_eq!(request.body_len, 0);
    assert!(request.body.is_none());
}

#[test]
fn parse_headers_body() {
    let input =
        b"GET /index.html HTTP/1.1\r\nHost: localhost:4221\r\nUser-Agent: curl/7.64.1\r\nContent-Length: 3\r\n\r\nfoo";
    let (rest, request) = Request::parse_header(input).unwrap();

    assert_eq!(rest, b"foo");

    let mut request = request.unwrap();
    assert_eq!(request.method, Method::Get);
    assert_eq!(request.target, "/index.html");
    assert_eq!(request.headers.len(), 3);
    assert_eq!(request.headers.get("Host"), Some(&"localhost:4221"));
    assert_eq!(request.headers.get("User-Agent"), Some(&"curl/7.64.1"));
    assert_eq!(request.headers.get("Content-Length"), Some(&"3"));
    assert_eq!(request.body_len, 3);
    assert!(request.body.is_none());

    request.set_body(rest);
    assert_eq!(request.body.unwrap(), b"foo");
}

#[test]
fn parse_incomplete_header() {
    {
        let input = b"GET /index.html HTTP/1.1\r\nHost: localhos";
        let (rest, request) = Request::parse_header(input).unwrap();
        assert_eq!(rest, input);
        assert!(request.is_none());
    }

    {
        let input = b"GET /index.html HTTP/1.1\r\nHost: localhost:4221\r\n";
        let (rest, request) = Request::parse_header(input).unwrap();
        assert_eq!(rest, input);
        assert!(request.is_none());
    }
}

#[test]
fn parse_root_without_headers() {
    let (rest, request) = Request::parse_header(b"GET / HTTP/1.1\r\n\r\n").unwrap();
    let request = request.unwrap();
    assert!(rest.is_empty());
    assert_eq!(request.method, Method::Get);
    assert_eq!(request.target, "/");
    assert!(request.headers.is_empty());
    assert_eq!(request.headers.len(), 0);
    assert_eq!(request.body_len, 0);
    assert!(request.body.is_none());
}

#[test]
fn terminator_split_across_reads() {
    let mut buffer: Vec<u8> = Vec::new();
    buffer.extend_from_slice(b"GET / HTTP/1.1\r\n\r");
    {
        let (rest, request) = Request::parse_header(&buffer).unwrap();
        assert_eq!(rest, &buffer[..]);
        assert!(request.is_none());
    }
    buffer.extend_from_slice(b"\n");
    let (rest, request) = Request::parse_header(&buffer).unwrap();
    assert!(rest.is_empty());
    let request = request.unwrap();
    assert_eq!(request.method, Method::Get);
    assert_eq!(request.target, "/");
}

#[test]
fn carriage_return_at_end_is_incomplete() {
    let input = b"GET / HTTP/1.1\r";
    let (rest, request) = Request::parse_header(input).unwrap();
    assert_eq!(rest, input);
    assert!(request.is_none());
}

#[test]
fn empty_input_is_incomplete() {
    let (rest, request) = Request::parse_header(b"").unwrap();
    assert!(rest.is_empty());
    assert!(request.is_none());
}

#[test]
fn unknown_method_is_an_error() {
    let parsed = Request::parse_header(b"FOO / HTTP/1.1\r\n\r\n");
    assert_eq!(parsed.unwrap_err(), Error::InvalidMethod);
}

#[test]
fn unknown_method_is_an_error_before_the_block_ends() {
    let parsed = Request::parse_header(b"FOO / HTTP/1.1\r\nHost: x");
    assert_eq!(parsed.unwrap_err(), Error::InvalidMethod);
}

#[test]
fn lower_case_method_is_an_error() {
    let parsed = Request::parse_header(b"get / HTTP/1.1\r\n\r\n");
    assert_eq!(parsed.unwrap_err(), Error::InvalidMethod);
}

#[test]
fn start_line_with_one_space_is_malformed() {
    let parsed = Request::parse_header(b"GET /HTTP/1.1\r\n\r\n");
    assert_eq!(parsed.unwrap_err(), Error::MalformedStartLine);
}

#[test]
fn start_line_without_space_is_malformed() {
    let parsed = Request::parse_header(b"GET\r\n\r\n");
    assert_eq!(parsed.unwrap_err(), Error::MalformedStartLine);
}

#[test]
fn empty_start_line_is_malformed() {
    let parsed = Request::parse_header(b"\r\n\r\n");
    assert_eq!(parsed.unwrap_err(), Error::MalformedStartLine);
}

#[test]
fn other_version_is_unsupported() {
    let parsed = Request::parse_header(b"GET / HTTP/1.0\r\n\r\n");
    assert_eq!(parsed.unwrap_err(), Error::UnsupportedVersion);
}

#[test]
fn version_is_judged_before_method() {
    let parsed = Request::parse_header(b"FOO / HTTP/2\r\n\r\n");
    assert_eq!(parsed.unwrap_err(), Error::UnsupportedVersion);
}

#[test]
fn fourth_field_is_part_of_the_version() {
    let parsed = Request::parse_header(b"GET / HTTP/1.1 extra\r\n\r\n");
    assert_eq!(parsed.unwrap_err(), Error::UnsupportedVersion);
}

#[test]
fn empty_target_is_accepted() {
    let (_, request) = Request::parse_header(b"GET  HTTP/1.1\r\n\r\n").unwrap();
    assert_eq!(request.unwrap().target, "");
}

#[test]
fn header_without_separator_is_malformed() {
    let parsed = Request::parse_header(b"GET / HTTP/1.1\r\nHost:localhost\r\n\r\n");
    assert_eq!(parsed.unwrap_err(), Error::MalformedHeader);
}

#[test]
fn header_value_may_hold_the_separator() {
    let (_, request) = Request::parse_header(b"GET / HTTP/1.1\r\nA: b: c\r\n\r\n").unwrap();
    assert_eq!(request.unwrap().headers.get("A"), Some(&"b: c"));
}

#[test]
fn header_names_are_compared_exactly() {
    let (_, request) = Request::parse_header(b"GET / HTTP/1.1\r\nhost: a\r\n\r\n").unwrap();
    let request = request.unwrap();
    assert_eq!(request.headers.get("Host"), None);
    assert_eq!(request.headers.get("host"), Some(&"a"));
}

#[test]
fn last_header_of_a_name_wins() {
    let input = b"GET / HTTP/1.1\r\nA: 1\r\nB: 2\r\nA: 3\r\n\r\n";
    let (_, request) = Request::parse_header(input).unwrap();
    let request = request.unwrap();
    assert_eq!(request.headers.len(), 2);
    assert_eq!(request.headers.get("A"), Some(&"3"));
    assert_eq!(request.headers.get("B"), Some(&"2"));
    assert_eq!(request.headers.field(0), Some((&"A", &"3")));
    assert_eq!(request.headers.field(1), Some((&"B", &"2")));
    assert_eq!(request.headers.field(2), None);
}

#[test]
fn bare_carriage_return_is_an_error() {
    let parsed = Request::parse_header(b"GET / HTTP/1.1\rX\r\n\r\n");
    assert_eq!(parsed.unwrap_err(), Error::MalformedLineEnding);
}

#[test]
fn line_that_is_not_utf8_is_an_error() {
    let parsed = Request::parse_header(b"GET /\xff HTTP/1.1\r\n\r\n");
    assert_eq!(parsed.unwrap_err(), Error::InvalidUtf8);
}

#[test]
fn target_may_hold_text_beyond_ascii() {
    let input = "GET /caf\u{e9} HTTP/1.1\r\nX: \u{4e16}\u{754c}\r\n\r\n".as_bytes();
    let (_, request) = Request::parse_header(input).unwrap();
    let request = request.unwrap();
    assert_eq!(request.target, "/caf\u{e9}");
    assert_eq!(request.headers.get("X"), Some(&"\u{4e16}\u{754c}"));
}

#[test]
fn content_length_sets_body_len() {
    let input = b"POST /x HTTP/1.1\r\nContent-Length: 1234\r\n\r\n";
    let (_, request) = Request::parse_header(input).unwrap();
    let request = request.unwrap();
    assert_eq!(request.method, Method::Post);
    assert_eq!(request.body_len, 1234);
}

#[test]
fn content_length_may_have_a_plus_sign_and_zeros() {
    let input = b"POST /x HTTP/1.1\r\nContent-Length: +007\r\n\r\n";
    let (_, request) = Request::parse_header(input).unwrap();
    assert_eq!(request.unwrap().body_len, 7);
}

#[test]
fn last_content_length_wins() {
    let input = b"POST /x HTTP/1.1\r\nContent-Length: 1\r\nContent-Length: 22\r\n\r\n";
    let (_, request) = Request::parse_header(input).unwrap();
    assert_eq!(request.unwrap().body_len, 22);
}

#[test]
fn content_length_that_is_no_number_is_an_error() {
    let parsed = Request::parse_header(b"POST /x HTTP/1.1\r\nContent-Length: abc\r\n\r\n");
    assert_eq!(parsed.unwrap_err(), Error::InvalidContentLength);
    let parsed = Request::parse_header(b"POST /x HTTP/1.1\r\nContent-Length: \r\n\r\n");
    assert_eq!(parsed.unwrap_err(), Error::InvalidContentLength);
    let parsed = Request::parse_header(b"POST /x HTTP/1.1\r\nContent-Length: -1\r\n\r\n");
    assert_eq!(parsed.unwrap_err(), Error::InvalidContentLength);
    let parsed = Request::parse_header(b"POST /x HTTP/1.1\r\nContent-Length: 3 \r\n\r\n");
    assert_eq!(parsed.unwrap_err(), Error::InvalidContentLength);
}

#[test]
fn content_length_that_is_too_large_is_an_error() {
    let input = b"POST /x HTTP/1.1\r\nContent-Length: 99999999999999999999999999\r\n\r\n";
    assert_eq!(Request::parse_header(input).unwrap_err(), Error::InvalidContentLength);
}

#[test]
fn content_length_is_judged_when_the_block_ends() {
    let input = b"POST /x HTTP/1.1\r\nContent-Length: abc\r\n";
    let (rest, request) = Request::parse_header(input).unwrap();
    assert_eq!(rest, input);
    assert!(request.is_none());
}

#[test]
fn bytes_after_the_head_come_back() {
    let input = b"POST /x HTTP/1.1\r\nContent-Length: 10\r\n\r\nhello\r\nwor";
    let (rest, request) = Request::parse_header(input).unwrap();
    assert_eq!(rest, b"hello\r\nwor");
    assert_eq!(request.unwrap().body_len, 10);
}

#[test]
fn every_split_comes_to_the_same_head() {
    let whole: &[u8] =
        b"PUT /a/b?c=d HTTP/1.1\r\nHost: h\r\nContent-Length: 4\r\nHost: i\r\n\r\nbody";
    let (_, expected) = Request::parse_header(whole).unwrap();
    let expected = expected.unwrap();
    for cut in 0..whole.len() {
        let mut buffer: Vec<u8> = Vec::new();
        buffer.extend_from_slice(&whole[..cut]);
        let early = match Request::parse_header(&buffer).unwrap() {
            (_, Some(request)) => Some((
                request.method,
                request.target.to_string(),
                request.headers.len(),
                request.headers.get("Host").map(|v| v.to_string()),
                request.body_len,
            )),
            (rest, None) => {
                assert_eq!(rest, &buffer[..]);
                None
            }
        };
        buffer.extend_from_slice(&whole[cut..]);
        let (_, late) = Request::parse_header(&buffer).unwrap();
        let late = late.unwrap();
        let late = (
            late.method,
            late.target.to_string(),
            late.headers.len(),
            late.headers.get("Host").map(|v| v.to_string()),
            late.body_len,
        );
        assert_eq!(late.0, expected.method);
        assert_eq!(late.1, expected.target);
        assert_eq!(late.2, 2);
        assert_eq!(late.3, Some("i".to_string()));
        assert_eq!(late.4, 4);
        if let Some(early) = early {
            assert_eq!(early, late);
            assert!(cut >= whole.len() - 4);
        } else {
            assert!(cut < whole.len() - 4);
        }
    }
}

#[test]
fn feeding_byte_by_byte_comes_to_the_same_head() {
    let whole: &[u8] = b"DELETE /item/7 HTTP/1.1\r\nA: 1\r\nB: 2\r\n\r\n";
    let mut buffer: Vec<u8> = Vec::new();
    let mut result = None;
    for byte in whole {
        buffer.push(*byte);
        if let (_, Some(request)) = Request::parse_header(&buffer).unwrap() {
            result = Some((
                request.method,
                request.target.to_string(),
                request.headers.len(),
                request.body_len,
            ));
            break;
        }
    }
    assert_eq!(buffer.len(), whole.len());
    assert_eq!(result, Some((Method::Delete, "/item/7".to_string(), 2, 0)));
}

#[test]
fn advance_asks_for_more_while_the_head_is_incomplete() {
    assert!(matches!(advance(b"GET / HT"), Ok(Step::ReadMore)));
}

#[test]
fn advance_hands_errors_on() {
    assert_eq!(advance(b"FOO / HTTP/1.1\r\n\r\n").unwrap_err(), Error::InvalidMethod);
}

#[test]
fn advance_responds_without_body() {
    match advance(b"GET /x HTTP/1.1\r\n\r\nextra").unwrap() {
        Step::Respond(request) => {
            assert_eq!(request.target, "/x");
            assert!(request.body.is_none());
        }
        _ => panic!("the request is complete"),
    }
}

#[test]
fn advance_attaches_a_body_that_has_come() {
    match advance(b"POST /x HTTP/1.1\r\nContent-Length: 3\r\n\r\nfoobar").unwrap() {
        Step::Respond(request) => {
            assert_eq!(request.body_len, 3);
            assert_eq!(request.body.unwrap(), b"foo");
        }
        _ => panic!("the request is complete"),
    }
}

#[test]
fn advance_says_how_much_of_the_body_is_missing() {
    match advance(b"POST /x HTTP/1.1\r\nContent-Length: 10\r\n\r\nfoo").unwrap() {
        Step::ReadBody { request, received, missing } => {
            assert_eq!(request.body_len, 10);
            assert!(request.body.is_none());
            assert_eq!(received, b"foo");
            assert_eq!(missing, 7);
        }
        _ => panic!("the body is incomplete"),
    }
}
