use life_server::decimal::parse_decimal;
use life_server::decimal::write_decimal;
use life_server::request::content_length;
use life_server::request::header_field;
use life_server::request::split_message;
use life_server::scan::find;
use life_server::scan::matches_at;
use life_server::scan::same_bytes;
use life_server::scan::split;
use life_server::Method;
use life_server::Request;
use life_server::RequestLine;
use life_server::ServiceError;

fn bytes(text: &str) -> Vec<u8> {
    text.as_bytes().to_vec()
}

fn error_of(buffer: &[u8]) -> ServiceError {
    match Request::new(buffer) {
        Ok(_) => panic!("the buffer was read as a request"),
        Err(error) => error,
    }
}

#[test]
fn same_bytes_compares_contents() {
    assert!(same_bytes(b"abc", b"abc"));
    assert!(same_bytes(b"", b""));
    assert!(!same_bytes(b"abc", b"abd"));
    assert!(!same_bytes(b"abc", b"ab"));
    assert!(!same_bytes(b"", b"a"));
}

#[test]
fn matches_at_checks_one_position() {
    assert!(matches_at(b"hello", b"ll", 2));
    assert!(!matches_at(b"hello", b"ll", 1));
    assert!(!matches_at(b"hello", b"lo", 4));
    assert!(matches_at(b"hello", b"", 5));
    assert!(!matches_at(b"hello", b"", 6));
    assert!(!matches_at(b"hi", b"hello", 0));
}

#[test]
fn find_gives_the_leftmost_occurrence() {
    assert_eq!(find(b"a\r\n\r\nb\r\n\r\n", b"\r\n\r\n"), Some(1));
    assert_eq!(find(b"abcabc", b"bc"), Some(1));
    assert_eq!(find(b"abcabc", b"abcabc"), Some(0));
    assert_eq!(find(b"abc", b"abcd"), None);
    assert_eq!(find(b"abc", b"x"), None);
    assert_eq!(find(b"", b"x"), None);
    assert_eq!(find(b"abc", b""), Some(0));
    assert_eq!(find(b"", b""), Some(0));
    assert_eq!(find(b"aab", b"ab"), Some(1));
}

#[test]
fn split_cuts_at_every_separator() {
    let expected: Vec<&[u8]> = vec![b"a", b"b", b"c"];
    assert_eq!(split(b"a b c", b" "), expected);
    let expected: Vec<&[u8]> = vec![b"", b"a", b"", b"b", b""];
    assert_eq!(split(b" a  b ", b" "), expected);
    let expected: Vec<&[u8]> = vec![b"abc"];
    assert_eq!(split(b"abc", b"\r\n"), expected);
    let expected: Vec<&[u8]> = vec![b""];
    assert_eq!(split(b"", b"\r\n"), expected);
    let expected: Vec<&[u8]> = vec![b"one", b"two", b""];
    assert_eq!(split(b"one\r\ntwo\r\n", b"\r\n"), expected);
    let expected: Vec<&[u8]> = vec![b"abc"];
    assert_eq!(split(b"abc", b""), expected);
}

#[test]
fn parse_decimal_reads_digits() {
    assert_eq!(parse_decimal(b"0"), Some(0));
    assert_eq!(parse_decimal(b"7"), Some(7));
    assert_eq!(parse_decimal(b"1024"), Some(1024));
    assert_eq!(parse_decimal(b"007"), Some(7));
    assert_eq!(parse_decimal(b"+12"), Some(12));
    assert_eq!(parse_decimal(usize::MAX.to_string().as_bytes()), Some(usize::MAX));
}

#[test]
fn parse_decimal_refuses_everything_else() {
    assert_eq!(parse_decimal(b""), None);
    assert_eq!(parse_decimal(b"+"), None);
    assert_eq!(parse_decimal(b"-1"), None);
    assert_eq!(parse_decimal(b"++1"), None);
    assert_eq!(parse_decimal(b"1+"), None);
    assert_eq!(parse_decimal(b" 1"), None);
    assert_eq!(parse_decimal(b"1 "), None);
    assert_eq!(parse_decimal(b"12a"), None);
    assert_eq!(parse_decimal(b"1.0"), None);
    assert_eq!(parse_decimal(b"0x10"), None);
    assert_eq!(parse_decimal(b"99999999999999999999999999999999999999999"), None);
    let mut too_large = usize::MAX.to_string();
    too_large.push('0');
    assert_eq!(parse_decimal(too_large.as_bytes()), None);
    let digits = usize::MAX.to_string();
    let (head, last) = digits.split_at(digits.len() - 1);
    let bumped = format!("{}{}", head, last.parse::<u8>().unwrap() + 1);
    assert_eq!(parse_decimal(bumped.as_bytes()), None);
}

#[test]
fn parse_decimal_agrees_with_std() {
    for text in ["5", "+5", "-5", "", "+", "05", "5 ", "18446744073709551615", "18446744073709551616"] {
        assert_eq!(parse_decimal(text.as_bytes()), text.parse::<usize>().ok(), "{}", text);
    }
}

#[test]
fn write_decimal_appends_the_digits() {
    let mut out = bytes("n=");
    write_decimal(&mut out, 0);
    assert_eq!(out, b"n=0");
    let mut out = Vec::new();
    write_decimal(&mut out, 9);
    write_decimal(&mut out, 10);
    write_decimal(&mut out, 4059);
    assert_eq!(out, b"9104059");
    let mut out = Vec::new();
    write_decimal(&mut out, usize::MAX);
    assert_eq!(out, usize::MAX.to_string().as_bytes());
}

#[test]
fn decimal_round_trip() {
    for value in [0usize, 1, 9, 10, 99, 100, 101, 65535, 1000000, usize::MAX] {
        let mut out = Vec::new();
        write_decimal(&mut out, value);
        assert_eq!(parse_decimal(&out), Some(value));
    }
}

#[test]
fn method_from_str_knows_four_methods() {
    assert_eq!(Method::from_str("GET"), Ok(Method::GET));
    assert_eq!(Method::from_str("POST"), Ok(Method::POST));
    assert_eq!(Method::from_str("PATCH"), Ok(Method::PATCH));
    assert_eq!(Method::from_str("DELETE"), Ok(Method::DELETE));
}

#[test]
fn method_from_str_refuses_other_names() {
    assert_eq!(Method::from_str("PUT"), Err(ServiceError::UnknownMethod));
    assert_eq!(Method::from_str("get"), Err(ServiceError::UnknownMethod));
    assert_eq!(Method::from_str(""), Err(ServiceError::UnknownMethod));
    assert_eq!(Method::from_str("GET "), Err(ServiceError::UnknownMethod));
    assert_eq!(Method::from_str("UPDATE"), Err(ServiceError::UnknownMethod));
}

#[test]
fn method_from_bytes_matches_byte_for_byte() {
    assert_eq!(Method::from_bytes(b"GET"), Some(Method::GET));
    assert_eq!(Method::from_bytes(b"DELETE"), Some(Method::DELETE));
    assert_eq!(Method::from_bytes(b"GE"), None);
    assert_eq!(Method::from_bytes(b"GETS"), None);
    assert_eq!(Method::from_bytes(b"\xffGET"), None);
}

#[test]
fn request_line_has_three_tokens() {
    let line = RequestLine::new(b"GET /game HTTP/1.1").ok().unwrap();
    assert_eq!(line.method, Method::GET);
    assert_eq!(line.path, b"/game");
    assert_eq!(line.http_version, b"HTTP/1.1");
}

#[test]
fn request_line_takes_the_version_as_it_stands() {
    let line = RequestLine::new(b"DELETE /reset whatever").ok().unwrap();
    assert_eq!(line.method, Method::DELETE);
    assert_eq!(line.path, b"/reset");
    assert_eq!(line.http_version, b"whatever");
}

#[test]
fn request_line_ignores_tokens_after_the_third() {
    let line = RequestLine::new(b"PATCH /game HTTP/1.1 extra tokens").ok().unwrap();
    assert_eq!(line.method, Method::PATCH);
    assert_eq!(line.path, b"/game");
    assert_eq!(line.http_version, b"HTTP/1.1");
}

#[test]
fn request_line_parts_tokens_at_single_spaces() {
    let line = RequestLine::new(b"GET  /game HTTP/1.1").ok().unwrap();
    assert_eq!(line.path, b"");
    assert_eq!(line.http_version, b"/game");
}

#[test]
fn request_line_with_fewer_than_three_tokens_is_malformed() {
    assert!(matches!(RequestLine::new(b"GET /game"), Err(ServiceError::MalformedRequestLine)));
    assert!(matches!(RequestLine::new(b"GET"), Err(ServiceError::MalformedRequestLine)));
    assert!(matches!(RequestLine::new(b""), Err(ServiceError::MalformedRequestLine)));
}

#[test]
fn request_line_with_unknown_method_is_malformed() {
    assert!(matches!(
        RequestLine::new(b"PUT /game HTTP/1.1"),
        Err(ServiceError::MalformedRequestLine)
    ));
    assert!(matches!(
        RequestLine::new(b"get /game HTTP/1.1"),
        Err(ServiceError::MalformedRequestLine)
    ));
}

#[test]
fn split_message_parts_at_the_first_blank_line() {
    let (head, remainder) = split_message(b"head\r\nmore\r\n\r\nbody\r\n\r\nrest");
    assert_eq!(head, b"head\r\nmore");
    assert_eq!(remainder, b"body\r\n\r\nrest");
    let (head, remainder) = split_message(b"no blank line\r\n");
    assert_eq!(head, b"no blank line\r\n");
    assert_eq!(remainder, b"");
    let (head, remainder) = split_message(b"\r\n\r\n");
    assert_eq!(head, b"");
    assert_eq!(remainder, b"");
}

#[test]
fn header_field_parts_at_the_first_separator() {
    let (name, value) = header_field(b"Host: localhost:7878").unwrap();
    assert_eq!(name, b"Host");
    assert_eq!(value, b"localhost:7878");
    let (name, value) = header_field(b"X: a: b").unwrap();
    assert_eq!(name, b"X");
    assert_eq!(value, b"a: b");
    let (name, value) = header_field(b": ").unwrap();
    assert_eq!(name, b"");
    assert_eq!(value, b"");
    assert!(header_field(b"Host:localhost").is_none());
    assert!(header_field(b"").is_none());
}

#[test]
fn request_without_headers() {
    let request = Request::new(b"GET / HTTP/1.1\r\n\r\n").ok().unwrap();
    assert_eq!(request.request_line.method, Method::GET);
    assert_eq!(request.request_line.path, b"/");
    assert_eq!(request.request_line.http_version, b"HTTP/1.1");
    assert_eq!(request.content_type, None);
    assert_eq!(request.user_agent, None);
    assert_eq!(request.accept, None);
    assert_eq!(request.cache_control, None);
    assert_eq!(request.postman_token, None);
    assert_eq!(request.host, None);
    assert_eq!(request.accept_encoding, None);
    assert_eq!(request.connection, None);
    assert_eq!(request.content_length, None);
    assert_eq!(request.body, None);
}

#[test]
fn request_without_blank_line() {
    let request = Request::new(b"GET /game HTTP/1.1").ok().unwrap();
    assert_eq!(request.request_line.path, b"/game");
    assert_eq!(request.body, None);
}

#[test]
fn request_with_every_known_header() {
    let buffer = b"PATCH /game HTTP/1.1\r\n\
Content-Type: application/json\r\n\
User-Agent: agent/1.0\r\n\
Accept: */*\r\n\
Cache-Control: no-cache\r\n\
Postman-Token: abc-123\r\n\
Host: localhost:7878\r\n\
Accept-Encoding: gzip, deflate\r\n\
Connection: keep-alive\r\n\
Content-Length: 11\r\n\
\r\n\
[85,105,125]";
    let request = Request::new(buffer).ok().unwrap();
    assert_eq!(request.request_line.method, Method::PATCH);
    assert_eq!(request.content_type, Some(bytes("application/json")));
    assert_eq!(request.user_agent, Some(bytes("agent/1.0")));
    assert_eq!(request.accept, Some(bytes("*/*")));
    assert_eq!(request.cache_control, Some(bytes("no-cache")));
    assert_eq!(request.postman_token, Some(bytes("abc-123")));
    assert_eq!(request.host, Some(bytes("localhost:7878")));
    assert_eq!(request.accept_encoding, Some(bytes("gzip, deflate")));
    assert_eq!(request.connection, Some(bytes("keep-alive")));
    assert_eq!(request.content_length, Some(11));
    assert_eq!(request.body, Some(bytes("[85,105,125")));
}

#[test]
fn accept_does_not_overwrite_user_agent() {
    let request = Request::new(b"GET / HTTP/1.1\r\nUser-Agent: ua\r\nAccept: text/html\r\n\r\n")
        .ok()
        .unwrap();
    assert_eq!(request.user_agent, Some(bytes("ua")));
    assert_eq!(request.accept, Some(bytes("text/html")));
}

#[test]
fn later_header_overwrites_earlier_one() {
    let request = Request::new(
        b"GET / HTTP/1.1\r\nHost: first\r\nContent-Length: 1\r\nHost: second\r\nContent-Length: 3\r\n\r\nabcdef",
    )
    .ok()
    .unwrap();
    assert_eq!(request.host, Some(bytes("second")));
    assert_eq!(request.content_length, Some(3));
    assert_eq!(request.body, Some(bytes("abc")));
}

#[test]
fn unknown_headers_are_ignored() {
    let request = Request::new(b"GET / HTTP/1.1\r\nX-Custom: 1\r\nhost: lower\r\n\r\n").ok().unwrap();
    assert_eq!(request.host, None);
    assert_eq!(request.content_length, None);
}

#[test]
fn header_value_keeps_later_separators() {
    let request = Request::new(b"GET / HTTP/1.1\r\nHost: a: b: c\r\n\r\n").ok().unwrap();
    assert_eq!(request.host, Some(bytes("a: b: c")));
}

#[test]
fn body_is_framed_by_content_length() {
    let request = Request::new(b"POST /x HTTP/1.1\r\nContent-Length: 5\r\n\r\nhello world").ok().unwrap();
    assert_eq!(request.body, Some(bytes("hello")));
    let request = Request::new(b"POST /x HTTP/1.1\r\nContent-Length: 0\r\n\r\nhello").ok().unwrap();
    assert_eq!(request.body, Some(bytes("")));
    let request = Request::new(b"POST /x HTTP/1.1\r\nContent-Length: 11\r\n\r\nhello world").ok().unwrap();
    assert_eq!(request.body, Some(bytes("hello world")));
}

#[test]
fn short_body_is_taken_as_it_is() {
    let request = Request::new(b"POST /x HTTP/1.1\r\nContent-Length: 50\r\n\r\nhello").ok().unwrap();
    assert_eq!(request.content_length, Some(50));
    assert_eq!(request.body, Some(bytes("hello")));
}

#[test]
fn body_without_content_length_is_absent() {
    let request = Request::new(b"POST /x HTTP/1.1\r\nHost: h\r\n\r\nhello").ok().unwrap();
    assert_eq!(request.content_length, None);
    assert_eq!(request.body, None);
}

#[test]
fn content_length_without_blank_line_gives_an_empty_body() {
    let request = Request::new(b"POST /x HTTP/1.1\r\nContent-Length: 5").ok().unwrap();
    assert_eq!(request.content_length, Some(5));
    assert_eq!(request.body, Some(bytes("")));
}

#[test]
fn body_is_cut_by_bytes_not_characters() {
    // "héllo" is six bytes: é takes two.
    let request = Request::new("POST /x HTTP/1.1\r\nContent-Length: 2\r\n\r\nhéllo".as_bytes())
        .ok()
        .unwrap();
    assert_eq!(request.body, Some(vec![b'h', 0xc3]));
    let request = Request::new("POST /x HTTP/1.1\r\nContent-Length: 6\r\n\r\nhéllo!".as_bytes())
        .ok()
        .unwrap();
    assert_eq!(request.body, Some(bytes("héllo")));
}

#[test]
fn body_may_hold_blank_lines_and_any_bytes() {
    let request = Request::new(b"POST /x HTTP/1.1\r\nContent-Length: 9\r\n\r\na\r\n\r\nb\x00\xff\x80rest")
        .ok()
        .unwrap();
    assert_eq!(request.body, Some(b"a\r\n\r\nb\x00\xff\x80".to_vec()));
}

#[test]
fn malformed_request_line_fails_the_request() {
    assert_eq!(error_of(b"GET /game\r\n\r\n"), ServiceError::MalformedRequestLine);
    assert_eq!(error_of(b""), ServiceError::MalformedRequestLine);
    assert_eq!(error_of(b"\r\n\r\n"), ServiceError::MalformedRequestLine);
    assert_eq!(error_of(b"BREW /pot HTCPCP/1.0\r\n\r\n"), ServiceError::MalformedRequestLine);
}

#[test]
fn header_without_separator_fails_the_request() {
    assert_eq!(error_of(b"GET / HTTP/1.1\r\nHost\r\n\r\n"), ServiceError::MalformedHeader);
    assert_eq!(error_of(b"GET / HTTP/1.1\r\nHost:x\r\n\r\n"), ServiceError::MalformedHeader);
    assert_eq!(error_of(b"GET / HTTP/1.1\r\n"), ServiceError::MalformedHeader);
    assert_eq!(error_of(b"GET / HTTP/1.1\r\nHost: x\r\n"), ServiceError::MalformedHeader);
}

#[test]
fn bad_content_length_fails_the_request() {
    assert_eq!(error_of(b"GET / HTTP/1.1\r\nContent-Length: abc\r\n\r\n"), ServiceError::InvalidContentLength);
    assert_eq!(error_of(b"GET / HTTP/1.1\r\nContent-Length: -1\r\n\r\n"), ServiceError::InvalidContentLength);
    assert_eq!(error_of(b"GET / HTTP/1.1\r\nContent-Length: \r\n\r\n"), ServiceError::InvalidContentLength);
    assert_eq!(error_of(b"GET / HTTP/1.1\r\nContent-Length: 5 \r\n\r\n"), ServiceError::InvalidContentLength);
    assert_eq!(
        error_of(b"GET / HTTP/1.1\r\nContent-Length: 99999999999999999999999999\r\n\r\n"),
        ServiceError::InvalidContentLength
    );
}

#[test]
fn first_error_in_order_is_reported() {
    assert_eq!(
        error_of(b"GET /\r\nHost\r\nContent-Length: x\r\n\r\n"),
        ServiceError::MalformedRequestLine
    );
    assert_eq!(
        error_of(b"GET / HTTP/1.1\r\nHost\r\nContent-Length: x\r\n\r\n"),
        ServiceError::MalformedHeader
    );
    assert_eq!(
        error_of(b"GET / HTTP/1.1\r\nContent-Length: x\r\nHost\r\n\r\n"),
        ServiceError::InvalidContentLength
    );
    assert_eq!(
        error_of(b"GET / HTTP/1.1\r\nContent-Length: x\r\nContent-Length: 1\r\n\r\n"),
        ServiceError::InvalidContentLength
    );
}

#[test]
fn set_property_by_string_sets_known_fields_only() {
    let mut request = Request::new(b"GET / HTTP/1.1").ok().unwrap();
    assert_eq!(request.set_property_by_string(b"Host", b"example"), Ok(()));
    assert_eq!(request.host, Some(bytes("example")));
    assert_eq!(request.set_property_by_string(b"Content-Length", b"12"), Ok(()));
    assert_eq!(request.content_length, Some(12));
    assert_eq!(request.set_property_by_string(b"Nothing", b"12"), Ok(()));
    assert_eq!(
        request.set_property_by_string(b"Content-Length", b"twelve"),
        Err(ServiceError::InvalidContentLength)
    );
    assert_eq!(request.content_length, Some(12));
    assert_eq!(request.host, Some(bytes("example")));
    assert_eq!(request.body, None);
}

#[test]
fn read_headers_stops_at_the_first_bad_line() {
    let mut request = Request::new(b"GET / HTTP/1.1").ok().unwrap();
    let lines: Vec<&[u8]> = vec![b"Host: a", b"Connection: close"];
    assert_eq!(request.read_headers(&lines), Ok(()));
    assert_eq!(request.host, Some(bytes("a")));
    assert_eq!(request.connection, Some(bytes("close")));
    let lines: Vec<&[u8]> = vec![b"Host: b", b"broken", b"Connection: open"];
    assert_eq!(request.read_headers(&lines), Err(ServiceError::MalformedHeader));
    assert_eq!(request.connection, Some(bytes("close")));
}

#[test]
fn content_length_reads_the_header_of_any_message() {
    assert_eq!(content_length(b"HTTP/1.1 200 OK\r\nContent-Length: 42\r\n\r\nbody"), Ok(Some(42)));
    assert_eq!(content_length(b"GET / HTTP/1.1\r\nHost: x\r\n\r\n"), Ok(None));
    assert_eq!(content_length(b"anything at all"), Ok(None));
    assert_eq!(
        content_length(b"HTTP/1.1 200 OK\r\nContent-Length: x\r\n\r\n"),
        Err(ServiceError::InvalidContentLength)
    );
    assert_eq!(content_length(b"HTTP/1.1 200 OK\r\nbroken\r\n\r\n"), Err(ServiceError::MalformedHeader));
    assert_eq!(content_length(b"x\r\n\r\nContent-Length: 4\r\n\r\n"), Ok(None));
}
