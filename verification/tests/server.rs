use mcserver_handler::server::{body_length, head_complete, parse_stream, ParseError};

fn error_of(bytes: &[u8]) -> Option<ParseError> {
    parse_stream(bytes).err()
}

#[test]
fn parses_a_get_request() {
    let stream = parse_stream(
        b"GET /console HTTP/1.1\r\nHost: example\r\nCookie: login=42; theme=dark\r\n\r\n",
    )
    .unwrap();
    assert_eq!(stream.get_request(), "GET /console HTTP/1.1");
    assert_eq!(stream.request, "GET /console HTTP/1.1");
    assert_eq!(stream.get_header("Host"), Some("example".to_string()));
    assert_eq!(stream.get_header("Cookie"), Some("login=42; theme=dark".to_string()));
    assert_eq!(stream.get_cookie("login"), Some("42".to_string()));
    assert_eq!(stream.get_cookie("theme"), Some("dark".to_string()));
    assert_eq!(stream.get_cookie("Host"), None);
    assert_eq!(stream.get_content("command"), None);
}

#[test]
fn header_names_are_taken_as_received() {
    let stream = parse_stream(b"GET / HTTP/1.1\r\nhost: a\r\nHOST: b\r\n\r\n").unwrap();
    assert_eq!(stream.get_header("host"), Some("a".to_string()));
    assert_eq!(stream.get_header("HOST"), Some("b".to_string()));
    assert_eq!(stream.get_header("Host"), None);
}

#[test]
fn a_header_is_cut_at_its_first_separator() {
    let stream = parse_stream(b"GET / HTTP/1.1\r\nReferer: http://a: b\r\n\r\n").unwrap();
    assert_eq!(stream.get_header("Referer"), Some("http://a: b".to_string()));
}

#[test]
fn a_later_header_replaces_an_earlier_one() {
    let stream = parse_stream(b"GET / HTTP/1.1\r\nX: 1\r\nY: 2\r\nX: 3\r\n\r\n").unwrap();
    assert_eq!(stream.get_header("X"), Some("3".to_string()));
    assert_eq!(stream.get_header("Y"), Some("2".to_string()));
}

#[test]
fn lines_are_trimmed() {
    let stream = parse_stream(b"  GET / HTTP/1.1 \r\n\t Host: a \r\n\r\n").unwrap();
    assert_eq!(stream.get_request(), "GET / HTTP/1.1");
    assert_eq!(stream.get_header("Host"), Some("a".to_string()));
}

#[test]
fn the_request_line_is_kept_as_it_is() {
    let stream = parse_stream(b"get  /Console?x=1 http/1.0\r\n\r\n").unwrap();
    assert_eq!(stream.get_request(), "get  /Console?x=1 http/1.0");
}

#[test]
fn lines_may_end_in_a_bare_line_feed() {
    let stream = parse_stream(b"GET / HTTP/1.1\nHost: a\n\r\n").unwrap();
    assert_eq!(stream.get_request(), "GET / HTTP/1.1");
    assert_eq!(stream.get_header("Host"), Some("a".to_string()));
}

#[test]
fn parses_a_body_sent_as_lines() {
    let bytes = b"POST / HTTP/1.1\r\nContent-Length: 33\r\n\r\nusername=admin\r\npassword=secret\r\n";
    assert!(head_complete(bytes));
    assert_eq!(body_length(bytes), Ok(33));
    let stream = parse_stream(bytes).unwrap();
    assert_eq!(stream.get_content("username"), Some("admin".to_string()));
    assert_eq!(stream.get_content("password"), Some("secret".to_string()));
    assert_eq!(stream.get_content("login"), None);
}

#[test]
fn parses_a_body_sent_as_a_form() {
    let bytes = b"POST / HTTP/1.1\r\nContent-Type: application/x-www-form-urlencoded\r\nContent-Length: 30\r\n\r\nusername=admin&password=secret";
    let stream = parse_stream(bytes).unwrap();
    assert_eq!(stream.get_content("username"), Some("admin".to_string()));
    assert_eq!(stream.get_content("password"), Some("secret".to_string()));
}

#[test]
fn a_body_of_another_type_is_read_as_lines() {
    let bytes = b"POST / HTTP/1.1\r\nContent-Type: text/plain\r\nContent-Length: 30\r\n\r\nusername=admin&password=secret";
    let stream = parse_stream(bytes).unwrap();
    assert_eq!(stream.get_content("username"), Some("admin&password=secret".to_string()));
    assert_eq!(stream.get_content("password"), None);
}

#[test]
fn a_field_is_cut_at_its_first_equals_sign() {
    let bytes = b"POST /console HTTP/1.1\r\nContent-Length: 16\r\n\r\ncommand=say a=b\n";
    let stream = parse_stream(bytes).unwrap();
    assert_eq!(stream.get_content("command"), Some("say a=b".to_string()));
}

#[test]
fn bytes_behind_the_body_are_not_looked_at() {
    let bytes = b"POST / HTTP/1.1\r\nContent-Length: 3\r\n\r\na=1\xff\xfe garbage";
    let stream = parse_stream(bytes).unwrap();
    assert_eq!(stream.get_content("a"), Some("1".to_string()));
}

#[test]
fn without_a_declared_length_there_are_no_fields() {
    let bytes = b"POST / HTTP/1.1\r\nHost: a\r\n\r\nusername=admin";
    assert_eq!(body_length(bytes), Ok(0));
    let stream = parse_stream(bytes).unwrap();
    assert_eq!(stream.get_content("username"), None);
}

#[test]
fn text_beyond_ascii_is_kept() {
    let body = "command=say h\u{e9}llo \u{1f600}";
    let text = format!("POST /console HTTP/1.1\r\nContent-Length: {}\r\nX-Name: J\u{fc}rgen\r\n\r\n{}", body.len(), body);
    let stream = parse_stream(text.as_bytes()).unwrap();
    assert_eq!(stream.get_content("command"), Some("say h\u{e9}llo \u{1f600}".to_string()));
    assert_eq!(stream.get_header("X-Name"), Some("J\u{fc}rgen".to_string()));
}

#[test]
fn a_head_without_its_closing_line_is_an_error() {
    assert_eq!(error_of(b""), Some(ParseError::UnterminatedHead));
    assert_eq!(error_of(b"GET / HTTP/1.1"), Some(ParseError::UnterminatedHead));
    assert_eq!(error_of(b"GET / HTTP/1.1\r\n"), Some(ParseError::UnterminatedHead));
    assert_eq!(error_of(b"GET / HTTP/1.1\r\nHost: a\r\n"), Some(ParseError::UnterminatedHead));
    assert_eq!(error_of(b"GET / HTTP/1.1\r\nHost: a\r\n\r"), Some(ParseError::UnterminatedHead));
    assert_eq!(error_of(b"GET / HTTP/1.1\r\nHost: a\r\n\n"), Some(ParseError::UnterminatedHead));
    assert_eq!(error_of(b"GET / HTTP/1.1 \r\n"), Some(ParseError::UnterminatedHead));
    assert!(!head_complete(b"GET / HTTP/1.1\r\nHost: a\r\n"));
    assert_eq!(body_length(b"GET / HTTP/1.1\r\nHost: a\r\n"), Err(ParseError::UnterminatedHead));
}

#[test]
fn every_truncation_of_a_head_is_an_error() {
    let whole = b"GET /console HTTP/1.1\r\nHost: example\r\nCookie: login=42\r\n\r\n";
    assert!(parse_stream(whole).is_ok());
    for n in 0..whole.len() {
        assert_eq!(error_of(&whole[..n]), Some(ParseError::UnterminatedHead), "{}", n);
    }
}

#[test]
fn a_head_that_is_no_text_is_an_error() {
    assert_eq!(error_of(b"GET /\xff HTTP/1.1\r\n\r\n"), Some(ParseError::InvalidText));
    assert_eq!(error_of(b"GET / HTTP/1.1\r\nX: \xc3\r\n\r\n"), Some(ParseError::InvalidText));
}

#[test]
fn a_head_without_a_request_line_is_an_error() {
    assert_eq!(error_of(b"\r\n"), Some(ParseError::MissingRequestLine));
    assert_eq!(error_of(b"\r\nGET / HTTP/1.1\r\n\r\n"), Some(ParseError::MissingRequestLine));
}

#[test]
fn a_header_without_separator_is_an_error() {
    assert_eq!(error_of(b"GET / HTTP/1.1\r\nHost\r\n\r\n"), Some(ParseError::MalformedHeader));
    assert_eq!(error_of(b"GET / HTTP/1.1\r\nHost:a\r\n\r\n"), Some(ParseError::MalformedHeader));
    assert_eq!(error_of(b"GET / HTTP/1.1\r\n \r\n\r\n"), Some(ParseError::MalformedHeader));
    assert_eq!(error_of(b"GET / HTTP/1.1\r\nHost: a\r\n\n\r\n"), Some(ParseError::MalformedHeader));
    assert_eq!(error_of(b"GET / HTTP/1.1\r\nCookie: \r\n\r\n"), Some(ParseError::MalformedHeader));
}

#[test]
fn a_cookie_without_value_is_an_error() {
    assert_eq!(error_of(b"GET / HTTP/1.1\r\nCookie: login\r\n\r\n"), Some(ParseError::MalformedCookie));
    assert_eq!(error_of(b"GET / HTTP/1.1\r\nCookie: a=1; b\r\n\r\n"), Some(ParseError::MalformedCookie));
    assert_eq!(error_of(b"GET / HTTP/1.1\r\nCookie: a=1;b=2\r\n\r\n"), None);
}

#[test]
fn a_length_that_is_no_number_is_an_error() {
    for value in ["abc", "-1", "1.5", "12 3", "0x10", "99999999999999999999999999"] {
        let text = format!("POST / HTTP/1.1\r\nContent-Length: {}\r\n\r\na=1", value);
        assert_eq!(error_of(text.as_bytes()), Some(ParseError::InvalidLength), "{}", value);
        assert_eq!(body_length(text.as_bytes()), Err(ParseError::InvalidLength), "{}", value);
    }
}

#[test]
fn a_body_shorter_than_declared_is_an_error() {
    assert_eq!(error_of(b"POST / HTTP/1.1\r\nContent-Length: 4\r\n\r\na=1"), Some(ParseError::TruncatedBody));
    assert_eq!(error_of(b"POST / HTTP/1.1\r\nContent-Length: 1\r\n\r\n"), Some(ParseError::TruncatedBody));
    assert_eq!(body_length(b"POST / HTTP/1.1\r\nContent-Length: 4\r\n\r\na=1"), Ok(4));
}

#[test]
fn a_body_that_is_no_text_is_an_error() {
    assert_eq!(error_of(b"POST / HTTP/1.1\r\nContent-Length: 3\r\n\r\na=\xff"), Some(ParseError::InvalidText));
}

#[test]
fn a_field_without_value_is_an_error() {
    assert_eq!(error_of(b"POST / HTTP/1.1\r\nContent-Length: 5\r\n\r\nadmin"), Some(ParseError::MalformedField));
    assert_eq!(error_of(b"POST / HTTP/1.1\r\nContent-Length: 0\r\n\r\n"), Some(ParseError::MalformedField));
    assert_eq!(error_of(b"POST / HTTP/1.1\r\nContent-Length: 8\r\n\r\na=1\r\n\r\nb"), Some(ParseError::MalformedField));
}

#[test]
fn an_error_leaves_the_next_request_alone() {
    assert!(parse_stream(b"GET / HTTP/1.1\r\nbroken\r\n\r\n").is_err());
    let stream = parse_stream(b"GET / HTTP/1.1\r\nHost: a\r\n\r\n").unwrap();
    assert_eq!(stream.get_header("Host"), Some("a".to_string()));
    assert_eq!(stream.get_header("broken"), None);
}

#[test]
fn writes_a_response() {
    let stream = parse_stream(b"GET / HTTP/1.1\r\n\r\n").unwrap();
    let text = stream.write_request("HTTP/1.1 303 See Other", "", vec!["Location: /"]);
    assert_eq!(text, "HTTP/1.1 303 See Other\r\nLocation: /\r\nContent-Length: 0\r\n\r\n");
}

#[test]
fn the_length_of_a_response_counts_bytes() {
    let stream = parse_stream(b"GET / HTTP/1.1\r\n\r\n").unwrap();
    let text = stream.write_request("HTTP/1.1 200 OK", "h\u{e9}llo w\u{f6}rld!", vec![]);
    assert_eq!(text, "HTTP/1.1 200 OK\r\nContent-Length: 14\r\n\r\nh\u{e9}llo w\u{f6}rld!");
}

#[test]
fn header_lines_of_a_response_keep_their_order() {
    let stream = parse_stream(b"GET / HTTP/1.1\r\n\r\n").unwrap();
    let text = stream.write_request("HTTP/1.1 200 OK", "0123456789", vec!["A: 1", "B: 2", "A: 3"]);
    assert_eq!(text, "HTTP/1.1 200 OK\r\nA: 1\r\nB: 2\r\nA: 3\r\nContent-Length: 10\r\n\r\n0123456789");
}

#[test]
fn a_written_response_body_is_read_back_by_its_length() {
    let stream = parse_stream(b"GET / HTTP/1.1\r\n\r\n").unwrap();
    let text = stream.write_request("POST / HTTP/1.1", "a=1\r\nb=2", vec!["Host: x"]);
    let again = parse_stream(text.as_bytes()).unwrap();
    assert_eq!(again.get_header("Content-Length"), Some("8".to_string()));
    assert_eq!(again.get_content("a"), Some("1".to_string()));
    assert_eq!(again.get_content("b"), Some("2".to_string()));
}
