use chatgpt_zh_launcher::http::{
    content_length, find_header_end, get_request_text, http_response_complete,
    parse_http_response, HttpError, IntError, ResponseBuffer, DEBUG_HOST, MAX_RESPONSE_BYTES,
};

#[test]
fn parses_complete_http_body_without_waiting_for_disconnect() {
    let body = r#"[{"type":"page"}]"#;
    let response = format!(
        "HTTP/1.1 200 OK\r\nContent-Type: application/json\r\nContent-Length: {}\r\n\r\n{}",
        body.len(),
        body
    );
    assert!(http_response_complete(response.as_bytes()).unwrap());
    assert_eq!(parse_http_response(response.as_bytes()).unwrap(), body);
}

#[test]
fn rejects_truncated_http_body() {
    let response = b"HTTP/1.1 200 OK\r\nContent-Length: 9\r\n\r\n{}";
    assert!(!http_response_complete(response).unwrap());
    assert!(parse_http_response(response).is_err());
}

#[test]
fn truncated_body_is_reported_as_incomplete() {
    let response = b"HTTP/1.1 200 OK\r\nContent-Length: 9\r\n\r\n{}";
    assert!(matches!(parse_http_response(response), Err(HttpError::IncompleteBody)));
}

#[test]
fn header_end_is_the_first_blank_line() {
    assert_eq!(find_header_end(b"a\r\n\r\nb\r\n\r\n"), Some(1));
    assert_eq!(find_header_end(b"\r\n\r"), None);
    assert_eq!(find_header_end(b""), None);
}

#[test]
fn content_length_is_found_in_any_case_after_the_status_line() {
    assert_eq!(content_length("HTTP/1.1 200 OK\r\ncontent-LENGTH :  42 ").unwrap(), Some(42));
    assert_eq!(content_length("HTTP/1.1 200 OK\r\nContent-Type: x").unwrap(), None);
    assert_eq!(content_length("Content-Length: 5").unwrap(), None);
    assert_eq!(content_length("HTTP/1.1 200 OK\nX: 1\nContent-Length: +7\nContent-Length: 8").unwrap(), Some(7));
}

#[test]
fn bad_content_length_values_are_errors() {
    let kind = |h: &str| match content_length(h) {
        Err(HttpError::BadContentLength(k)) => Some(k),
        _ => None,
    };
    assert_eq!(kind("S\r\nContent-Length: "), Some(IntError::Empty));
    assert_eq!(kind("S\r\nContent-Length: 1x"), Some(IntError::InvalidDigit));
    assert_eq!(kind("S\r\nContent-Length: -1"), Some(IntError::InvalidDigit));
    assert_eq!(kind("S\r\nContent-Length: +"), Some(IntError::InvalidDigit));
    assert_eq!(kind("S\r\nContent-Length: 99999999999999999999999x"), Some(IntError::PosOverflow));
}

#[test]
fn reply_without_length_is_never_complete_but_parses_to_its_end() {
    let response = b"HTTP/1.1 200 OK\r\nServer: x\r\n\r\nhello";
    assert!(!http_response_complete(response).unwrap());
    assert_eq!(parse_http_response(response).unwrap(), "hello");
}

#[test]
fn extra_bytes_after_the_announced_body_are_ignored() {
    let response = b"HTTP/1.1 200 OK\r\nContent-Length: 2\r\n\r\n{}trailing";
    assert!(http_response_complete(response).unwrap());
    assert_eq!(parse_http_response(response).unwrap(), "{}");
}

#[test]
fn reply_errors_are_distinguished() {
    assert!(matches!(parse_http_response(b"HTTP/1.1 200 OK\r\n"), Err(HttpError::MissingHeaderEnd)));
    assert!(matches!(
        parse_http_response(b"HTTP/1.1 200 \xff\r\n\r\n"),
        Err(HttpError::HeadersNotUtf8(_))
    ));
    assert!(matches!(
        http_response_complete(b"HTTP/1.1 200 \xff\r\n\r\n"),
        Err(HttpError::HeadersNotUtf8(_))
    ));
    match parse_http_response(b"HTTP/1.1 404 Not Found\r\nContent-Length: 0\r\n\r\n") {
        Err(HttpError::BadStatus(line)) => assert_eq!(line, "HTTP/1.1 404 Not Found"),
        other => panic!("unexpected {:?}", other),
    }
    assert!(matches!(
        parse_http_response(b"HTTP/1.1 200 OK\r\nContent-Length: 1\r\n\r\n\xff"),
        Err(HttpError::BodyNotUtf8(_))
    ));
    assert!(matches!(
        parse_http_response(b"HTTP/1.1 200 OK\r\nContent-Length: x\r\n\r\n"),
        Err(HttpError::BadContentLength(IntError::InvalidDigit))
    ));
}

#[test]
fn completion_survives_more_bytes() {
    let mut response = b"HTTP/1.1 200 OK\r\nContent-Length: 1\r\n\r\nA".to_vec();
    assert!(http_response_complete(&response).unwrap());
    response.extend_from_slice(b"\r\n\r\nmore");
    assert!(http_response_complete(&response).unwrap());
}

#[test]
fn buffer_reports_completion_and_refuses_oversized_replies() {
    let mut buffer = ResponseBuffer::new();
    assert!(buffer.is_empty());
    assert!(!buffer.push_chunk(b"HTTP/1.1 200 OK\r\nContent-Le").unwrap());
    assert!(!buffer.push_chunk(b"ngth: 3\r\n\r\nab").unwrap());
    assert!(buffer.push_chunk(b"c").unwrap());
    assert_eq!(buffer.finish().unwrap(), "abc");

    let mut big = ResponseBuffer::new();
    let chunk = vec![b'x'; MAX_RESPONSE_BYTES];
    assert!(!big.push_chunk(&chunk).unwrap());
    assert!(matches!(big.push_chunk(b"y"), Err(HttpError::TooLarge)));
    assert_eq!(big.as_bytes().len(), MAX_RESPONSE_BYTES);
}

#[test]
fn request_asks_the_loopback_host_to_close() {
    assert_eq!(DEBUG_HOST, "127.0.0.1");
    assert_eq!(
        get_request_text("/json", 43123),
        "GET /json HTTP/1.1\r\nHost: 127.0.0.1:43123\r\nConnection: close\r\n\r\n"
    );
    assert_eq!(
        get_request_text("/", 0),
        "GET / HTTP/1.1\r\nHost: 127.0.0.1:0\r\nConnection: close\r\n\r\n"
    );
}

#[test]
fn utf8_failures_carry_the_decoder_message() {
    match parse_http_response(b"HTTP/1.1 200 \xff\r\n\r\n") {
        Err(HttpError::HeadersNotUtf8(detail)) => {
            assert_eq!(detail, "invalid utf-8 sequence of 1 bytes from index 13")
        }
        other => panic!("unexpected {:?}", other),
    }
    match http_response_complete(b"HTTP/1.1 200 OK\r\nX: \xe4\xb8X\r\n\r\n") {
        Err(error) => assert_eq!(
            error.message(),
            "调试服务响应头不是 UTF-8：invalid utf-8 sequence of 2 bytes from index 20"
        ),
        other => panic!("unexpected {:?}", other),
    }
    match parse_http_response(b"HTTP/1.1 200 OK\r\nContent-Length: 3\r\n\r\nab\xe4") {
        Err(error) => assert_eq!(
            error.message(),
            "调试服务正文不是 UTF-8：incomplete utf-8 byte sequence from index 2"
        ),
        other => panic!("unexpected {:?}", other),
    }
}

#[test]
fn reply_errors_read_as_the_launcher_words_them() {
    let message = |response: &[u8]| parse_http_response(response).unwrap_err().message();
    assert_eq!(message(b"HTTP/1.1 200 OK\r\n"), "调试服务返回了无效 HTTP 响应");
    assert_eq!(
        message(b"HTTP/1.1 404 Not Found\r\n\r\n"),
        "调试服务返回异常状态：HTTP/1.1 404 Not Found"
    );
    assert_eq!(
        message(b"HTTP/1.1 200 OK\r\nContent-Length: x\r\n\r\n"),
        "调试服务 Content-Length 无效：invalid digit found in string"
    );
    assert_eq!(
        message(b"HTTP/1.1 200 OK\r\nContent-Length:\r\n\r\n"),
        "调试服务 Content-Length 无效：cannot parse integer from empty string"
    );
    assert_eq!(
        message(b"HTTP/1.1 200 OK\r\nContent-Length: 99999999999999999999999\r\n\r\n"),
        "调试服务 Content-Length 无效：number too large to fit in target type"
    );
    for (value, kind) in [("", IntError::Empty), ("x", IntError::InvalidDigit), ("99999999999999999999999", IntError::PosOverflow)] {
        assert_eq!(kind.message(), value.parse::<usize>().unwrap_err().to_string());
    }
    assert_eq!(
        message(b"HTTP/1.1 200 OK\r\nContent-Length: 5\r\n\r\nab"),
        "调试服务响应正文不完整"
    );
    let mut big = ResponseBuffer::new();
    assert!(!big.push_chunk(&vec![b'x'; MAX_RESPONSE_BYTES]).unwrap());
    assert_eq!(big.push_chunk(b"y").unwrap_err().message(), "调试服务响应超过安全上限");
}
