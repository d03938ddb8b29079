use http_server::http::method::HttpMethod;
use http_server::request::{ParseError, Request};
use http_server::url::Url;

fn parse(raw_request: &str) -> Result<Request, ParseError> {
    let mut buffer = [0u8; 1024];
    let bytes = raw_request.as_bytes();
    buffer[..bytes.len()].copy_from_slice(bytes);
    Request::new(&buffer, bytes.len())
}

#[test]
fn test_new_valid_get_request() {
    let raw_request = "GET /home HTTP/1.1\r\n\
                       Host: localhost\r\n\
                       User-Agent: TestAgent/1.0\r\n\
                       Accept-Encoding: gzip, deflate\r\n\
                       Content-Length: 0\r\n\r\n";

    let request = parse(raw_request).unwrap();

    assert_eq!(request.method, Some(HttpMethod::GET));
    assert_eq!(request.url, Some(Url::new("/home")));
    assert_eq!(request.http_version, "HTTP/1.1".to_string());
    assert_eq!(request.user_agent, Some("TestAgent/1.0".to_string()));
    assert_eq!(request.accept_encoding, Some("gzip, deflate".to_string()));
    assert_eq!(request.content_length, Some(0));
    assert_eq!(request.request.len(), 5);
    assert_eq!(request.request[0], "GET /home HTTP/1.1");
    assert_eq!(request.request[1], "Host: localhost");
    assert_eq!(request.request[2], "User-Agent: TestAgent/1.0");
    assert_eq!(request.request[3], "Accept-Encoding: gzip, deflate");
    assert_eq!(request.request[4], "Content-Length: 0");
}

#[test]
fn test_new_valid_post_request_with_body() {
    let raw_request = "POST /submit HTTP/1.1\r\n\
                       Host: example.com\r\n\
                       User-Agent: TestAgent/2.0\r\n\
                       Accept-Encoding: br\r\n\
                       Content-Length: 27\r\n\r\n\
                       field1=value1&field2=value2";

    let request = parse(raw_request).unwrap();

    assert_eq!(request.method, Some(HttpMethod::POST));
    assert_eq!(request.url, Some(Url::new("/submit")));
    assert_eq!(request.http_version, "HTTP/1.1".to_string());
    assert_eq!(request.user_agent, Some("TestAgent/2.0".to_string()));
    assert_eq!(request.accept_encoding, Some("br".to_string()));
    assert_eq!(request.content_length, Some(27));
    assert_eq!(request.request.len(), 7);
    assert_eq!(request.request[0], "POST /submit HTTP/1.1");
    assert_eq!(request.request[1], "Host: example.com");
    assert_eq!(request.request[2], "User-Agent: TestAgent/2.0");
    assert_eq!(request.request[3], "Accept-Encoding: br");
    assert_eq!(request.request[4], "Content-Length: 27");
    assert_eq!(
        request.request[6].contains("field1=value1&field2=value2"),
        true
    );
}

#[test]
fn test_new_request_missing_optional_headers() {
    let raw_request = "DELETE /resource/123 HTTP/1.1\r\n\
                       Host: api.example.com\r\n\r\n";

    let request = parse(raw_request).unwrap();

    assert_eq!(request.method, Some(HttpMethod::DELETE));
    assert_eq!(request.url, Some(Url::new("/resource/123")));
    assert_eq!(request.http_version, "HTTP/1.1".to_string());
    assert_eq!(request.user_agent, None);
    assert_eq!(request.accept_encoding, None);
    assert_eq!(request.content_length, None);
    assert_eq!(request.request.len(), 2);
    assert_eq!(request.request[0], "DELETE /resource/123 HTTP/1.1");
    assert_eq!(request.request[1], "Host: api.example.com");
}

#[test]
fn test_new_request_invalid_method() {
    let raw_request = "FETCH /data HTTP/1.1\r\n\
                       Host: localhost\r\n\r\n";

    let request = parse(raw_request).unwrap();

    assert_eq!(request.method, None);
    assert_eq!(request.url, Some(Url::new("/data")));
    assert_eq!(request.http_version, "HTTP/1.1".to_string());
    assert_eq!(request.user_agent, None);
    assert_eq!(request.accept_encoding, None);
    assert_eq!(request.content_length, None);
    assert_eq!(request.request.len(), 2);
    assert_eq!(request.request[0], "FETCH /data HTTP/1.1");
    assert_eq!(request.request[1], "Host: localhost");
}

#[test]
fn test_new_request_empty_buffer() {
    let raw_request = "";

    let result = parse(raw_request);
    assert!(result.is_err());
    let error = result.unwrap_err();
    assert_eq!(error.to_string(), "Error: request is empty");
}

#[test]
fn test_new_request_malformed_request_line() {
    let raw_request = "INVALID_REQUEST_LINE\r\n\
                       Host: localhost\r\n\r\n";

    let request = parse(raw_request).unwrap();

    assert_eq!(request.method, None);
    assert_eq!(request.url, None);
    assert_eq!(request.http_version, "HTTP/1.1".to_string());
    assert_eq!(request.user_agent, None);
    assert_eq!(request.accept_encoding, None);
    assert_eq!(request.content_length, None);
    assert_eq!(request.request.len(), 2);
    assert_eq!(request.request[0], "INVALID_REQUEST_LINE");
    assert_eq!(request.request[1], "Host: localhost");
}

#[test]
fn test_new_request_multiple_headers_same_type() {
    let raw_request = "GET /multi HTTP/1.1\r\n\
                       Host: localhost\r\n\
                       User-Agent: TestAgent/1.0\r\n\
                       User-Agent: TestAgent/2.0\r\n\
                       Accept-Encoding: gzip\r\n\
                       Accept-Encoding: br\r\n\
                       Content-Length: 50\r\n\r\n";

    let request = parse(raw_request).unwrap();

    assert_eq!(request.method, Some(HttpMethod::GET));
    assert_eq!(request.url, Some(Url::new("/multi")));
    assert_eq!(request.http_version, "HTTP/1.1".to_string());
    assert_eq!(request.user_agent, Some("TestAgent/1.0".to_string()));
    assert_eq!(request.accept_encoding, Some("gzip".to_string()));
    assert_eq!(request.content_length, Some(50));
    assert_eq!(request.request.len(), 7);
    assert_eq!(request.request[0], "GET /multi HTTP/1.1");
    assert_eq!(request.request[1], "Host: localhost");
    assert_eq!(request.request[2], "User-Agent: TestAgent/1.0");
    assert_eq!(request.request[3], "User-Agent: TestAgent/2.0");
    assert_eq!(request.request[4], "Accept-Encoding: gzip");
    assert_eq!(request.request[5], "Accept-Encoding: br");
    assert_eq!(request.request[6], "Content-Length: 50");
}

#[test]
fn test_new_reads_only_the_bytes_that_were_read() {
    let buffer = *b"GET / HTTP/1.1\r\n\r\nGARBAGE";
    let request = Request::new(&buffer, 18).unwrap();
    assert_eq!(request.request, vec!["GET / HTTP/1.1".to_string()]);
    let nothing = Request::new(&buffer, 0);
    assert_eq!(nothing.unwrap_err(), ParseError::EmptyRequest);
}

#[test]
fn test_new_request_of_white_space_only_is_empty() {
    assert_eq!(
        parse(" \r\n\t\r\n  ").unwrap_err(),
        ParseError::EmptyRequest
    );
    assert_eq!(
        Request::parse("\r\n").unwrap_err(),
        ParseError::EmptyRequest
    );
    assert_eq!(
        Request::parse("\u{a0}\u{3000}\u{2028}\u{85}").unwrap_err(),
        ParseError::EmptyRequest
    );
}

#[test]
fn test_white_space_is_taken_off_the_end_only() {
    let request = Request::parse("  GET / HTTP/1.1 \r\n\r\n").unwrap();
    assert_eq!(request.request, vec!["  GET / HTTP/1.1".to_string()]);
    assert_eq!(request.method, None);
    assert_eq!(request.url, Some(Url::new("")));
}

#[test]
fn test_new_replaces_invalid_utf8() {
    let buffer = [b'G', b'E', b'T', b' ', b'/', 0xff, b'x'];
    let request = Request::new(&buffer, buffer.len()).unwrap();
    assert_eq!(request.request, vec!["GET /\u{fffd}x".to_string()]);
    assert_eq!(request.method, Some(HttpMethod::GET));
    assert_eq!(request.url, Some(Url::new("/\u{fffd}x")));
}

#[test]
fn test_get_request_splits_at_crlf_only() {
    let lines = Request::get_request(b"a\nb\rc\r\nd\r\n\r\ne", 13).unwrap();
    assert_eq!(
        lines,
        vec![
            "a\nb\rc".to_string(),
            "d".to_string(),
            "".to_string(),
            "e".to_string()
        ]
    );
    assert_eq!(
        Request::get_request(b"   ", 3).unwrap_err(),
        ParseError::EmptyRequest
    );
    assert_eq!(Request::lines("x").unwrap(), vec!["x".to_string()]);
}

#[test]
fn test_http_version_is_the_fourth_token() {
    assert_eq!(
        Request::get_http_version(&"GET / HTTP/1.0".to_string()),
        "HTTP/1.1"
    );
    assert_eq!(
        Request::get_http_version(&"GET /  HTTP/1.0".to_string()),
        "HTTP/1.0"
    );
    assert_eq!(
        Request::get_http_version(&"GET / x HTTP/2 y".to_string()),
        "HTTP/2"
    );
    assert_eq!(Request::get_http_version(&"".to_string()), "HTTP/1.1");
}

#[test]
fn test_method_and_target_are_the_first_two_tokens() {
    assert_eq!(
        Request::get_method(&"PATCH /x".to_string()),
        Some(HttpMethod::PATCH)
    );
    assert_eq!(Request::get_method(&"patch /x".to_string()), None);
    assert_eq!(Request::get_method(&"".to_string()), None);
    assert_eq!(Request::get_method(&" GET /x".to_string()), None);
    assert_eq!(
        Request::get_url(&"GET /x?y=1 HTTP/1.1".to_string()),
        Some("/x?y=1".to_string())
    );
    assert_eq!(Request::get_url(&"GET".to_string()), None);
    assert_eq!(Request::get_url(&"GET ".to_string()), Some("".to_string()));
}

fn lines(items: &[&str]) -> Vec<String> {
    items.iter().map(|s| s.to_string()).collect()
}

#[test]
fn test_user_agent_is_found_by_containment() {
    assert_eq!(
        Request::get_user_agent_header(&lines(&["GET / HTTP/1.1", "User-Agent: curl/8"])),
        Some("curl/8".to_string())
    );
    assert_eq!(
        Request::get_user_agent_header(&lines(&["X-User-Agent: a User-Agent: b"])),
        Some("X-a b".to_string())
    );
    assert_eq!(
        Request::get_user_agent_header(&lines(&["User-Agent:curl"])),
        Some("User-Agent:curl".to_string())
    );
    assert_eq!(
        Request::get_user_agent_header(&lines(&["User-Agent curl", "Host: x"])),
        None
    );
    assert_eq!(Request::get_user_agent_header(&lines(&[])), None);
}

#[test]
fn test_accept_encoding_is_taken_from_the_first_line_that_names_it() {
    assert_eq!(
        Request::get_accept_encoding(&lines(&["Accept-Encoding: gzip", "Accept-Encoding: br"])),
        Some("gzip".to_string())
    );
    assert_eq!(
        Request::get_accept_encoding(&lines(&["Accept-Encoding:gzip", "Accept-Encoding: br"])),
        None
    );
    assert_eq!(
        Request::get_accept_encoding(&lines(&[
            "X: Accept-Encoding: a Accept-Encoding: b"
        ])),
        Some("a ".to_string())
    );
    assert_eq!(
        Request::get_accept_encoding(&lines(&["Accept-Encoding: "])),
        Some("".to_string())
    );
    assert_eq!(Request::get_accept_encoding(&lines(&["Host: x"])), None);
}

#[test]
fn test_content_length_is_an_unsigned_integer() {
    assert_eq!(
        Request::get_content_length(&lines(&["Content-Length: 5"])),
        Some(5)
    );
    assert_eq!(
        Request::get_content_length(&lines(&["Content-Length: +5"])),
        Some(5)
    );
    assert_eq!(
        Request::get_content_length(&lines(&["Content-Length: 007"])),
        Some(7)
    );
    assert_eq!(
        Request::get_content_length(&lines(&["Content-Length: -5"])),
        None
    );
    assert_eq!(
        Request::get_content_length(&lines(&["Content-Length: 5 "])),
        None
    );
    assert_eq!(
        Request::get_content_length(&lines(&["Content-Length: "])),
        None
    );
    assert_eq!(
        Request::get_content_length(&lines(&["Content-Length: abc", "Content-Length: 5"])),
        None
    );
    assert_eq!(
        Request::get_content_length(&lines(&[&format!("Content-Length: {}", usize::MAX)])),
        Some(usize::MAX)
    );
    assert_eq!(
        Request::get_content_length(&lines(&[&format!("Content-Length: {}0", usize::MAX)])),
        None
    );
    assert_eq!(
        Request::get_content_length(&lines(&["Content-Length: 99999999999999999999999999"])),
        None
    );
    assert_eq!(Request::get_content_length(&lines(&["Host: x"])), None);
}

#[test]
fn test_headers_are_also_found_in_the_request_line_and_the_body() {
    let request = Request::parse("GET /Content-Length: 3 HTTP/1.1\r\nContent-Length: 9").unwrap();
    assert_eq!(request.content_length, None);
    let request = Request::parse("POST /x HTTP/1.1\r\n\r\nUser-Agent: body").unwrap();
    assert_eq!(request.user_agent, Some("body".to_string()));
}

#[test]
fn test_the_read_is_bounded() {
    assert_eq!(http_server::request::MAX_REQUEST_BYTES, 1024);
}

#[test]
fn test_new_decodes_valid_utf8_as_it_is() {
    let raw = "GET /echo/日本 HTTP/1.1\r\nUser-Agent: ünïcode\r\n\r\n";
    let request = parse(raw).unwrap();
    assert_eq!(request.url, Some(Url::new("/echo/日本")));
    assert_eq!(request.user_agent, Some("ünïcode".to_string()));
}
