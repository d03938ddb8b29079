use http_server::http::code::HttpCode;
use http_server::http::header::HttpHeader;
use http_server::http::method::HttpMethod;

#[test]
fn test_display_content_type() {
    let header = HttpHeader::ContentType("application/json".to_string());
    assert_eq!(header.to_string(), "Content-Type: application/json");

    let header_empty = HttpHeader::ContentType("".to_string());
    assert_eq!(header_empty.to_string(), "Content-Type: ");
}

#[test]
fn test_display_content_length() {
    let header = HttpHeader::ContentLength(348);
    assert_eq!(header.to_string(), "Content-Length: 348");

    let header_zero = HttpHeader::ContentLength(0);
    assert_eq!(header_zero.to_string(), "Content-Length: 0");

    let header_large = HttpHeader::ContentLength(usize::MAX);
    assert_eq!(
        header_large.to_string(),
        format!("Content-Length: {}", usize::MAX)
    );
}

#[test]
fn test_display_content_encoding() {
    let header = HttpHeader::ContentEncoding("gzip".to_string());
    assert_eq!(header.to_string(), "Content-Encoding: gzip");

    let header_empty = HttpHeader::ContentEncoding("".to_string());
    assert_eq!(header_empty.to_string(), "Content-Encoding: ");
}

#[test]
fn test_multiple_headers() {
    let headers = vec![
        HttpHeader::ContentType("text/html".to_string()),
        HttpHeader::ContentLength(1024),
        HttpHeader::ContentEncoding("deflate".to_string()),
    ];

    let expected = vec![
        "Content-Type: text/html",
        "Content-Length: 1024",
        "Content-Encoding: deflate",
    ];

    for (header, &exp) in headers.iter().zip(expected.iter()) {
        assert_eq!(header.to_string(), exp);
    }
}

#[test]
fn test_header_clone_keeps_the_value() {
    let header = HttpHeader::ContentLength(27);
    assert_eq!(header.clone(), header);
    let header = HttpHeader::ContentType("text/plain".to_string());
    assert_eq!(header.clone(), header);
    assert_ne!(header, HttpHeader::ContentEncoding("text/plain".to_string()));
}

#[test]
fn test_from_str_valid_methods() {
    assert_eq!(HttpMethod::from_str("GET").unwrap(), HttpMethod::GET);
    assert_eq!(HttpMethod::from_str("POST").unwrap(), HttpMethod::POST);
    assert_eq!(HttpMethod::from_str("PUT").unwrap(), HttpMethod::PUT);
    assert_eq!(HttpMethod::from_str("PATCH").unwrap(), HttpMethod::PATCH);
    assert_eq!(HttpMethod::from_str("DELETE").unwrap(), HttpMethod::DELETE);
}

#[test]
fn test_from_str_invalid_methods() {
    assert_eq!(
        HttpMethod::from_str("OPTIONS").unwrap_err(),
        "Unknown HTTP method"
    );

    assert_eq!(HttpMethod::from_str("").unwrap_err(), "Unknown HTTP method");

    assert_eq!(
        HttpMethod::from_str("get").unwrap_err(),
        "Unknown HTTP method"
    );
}

#[test]
fn test_from_str_rejects_a_padded_method() {
    assert!(HttpMethod::from_str("GET ").is_err());
    assert!(HttpMethod::from_str(" GET").is_err());
    assert!(HttpMethod::from_str("GETS").is_err());
}

#[test]
fn test_status_codes_have_their_numbers() {
    let table = [
        (HttpCode::OK, 200u16),
        (HttpCode::Created, 201),
        (HttpCode::Accepted, 202),
        (HttpCode::NoContent, 204),
        (HttpCode::MovedPermanently, 301),
        (HttpCode::Found, 302),
        (HttpCode::NotModified, 304),
        (HttpCode::BadRequest, 400),
        (HttpCode::Unauthorized, 401),
        (HttpCode::Forbidden, 403),
        (HttpCode::NotFound, 404),
        (HttpCode::MethodNotAllowed, 405),
        (HttpCode::InternalServerError, 500),
        (HttpCode::NotImplemented, 501),
        (HttpCode::BadGateway, 502),
        (HttpCode::ServiceUnavailable, 503),
    ];
    for (code, number) in table.iter() {
        assert_eq!(code.to_u16(), *number);
    }
}

#[test]
fn test_status_codes_have_their_reason_phrases() {
    let table = [
        (HttpCode::OK, "OK"),
        (HttpCode::Created, "Created"),
        (HttpCode::Accepted, "Accepted"),
        (HttpCode::NoContent, "No Content"),
        (HttpCode::MovedPermanently, "Moved Permanently"),
        (HttpCode::Found, "Found"),
        (HttpCode::NotModified, "Not Modified"),
        (HttpCode::BadRequest, "Bad Request"),
        (HttpCode::Unauthorized, "Unauthorized"),
        (HttpCode::Forbidden, "Forbidden"),
        (HttpCode::NotFound, "Not Found"),
        (HttpCode::MethodNotAllowed, "Method Not Allowed"),
        (HttpCode::InternalServerError, "Internal Server Error"),
        (HttpCode::NotImplemented, "Not Implemented"),
        (HttpCode::BadGateway, "Bad Gateway"),
        (HttpCode::ServiceUnavailable, "Service Unavailable"),
    ];
    for (code, phrase) in table.iter() {
        assert_eq!(code.to_string(), *phrase);
        assert_eq!(code.as_str(), *phrase);
    }
}

#[test]
fn test_status_numbers_and_phrases_are_distinct() {
    let codes = [
        HttpCode::OK,
        HttpCode::Created,
        HttpCode::Accepted,
        HttpCode::NoContent,
        HttpCode::MovedPermanently,
        HttpCode::Found,
        HttpCode::NotModified,
        HttpCode::BadRequest,
        HttpCode::Unauthorized,
        HttpCode::Forbidden,
        HttpCode::NotFound,
        HttpCode::MethodNotAllowed,
        HttpCode::InternalServerError,
        HttpCode::NotImplemented,
        HttpCode::BadGateway,
        HttpCode::ServiceUnavailable,
    ];
    for (i, a) in codes.iter().enumerate() {
        for (j, b) in codes.iter().enumerate() {
            if i != j {
                assert_ne!(a.to_u16(), b.to_u16());
                assert_ne!(a.to_string(), b.to_string());
            }
        }
    }
}
