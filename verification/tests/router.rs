use flate2::read::GzDecoder;
use http_server::http::method::HttpMethod;
use http_server::params::Params;
use http_server::request::Request;
use http_server::router::handlers::{
    byte_length, echo_compressed, echo_plain, handle_get_echo, handle_get_files, handle_get_root,
    handle_get_user_agent, handle_post_files,
};
use http_server::router::models::routes;
use http_server::router::{
    can_dispatch, finish_get_files, finish_post_files, handle_connection, handle_route,
    or_internal_error, Action, Handler, Paths, RouterError,
};
use std::io::Read;

fn request(raw: &str) -> Request {
    Request::new(raw.as_bytes(), raw.len()).unwrap()
}

fn params(pairs: &[(&str, &str)]) -> Params {
    let mut map = Params::new();
    for (key, value) in pairs {
        map.insert(key.to_string(), value.to_string());
    }
    map
}

fn send(head: &str) -> Action {
    Action::Send {
        head: head.to_string(),
        payload: None,
    }
}

fn gunzip(stream: &[u8]) -> Vec<u8> {
    let mut decoder = GzDecoder::new(stream);
    let mut out = Vec::new();
    decoder.read_to_end(&mut out).unwrap();
    out
}

#[test]
fn test_paths_as_str() {
    assert_eq!(Paths::Root.as_str(), "/");
    assert_eq!(Paths::UserAgent.as_str(), "/user-agent");
    assert_eq!(Paths::Echo.as_str(), "/echo/:str");
    assert_eq!(Paths::Files.as_str(), "/files/:file_name");
}

#[test]
fn test_route_tables_are_in_registration_order() {
    let get: Vec<(String, Handler)> = routes(HttpMethod::GET)
        .into_iter()
        .map(|r| (r.path, r.handler))
        .collect();
    assert_eq!(
        get,
        vec![
            ("/".to_string(), Handler::GetRoot),
            ("/user-agent".to_string(), Handler::GetUserAgent),
            ("/echo/:str".to_string(), Handler::GetEcho),
            ("/files/:file_name".to_string(), Handler::GetFiles),
        ]
    );
    let post: Vec<(String, Handler)> = routes(HttpMethod::POST)
        .into_iter()
        .map(|r| (r.path, r.handler))
        .collect();
    assert_eq!(
        post,
        vec![("/files/:file_name".to_string(), Handler::PostFiles)]
    );
    assert!(routes(HttpMethod::PUT).is_empty());
    assert!(routes(HttpMethod::PATCH).is_empty());
    assert!(routes(HttpMethod::DELETE).is_empty());
}

#[test]
fn test_get_root_is_a_bare_200() {
    let r = request("GET / HTTP/1.1\r\n\r\n");
    assert_eq!(handle_route(&r, "./"), Ok(send("HTTP/1.1 200 OK\r\n\r\n")));
    assert_eq!(
        handle_get_root(&r, Params::new()),
        Ok(send("HTTP/1.1 200 OK\r\n\r\n"))
    );
    assert_eq!(
        handle_connection(&r, "./"),
        send("HTTP/1.1 200 OK\r\n\r\n")
    );
}

#[test]
fn test_get_root_ignores_headers_and_query() {
    let r = request("GET /?x=1 HTTP/1.1\r\nUser-Agent: a\r\nAccept-Encoding: gzip\r\n\r\n");
    assert_eq!(handle_route(&r, "./"), Ok(send("HTTP/1.1 200 OK\r\n\r\n")));
}

#[test]
fn test_the_version_of_the_request_is_echoed() {
    let r = request("GET /  HTTP/1.0\r\n\r\n");
    assert_eq!(r.http_version, "HTTP/1.0");
    assert_eq!(handle_route(&r, "./"), Ok(send("HTTP/1.0 200 OK\r\n\r\n")));
}

#[test]
fn test_get_user_agent() {
    let r = request("GET /user-agent HTTP/1.1\r\nHost: x\r\nUser-Agent: foobar/1.2.3\r\n\r\n");
    let expected = send(
        "HTTP/1.1 200 OK\r\nContent-Type: text/plain\r\nContent-Length: 12\r\n\r\nfoobar/1.2.3",
    );
    assert_eq!(handle_route(&r, "./"), Ok(expected));
}

#[test]
fn test_get_user_agent_counts_bytes() {
    let r = request("GET /user-agent HTTP/1.1\r\nUser-Agent: é\r\n\r\n");
    let expected =
        send("HTTP/1.1 200 OK\r\nContent-Type: text/plain\r\nContent-Length: 2\r\n\r\né");
    assert_eq!(handle_get_user_agent(&r, Params::new()), Ok(expected));
    assert_eq!(byte_length("é"), 2);
    assert_eq!(byte_length(""), 0);
    assert_eq!(byte_length("abc"), 3);
}

#[test]
fn test_get_user_agent_without_the_header() {
    let r = request("GET /user-agent HTTP/1.1\r\nHost: x\r\n\r\n");
    let expected =
        send("HTTP/1.1 200 OK\r\nContent-Type: text/plain\r\nContent-Length: 0\r\n\r\n");
    assert_eq!(handle_route(&r, "./"), Ok(expected));
}

#[test]
fn test_get_echo_plain() {
    let r = request("GET /echo/abc HTTP/1.1\r\nHost: x\r\n\r\n");
    let expected =
        send("HTTP/1.1 200 OK\r\nContent-Type: text/plain\r\nContent-Length: 3\r\n\r\nabc");
    assert_eq!(handle_route(&r, "./"), Ok(expected));
    match handle_route(&r, "./") {
        Ok(Action::Send { head, payload }) => {
            assert!(!head.contains("Content-Encoding"));
            assert!(payload.is_none());
        }
        other => panic!("unexpected answer: {:?}", other),
    }
}

#[test]
fn test_get_echo_with_an_encoding_that_is_not_gzip() {
    let r = request("GET /echo/abc HTTP/1.1\r\nAccept-Encoding: br, deflate\r\n\r\n");
    let expected =
        send("HTTP/1.1 200 OK\r\nContent-Type: text/plain\r\nContent-Length: 3\r\n\r\nabc");
    assert_eq!(handle_route(&r, "./"), Ok(expected));
}

#[test]
fn test_get_echo_gzip() {
    let r = request("GET /echo/abc HTTP/1.1\r\nAccept-Encoding: gzip\r\n\r\n");
    match handle_route(&r, "./") {
        Ok(Action::Send { head, payload }) => {
            let payload = payload.unwrap();
            assert_eq!(
                head,
                format!(
                    "HTTP/1.1 200 OK\r\nContent-Type: text/plain\r\nContent-Encoding: gzip\r\nContent-Length: {}\r\n\r\n",
                    payload.len()
                )
            );
            assert_ne!(payload, b"abc".to_vec());
            assert_eq!(&payload[..3], &[0x1f, 0x8b, 8]);
            assert_eq!(gunzip(&payload), b"abc".to_vec());
        }
        other => panic!("unexpected answer: {:?}", other),
    }
}

#[test]
fn test_get_echo_gzip_among_other_encodings() {
    let r = request("GET /echo/hello%20world HTTP/1.1\r\nAccept-Encoding: br, gzip;q=0.5\r\n\r\n");
    match handle_get_echo(&r, params(&[("str", "hello world")])) {
        Ok(Action::Send { head, payload }) => {
            let payload = payload.unwrap();
            assert!(head.contains("\r\nContent-Encoding: gzip\r\n"));
            assert!(head.ends_with(&format!("Content-Length: {}\r\n\r\n", payload.len())));
            assert_eq!(gunzip(&payload), b"hello world".to_vec());
        }
        other => panic!("unexpected answer: {:?}", other),
    }
}

#[test]
fn test_get_echo_gzip_is_the_same_for_the_same_text() {
    let r = request("GET /echo/abc HTTP/1.1\r\nAccept-Encoding: gzip\r\n\r\n");
    assert_eq!(handle_route(&r, "./"), handle_route(&r, "./"));
}

#[test]
fn test_get_echo_without_the_parameter_fails() {
    let r = request("GET /echo/abc HTTP/1.1\r\n\r\n");
    assert_eq!(
        handle_get_echo(&r, Params::new()),
        Err(RouterError::MissingRouteParameter)
    );
    assert_eq!(
        handle_get_echo(&r, params(&[("file_name", "abc")])),
        Err(RouterError::MissingRouteParameter)
    );
}

#[test]
fn test_echo_plain_and_echo_compressed() {
    let r = request("GET /echo/abc HTTP/1.1\r\n\r\n");
    assert_eq!(
        echo_plain(&r, "héllo".to_string()),
        Ok(send(
            "HTTP/1.1 200 OK\r\nContent-Type: text/plain\r\nContent-Length: 6\r\n\r\nhéllo"
        ))
    );
    assert_eq!(
        echo_compressed(&r, Ok(vec![1, 2, 3, 4])),
        Ok(Action::Send {
            head: "HTTP/1.1 200 OK\r\nContent-Type: text/plain\r\nContent-Encoding: gzip\r\nContent-Length: 4\r\n\r\n".to_string(),
            payload: Some(vec![1, 2, 3, 4]),
        })
    );
    let failure = std::io::Error::new(std::io::ErrorKind::Other, "no space");
    assert_eq!(
        echo_compressed(&r, Err(failure)),
        Err(RouterError::IoFailure)
    );
}

#[test]
fn test_get_files_asks_for_the_read() {
    let r = request("GET /files/test.txt HTTP/1.1\r\n\r\n");
    assert_eq!(
        handle_route(&r, "/tmp/data/"),
        Ok(Action::ReadFile {
            path: "/tmp/data/test.txt".to_string()
        })
    );
    assert_eq!(
        handle_route(&r, "/tmp/data"),
        Ok(Action::ReadFile {
            path: "/tmp/datatest.txt".to_string()
        })
    );
    assert_eq!(
        handle_get_files(&r, Params::new(), "/tmp/"),
        Err(RouterError::MissingRouteParameter)
    );
}

#[test]
fn test_get_files_found() {
    let r = request("GET /files/test.txt HTTP/1.1\r\n\r\n");
    assert_eq!(
        finish_get_files(&r, Some("hello".to_string())),
        send("HTTP/1.1 200 OK\r\nContent-Type: application/octet-stream\r\nContent-Length: 5\r\n\r\nhello")
    );
    assert_eq!(
        finish_get_files(&r, Some("".to_string())),
        send("HTTP/1.1 200 OK\r\nContent-Type: application/octet-stream\r\nContent-Length: 0\r\n\r\n")
    );
}

#[test]
fn test_get_files_missing() {
    let r = request("GET /files/missing.txt HTTP/1.1\r\n\r\n");
    assert_eq!(
        handle_route(&r, "./"),
        Ok(Action::ReadFile {
            path: "./missing.txt".to_string()
        })
    );
    assert_eq!(
        finish_get_files(&r, None),
        send("HTTP/1.1 404 Not Found\r\n\r\n")
    );
}

#[test]
fn test_post_files_asks_for_the_write() {
    let r = request("POST /files/test.txt HTTP/1.1\r\nContent-Length: 5\r\n\r\nhello");
    assert!(can_dispatch(&r));
    assert_eq!(
        handle_route(&r, "/tmp/data/"),
        Ok(Action::WriteFile {
            path: "/tmp/data/test.txt".to_string(),
            body: b"hello".to_vec()
        })
    );
    assert_eq!(
        finish_post_files(&r, true),
        send("HTTP/1.1 201 Created\r\n\r\n")
    );
    assert_eq!(
        finish_post_files(&r, false),
        send("HTTP/1.1 500 Internal Server Error\r\n\r\n")
    );
}

#[test]
fn test_post_files_cuts_the_body_at_content_length() {
    let r = request("POST /files/a HTTP/1.1\r\nContent-Length: 3\r\n\r\nhello");
    assert_eq!(
        handle_route(&r, ""),
        Ok(Action::WriteFile {
            path: "a".to_string(),
            body: b"hel".to_vec()
        })
    );
    let r = request("POST /files/a HTTP/1.1\r\nContent-Length: 0\r\n\r\nhello");
    assert_eq!(
        handle_post_files(&r, params(&[("file_name", "b")]), "d/"),
        Ok(Action::WriteFile {
            path: "d/b".to_string(),
            body: Vec::new()
        })
    );
}

#[test]
fn test_post_files_without_content_length_fails() {
    let r = request("POST /files/a HTTP/1.1\r\n\r\nhello");
    assert!(can_dispatch(&r));
    assert_eq!(
        handle_route(&r, "./"),
        Err(RouterError::MissingContentLength)
    );
    assert_eq!(
        handle_connection(&r, "./"),
        send("HTTP/1.1 500 Internal Server Error\r\n\r\n")
    );
    assert_eq!(
        handle_post_files(&r, Params::new(), "./"),
        Err(RouterError::MissingRouteParameter)
    );
}

#[test]
fn test_a_body_shorter_than_content_length_cannot_be_dispatched() {
    let short = request("POST /files/a HTTP/1.1\r\nContent-Length: 6\r\n\r\nhello");
    assert!(!can_dispatch(&short));
    let exact = request("POST /files/a HTTP/1.1\r\nContent-Length: 5\r\n\r\nhello");
    assert!(can_dispatch(&exact));
    let elsewhere = request("POST /other HTTP/1.1\r\nContent-Length: 6\r\n\r\nhello");
    assert!(can_dispatch(&elsewhere));
    let get = request("GET /files/a HTTP/1.1\r\nContent-Length: 50\r\n\r\n");
    assert!(can_dispatch(&get));
}

#[test]
fn test_unknown_paths_are_not_found() {
    for raw in [
        "GET /nothing HTTP/1.1\r\n\r\n",
        "GET /echo HTTP/1.1\r\n\r\n",
        "GET /echo/a/b HTTP/1.1\r\n\r\n",
        "GET /files HTTP/1.1\r\n\r\n",
        "POST / HTTP/1.1\r\n\r\n",
        "POST /echo/abc HTTP/1.1\r\n\r\n",
        "POST /user-agent HTTP/1.1\r\n\r\n",
    ] {
        let r = request(raw);
        assert_eq!(
            handle_route(&r, "./"),
            Ok(send("HTTP/1.1 404 Not Found\r\n\r\n"))
        );
    }
}

#[test]
fn test_methods_without_routes_are_not_found() {
    for method in ["PUT", "PATCH", "DELETE"] {
        for path in ["/", "/user-agent", "/echo/abc", "/files/a", "/x"] {
            let r = request(&format!("{} {} HTTP/1.1\r\n\r\n", method, path));
            assert_eq!(
                handle_route(&r, "./"),
                Ok(send("HTTP/1.1 404 Not Found\r\n\r\n"))
            );
        }
    }
}

#[test]
fn test_a_request_without_a_target_is_not_found() {
    let r = request("GET\r\n\r\n");
    assert_eq!(r.method, Some(HttpMethod::GET));
    assert!(r.url.is_none());
    assert_eq!(
        handle_route(&r, "./"),
        Ok(send("HTTP/1.1 404 Not Found\r\n\r\n"))
    );
}

#[test]
fn test_a_request_without_a_method_fails_and_is_answered_with_500() {
    for raw in [
        "FETCH / HTTP/1.1\r\n\r\n",
        "get / HTTP/1.1\r\n\r\n",
        "INVALID_REQUEST_LINE\r\n\r\n",
    ] {
        let r = request(raw);
        assert!(can_dispatch(&r));
        assert_eq!(handle_route(&r, "./"), Err(RouterError::NoMethod));
        assert_eq!(
            handle_connection(&r, "./"),
            send("HTTP/1.1 500 Internal Server Error\r\n\r\n")
        );
    }
}

#[test]
fn test_or_internal_error() {
    let r = request("GET / HTTP/1.1\r\n\r\n");
    for e in [
        RouterError::NoMethod,
        RouterError::MissingRouteParameter,
        RouterError::MissingContentLength,
        RouterError::IoFailure,
    ] {
        assert_eq!(
            or_internal_error(&r, Err(e)),
            send("HTTP/1.1 500 Internal Server Error\r\n\r\n")
        );
    }
    let action = Action::ReadFile {
        path: "x".to_string(),
    };
    assert_eq!(
        or_internal_error(&r, Ok(Action::ReadFile { path: "x".to_string() })),
        action
    );
}

#[test]
fn test_the_query_is_not_part_of_the_path() {
    let r = request("GET /echo/abc?x=1&y=2 HTTP/1.1\r\n\r\n");
    let expected =
        send("HTTP/1.1 200 OK\r\nContent-Type: text/plain\r\nContent-Length: 3\r\n\r\nabc");
    assert_eq!(handle_route(&r, "./"), Ok(expected));
    let r = request("GET /files/a.txt?download HTTP/1.1\r\n\r\n");
    assert_eq!(
        handle_route(&r, "dir/"),
        Ok(Action::ReadFile {
            path: "dir/a.txt".to_string()
        })
    );
}

#[test]
fn test_a_file_name_is_joined_as_it_is() {
    let r = request("GET /files/..%2Fsecret HTTP/1.1\r\n\r\n");
    assert_eq!(
        handle_route(&r, "/srv/"),
        Ok(Action::ReadFile {
            path: "/srv/..%2Fsecret".to_string()
        })
    );
}

#[test]
fn test_post_files_counts_the_body_in_bytes() {
    let r = request("POST /files/a HTTP/1.1\r\nContent-Length: 3\r\n\r\néa");
    assert!(can_dispatch(&r));
    assert_eq!(
        handle_route(&r, ""),
        Ok(Action::WriteFile {
            path: "a".to_string(),
            body: "éa".as_bytes().to_vec()
        })
    );
    let r = request("POST /files/a HTTP/1.1\r\nContent-Length: 4\r\n\r\néa");
    assert!(!can_dispatch(&r));
}
