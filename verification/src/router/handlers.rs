//! The handlers behind the routes.
//!
//! A handler never touches the file system. Where a route serves or stores a
//! file, its handler answers with the read or the write that has to happen,
//! and the caller hands what came of it to `finish_get_files` or
//! `finish_post_files`. File names are joined to the serving directory as
//! they are: a name that climbs out of the directory is not rejected here.

use crate::compress::{gzip, gzip_encoding};
use crate::http::code::HttpCode;
use crate::http::header::{
    content_encoding_line, content_length_line, content_type_line, HttpHeader,
};
use crate::params::Params;
use crate::request::{Request, RequestView};
use crate::response::{lines_of, response_text, Response};
use crate::router::models::{outcome, Action, ActionView, RouteReturn, RouterError};
use crate::text::{contains, contains_str};
use vstd::prelude::*;
use vstd::slice::{slice_subrange, slice_to_vec};
use vstd::string::*;
use vstd::utf8::encode_utf8;

verus! {

/// The number of bytes that a text takes on the wire.
pub open spec fn byte_len(text: Seq<char>) -> nat {
    encode_utf8(text).len()
}

/// Counts the bytes that a text takes on the wire.
pub fn byte_length(text: &str) -> (n: usize)
    ensures
        n == byte_len(text@),
{
    text.as_bytes().len()
}

/// Sending a response without a payload.
pub open spec fn send(
    version: Seq<char>,
    code: HttpCode,
    header_lines: Seq<Seq<char>>,
    body: Seq<char>,
) -> ActionView {
    ActionView::Send { head: response_text(version, code, header_lines, body), payload: None }
}

/// Sending a response that has neither headers nor body.
pub open spec fn send_bare(version: Seq<char>, code: HttpCode) -> ActionView {
    send(version, code, Seq::empty(), Seq::empty())
}

/// Builds the action that sends a response with the canonical reason phrase
/// of `code` and the version of the request.
pub(crate) fn reply(
    request: &Request,
    code: HttpCode,
    headers: Option<Vec<HttpHeader>>,
    body: Option<String>,
    payload: Option<Vec<u8>>,
) -> (a: Action)
    ensures
        a@ == (ActionView::Send {
            head: response_text(
                request.http_version@,
                code,
                match headers {
                    Some(h) => lines_of(h@),
                    None => Seq::empty(),
                },
                match body {
                    Some(b) => b@,
                    None => Seq::empty(),
                },
            ),
            payload: match payload {
                Some(bytes) => Some(bytes@),
                None => None,
            },
        }),
{
    let response = Response::new(code, request.http_version.clone(), headers, body);
    Action::Send { head: response.to_string(), payload }
}

/// The answer to `GET /`: 200, no headers, no body.
pub open spec fn root_reply(request: RequestView) -> ActionView {
    send_bare(request.http_version, HttpCode::OK)
}

/// Handles `GET /`.
pub fn handle_get_root(request: &Request, _params: Params) -> (r: RouteReturn)
    ensures
        outcome(r) == Ok::<ActionView, RouterError>(root_reply(request@)),
{
    Ok(reply(request, HttpCode::OK, None, None, None))
}

/// The answer to `GET /user-agent`: 200 with the User-Agent of the request
/// as a plain-text body, which is empty where the request has none.
pub open spec fn user_agent_reply(request: RequestView) -> ActionView {
    let agent = match request.user_agent {
        Some(agent) => agent,
        None => Seq::empty(),
    };
    send(
        request.http_version,
        HttpCode::OK,
        seq![content_type_line("text/plain"@), content_length_line(byte_len(agent))],
        agent,
    )
}

/// Handles `GET /user-agent`.
pub fn handle_get_user_agent(request: &Request, _params: Params) -> (r: RouteReturn)
    ensures
        outcome(r) == Ok::<ActionView, RouterError>(user_agent_reply(request@)),
{
    let (length, body) = match &request.user_agent {
        Some(agent) => (byte_length(agent.as_str()), Some(agent.clone())),
        None => (0, None),
    };
    proof {
        assert(encode_utf8(Seq::<char>::empty()).len() == 0);
    }
    let mut headers: Vec<HttpHeader> = Vec::new();
    headers.push(HttpHeader::ContentType("text/plain".to_owned()));
    headers.push(HttpHeader::ContentLength(length));
    assert(lines_of(headers@) =~= seq![
        content_type_line("text/plain"@),
        content_length_line(length as nat),
    ]);
    Ok(reply(request, HttpCode::OK, Some(headers), body, None))
}

/// The request accepts a gzip-encoded answer: its Accept-Encoding holds
/// `gzip` somewhere.
pub open spec fn wants_gzip(request: RequestView) -> bool {
    match request.accept_encoding {
        Some(encoding) => contains(encoding, "gzip"@),
        None => false,
    }
}

/// The answer that echoes `text` as it is: 200 with `text` as a plain-text
/// body.
pub open spec fn echo_plain_reply(request: RequestView, text: Seq<char>) -> ActionView {
    send(
        request.http_version,
        HttpCode::OK,
        seq![content_type_line("text/plain"@), content_length_line(byte_len(text))],
        text,
    )
}

/// The answer that echoes a text in compressed form: 200 without a textual
/// body, with the gzip stream as the payload that follows the head.
pub open spec fn echo_gzip_reply(request: RequestView, stream: Seq<u8>) -> ActionView {
    ActionView::Send {
        head: response_text(
            request.http_version,
            HttpCode::OK,
            seq![
                content_type_line("text/plain"@),
                content_encoding_line("gzip"@),
                content_length_line(stream.len()),
            ],
            Seq::empty(),
        ),
        payload: Some(stream),
    }
}

/// Echoes `text` as it is.
pub fn echo_plain(request: &Request, text: String) -> (r: RouteReturn)
    ensures
        outcome(r) == Ok::<ActionView, RouterError>(echo_plain_reply(request@, text@)),
{
    let length = byte_length(text.as_str());
    let mut headers: Vec<HttpHeader> = Vec::new();
    headers.push(HttpHeader::ContentType("text/plain".to_owned()));
    headers.push(HttpHeader::ContentLength(length));
    assert(lines_of(headers@) =~= seq![
        content_type_line("text/plain"@),
        content_length_line(length as nat),
    ]);
    Ok(reply(request, HttpCode::OK, Some(headers), Some(text), None))
}

/// Answers with what the compression of the echoed text gave: the stream
/// as the payload, or the failure.
pub fn echo_compressed(request: &Request, compressed: Result<Vec<u8>, std::io::Error>) -> (r:
    RouteReturn)
    ensures
        outcome(r) == match compressed {
            Ok(stream) => Ok(echo_gzip_reply(request@, stream@)),
            Err(_) => Err(RouterError::IoFailure),
        },
{
    match compressed {
        Ok(stream) => {
            let mut headers: Vec<HttpHeader> = Vec::new();
            headers.push(HttpHeader::ContentType("text/plain".to_owned()));
            headers.push(HttpHeader::ContentEncoding("gzip".to_owned()));
            headers.push(HttpHeader::ContentLength(stream.len()));
            assert(lines_of(headers@) =~= seq![
                content_type_line("text/plain"@),
                content_encoding_line("gzip"@),
                content_length_line(stream@.len()),
            ]);
            Ok(reply(request, HttpCode::OK, Some(headers), None, Some(stream)))
        },
        Err(_) => Err(RouterError::IoFailure),
    }
}

/// What `GET /echo/:str` may answer. Without the parameter the handler
/// fails. A request that accepts gzip gets the compressed echo, unless the
/// compression fails; any other request gets the plain echo.
pub open spec fn echo_outcome(
    request: RequestView,
    params: Map<Seq<char>, Seq<char>>,
    r: Result<ActionView, RouterError>,
) -> bool {
    if !params.contains_key("str"@) {
        r == Err::<ActionView, RouterError>(RouterError::MissingRouteParameter)
    } else if wants_gzip(request) {
        ||| r == Err::<ActionView, RouterError>(RouterError::IoFailure)
        ||| r == Ok::<ActionView, RouterError>(
            echo_gzip_reply(request, gzip_encoding(encode_utf8(params["str"@]))),
        )
    } else {
        r == Ok::<ActionView, RouterError>(echo_plain_reply(request, params["str"@]))
    }
}

/// Handles `GET /echo/:str`.
pub fn handle_get_echo(request: &Request, params: Params) -> (r: RouteReturn)
    ensures
        echo_outcome(request@, params@, outcome(r)),
{
    let text = match params.get("str") {
        Some(text) => text.clone(),
        None => {
            return Err(RouterError::MissingRouteParameter);
        },
    };
    let gzip_accepted = match &request.accept_encoding {
        Some(encoding) => contains_str(encoding.as_str(), "gzip"),
        None => false,
    };
    if gzip_accepted {
        echo_compressed(request, gzip(text.as_str().as_bytes()))
    } else {
        echo_plain(request, text)
    }
}

/// The path of a served file: the directory and the file name, joined as
/// they are.
pub open spec fn file_path(directory: Seq<char>, file_name: Seq<char>) -> Seq<char> {
    directory + file_name
}

/// Joins the serving directory and a file name.
fn join_path(directory: &str, file_name: &str) -> (path: String)
    ensures
        path@ == file_path(directory@, file_name@),
{
    let mut path = directory.to_owned();
    path.append(file_name);
    path
}

/// What `GET /files/:file_name` answers: the read of the named file.
/// Without the parameter the handler fails.
pub open spec fn get_files_outcome(
    params: Map<Seq<char>, Seq<char>>,
    directory: Seq<char>,
) -> Result<ActionView, RouterError> {
    if params.contains_key("file_name"@) {
        Ok(ActionView::ReadFile { path: file_path(directory, params["file_name"@]) })
    } else {
        Err(RouterError::MissingRouteParameter)
    }
}

/// Handles `GET /files/:file_name`.
pub fn handle_get_files(request: &Request, params: Params, directory: &str) -> (r: RouteReturn)
    ensures
        outcome(r) == get_files_outcome(params@, directory@),
{
    match params.get("file_name") {
        Some(file_name) => Ok(Action::ReadFile { path: join_path(directory, file_name.as_str()) }),
        None => Err(RouterError::MissingRouteParameter),
    }
}

/// The answer to `GET /files/:file_name` once the file was read: 200 with
/// its contents, or 404 where it could not be read.
pub open spec fn file_reply(request: RequestView, contents: Option<Seq<char>>) -> ActionView {
    match contents {
        Some(text) => send(
            request.http_version,
            HttpCode::OK,
            seq![
                content_type_line("application/octet-stream"@),
                content_length_line(byte_len(text)),
            ],
            text,
        ),
        None => send_bare(request.http_version, HttpCode::NotFound),
    }
}

/// Answers `GET /files/:file_name` with what the read gave: the contents of
/// the file, or `None` where the read failed.
pub fn finish_get_files(request: &Request, contents: Option<String>) -> (a: Action)
    ensures
        a@ == file_reply(
            request@,
            match contents {
                Some(text) => Some(text@),
                None => None,
            },
        ),
{
    match contents {
        Some(text) => {
            let length = byte_length(text.as_str());
            let mut headers: Vec<HttpHeader> = Vec::new();
            headers.push(HttpHeader::ContentType("application/octet-stream".to_owned()));
            headers.push(HttpHeader::ContentLength(length));
            assert(lines_of(headers@) =~= seq![
                content_type_line("application/octet-stream"@),
                content_length_line(length as nat),
            ]);
            reply(request, HttpCode::OK, Some(headers), Some(text), None)
        },
        None => reply(request, HttpCode::NotFound, None, None, None),
    }
}

/// The body of a request that announces its length lies within the last
/// line: the line has at least Content-Length bytes.
pub open spec fn body_in_bounds(request: RequestView) -> bool {
    match request.content_length {
        Some(length) => request.request.len() > 0 && length <= byte_len(request.request.last()),
        None => true,
    }
}

/// What `POST /files/:file_name` answers: the write of the first
/// Content-Length bytes of the last line to the named file. Without the
/// parameter, or without a Content-Length, the handler fails.
pub open spec fn post_files_outcome(
    request: RequestView,
    params: Map<Seq<char>, Seq<char>>,
    directory: Seq<char>,
) -> Result<ActionView, RouterError> {
    if !params.contains_key("file_name"@) {
        Err(RouterError::MissingRouteParameter)
    } else {
        match request.content_length {
            Some(length) => Ok(
                ActionView::WriteFile {
                    path: file_path(directory, params["file_name"@]),
                    body: encode_utf8(request.request.last()).subrange(0, length as int),
                },
            ),
            None => Err(RouterError::MissingContentLength),
        }
    }
}

/// Handles `POST /files/:file_name`. The body must lie within the last line
/// of the request.
pub fn handle_post_files(request: &Request, params: Params, directory: &str) -> (r: RouteReturn)
    requires
        params@.contains_key("file_name"@) ==> body_in_bounds(request@),
    ensures
        outcome(r) == post_files_outcome(request@, params@, directory@),
{
    let path = match params.get("file_name") {
        Some(file_name) => join_path(directory, file_name.as_str()),
        None => {
            return Err(RouterError::MissingRouteParameter);
        },
    };
    match request.content_length {
        Some(length) => {
            let line = &request.request[request.request.len() - 1];
            let body = slice_to_vec(slice_subrange(line.as_str().as_bytes(), 0, length));
            Ok(Action::WriteFile { path, body })
        },
        None => Err(RouterError::MissingContentLength),
    }
}

/// The answer to `POST /files/:file_name` once the write was tried: 201
/// where the file was written, 500 where it was not.
pub open spec fn stored_reply(request: RequestView, written: bool) -> ActionView {
    if written {
        send_bare(request.http_version, HttpCode::Created)
    } else {
        send_bare(request.http_version, HttpCode::InternalServerError)
    }
}

/// Answers `POST /files/:file_name` with what the write gave.
pub fn finish_post_files(request: &Request, written: bool) -> (a: Action)
    ensures
        a@ == stored_reply(request@, written),
{
    if written {
        reply(request, HttpCode::Created, None, None, None)
    } else {
        reply(request, HttpCode::InternalServerError, None, None, None)
    }
}

} // verus!
