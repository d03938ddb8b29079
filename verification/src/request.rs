//! The request parser: from the bytes of one bounded read to a structured
//! request. Extraction is best-effort: an unknown method or a missing target
//! leaves a field empty, and only an empty request is an error.

use crate::http::method::HttpMethod;
use crate::text::{
    contains, contains_str, lemma_split_nonempty, parse_usize, parse_usize_str, replace,
    replace_str, split, split_str, trim_end, trim_end_str, views,
};
use crate::url::{parse_url, Url, UrlView};
use vstd::prelude::*;
use vstd::slice::slice_subrange;
use vstd::utf8::{decode_utf8, valid_utf8};

verus! {

/// The most that is read of one request: what lies beyond is not parsed.
pub const MAX_REQUEST_BYTES: usize = 1024;

/// Why a request could not be parsed.
#[derive(Debug, PartialEq, Eq, Clone, Copy, Structural)]
pub enum ParseError {
    /// Nothing but white space was received.
    EmptyRequest,
}

impl ParseError {
    /// The message of the error.
    pub fn to_string(&self) -> (s: String)
        ensures
            s@ == "Error: request is empty"@,
    {
        "Error: request is empty".to_owned()
    }
}

/// The text that lossy UTF-8 decoding makes of `bytes`: valid sequences
/// decode to their characters, and each invalid sequence is replaced by
/// U+FFFD.
pub uninterp spec fn utf8_lossy(bytes: Seq<u8>) -> Seq<char>;

/// Decodes bytes as UTF-8, replacing invalid sequences.
///
/// Trusted: this is `String::from_utf8_lossy`. The contract names its result
/// and adds only that bytes that are valid UTF-8 decode to the string they
/// encode.
#[verifier::external_body]
fn decode_lossy(bytes: &[u8]) -> (s: String)
    ensures
        s@ == utf8_lossy(bytes@),
        valid_utf8(bytes@) ==> s@ == decode_utf8(bytes@),
{
    String::from_utf8_lossy(bytes).into_owned()
}

/// The lines of a request: the text without the white space at its end,
/// split at every CRLF. `None` where nothing is left of the text.
pub open spec fn request_lines(text: Seq<char>) -> Option<Seq<Seq<char>>> {
    let trimmed = trim_end(text);
    if trimmed.len() == 0 {
        None
    } else {
        Some(split(trimmed, "\r\n"@))
    }
}

/// The first of `lines` in which `pat` occurs.
pub open spec fn first_line_with(lines: Seq<Seq<char>>, pat: Seq<char>) -> Option<Seq<char>>
    decreases lines.len(),
{
    if lines.len() == 0 {
        None
    } else if contains(lines[0], pat) {
        Some(lines[0])
    } else {
        first_line_with(lines.skip(1), pat)
    }
}

/// The piece of `line` at place `k`, counted from zero, when `line` is split
/// at every occurrence of `sep`.
pub open spec fn piece(line: Seq<char>, sep: Seq<char>, k: int) -> Option<Seq<char>> {
    let pieces = split(line, sep);
    if 0 <= k < pieces.len() {
        Some(pieces[k])
    } else {
        None
    }
}

/// The User-Agent of a request: the first line in which `User-Agent:`
/// occurs, with every `User-Agent: ` taken out of it.
pub open spec fn user_agent_of(lines: Seq<Seq<char>>) -> Option<Seq<char>> {
    match first_line_with(lines, "User-Agent:"@) {
        Some(line) => Some(replace(line, "User-Agent: "@, Seq::empty())),
        None => None,
    }
}

/// The Accept-Encoding of a request: in the first line in which
/// `Accept-Encoding` occurs, what stands between the first
/// `Accept-Encoding: ` and the next one.
pub open spec fn accept_encoding_of(lines: Seq<Seq<char>>) -> Option<Seq<char>> {
    match first_line_with(lines, "Accept-Encoding"@) {
        Some(line) => piece(line, "Accept-Encoding: "@, 1),
        None => None,
    }
}

/// The Content-Length of a request: in the first line in which
/// `Content-Length` occurs, the unsigned integer that stands between the
/// first `Content-Length: ` and the next one.
pub open spec fn content_length_of(lines: Seq<Seq<char>>) -> Option<usize> {
    match first_line_with(lines, "Content-Length"@) {
        Some(line) => match piece(line, "Content-Length: "@, 1) {
            Some(digits) => parse_usize(digits),
            None => None,
        },
        None => None,
    }
}

/// The method of a request line: its first token, where that names a method.
pub open spec fn method_of(request_line: Seq<char>) -> Option<HttpMethod> {
    match piece(request_line, " "@, 0) {
        Some(token) => HttpMethod::parse(token),
        None => None,
    }
}

/// The target of a request line: its second token.
pub open spec fn target_of(request_line: Seq<char>) -> Option<Seq<char>> {
    piece(request_line, " "@, 1)
}

/// The HTTP version of a request line: its fourth token, and `HTTP/1.1`
/// where it has none.
pub open spec fn version_of(request_line: Seq<char>) -> Seq<char> {
    match piece(request_line, " "@, 3) {
        Some(token) => token,
        None => "HTTP/1.1"@,
    }
}

/// What a `Request` holds, as plain values.
pub struct RequestView {
    pub request: Seq<Seq<char>>,
    pub user_agent: Option<Seq<char>>,
    pub accept_encoding: Option<Seq<char>>,
    pub content_length: Option<usize>,
    pub method: Option<HttpMethod>,
    pub url: Option<UrlView>,
    pub http_version: Seq<char>,
}

/// The request that a sequence of lines stands for. The first line is the
/// request line.
pub open spec fn request_of_lines(lines: Seq<Seq<char>>) -> RequestView {
    RequestView {
        request: lines,
        user_agent: user_agent_of(lines),
        accept_encoding: accept_encoding_of(lines),
        content_length: content_length_of(lines),
        method: method_of(lines[0]),
        url: match target_of(lines[0]) {
            Some(target) => Some(parse_url(target)),
            None => None,
        },
        http_version: version_of(lines[0]),
    }
}

/// The request that a text stands for, or `None` where the text is empty.
pub open spec fn parse_request(text: Seq<char>) -> Option<RequestView> {
    match request_lines(text) {
        Some(lines) => Some(request_of_lines(lines)),
        None => None,
    }
}

/// A parsed request.
#[derive(Debug)]
pub struct Request {
    /// The lines of the request, in the order received.
    pub request: Vec<String>,
    /// The User-Agent header, if one was sent.
    pub user_agent: Option<String>,
    /// The Accept-Encoding header, if one was sent.
    pub accept_encoding: Option<String>,
    /// The Content-Length header, if one was sent and is a number.
    pub content_length: Option<usize>,
    /// The method, if the request line names one that is known.
    pub method: Option<HttpMethod>,
    /// The target, if the request line has one.
    pub url: Option<Url>,
    /// The HTTP version.
    pub http_version: String,
}

impl View for Request {
    type V = RequestView;

    open spec fn view(&self) -> RequestView {
        RequestView {
            request: views(self.request@),
            user_agent: match self.user_agent {
                Some(s) => Some(s@),
                None => None,
            },
            accept_encoding: match self.accept_encoding {
                Some(s) => Some(s@),
                None => None,
            },
            content_length: self.content_length,
            method: self.method,
            url: match self.url {
                Some(u) => Some(u@),
                None => None,
            },
            http_version: self.http_version@,
        }
    }
}

/// The first of `lines` in which `pat` occurs.
fn find_line<'a>(lines: &'a Vec<String>, pat: &str) -> (r: Option<&'a String>)
    ensures
        match r {
            Some(line) => first_line_with(views(lines@), pat@) == Some(line@),
            None => first_line_with(views(lines@), pat@) is None,
        },
{
    let mut i: usize = 0;
    assert(views(lines@).skip(0) =~= views(lines@));
    while i < lines.len()
        invariant
            i <= lines.len(),
            first_line_with(views(lines@), pat@) == first_line_with(
                views(lines@).skip(i as int),
                pat@,
            ),
        decreases lines.len() - i,
    {
        assert(views(lines@).skip(i as int).skip(1) =~= views(lines@).skip(i + 1));
        if contains_str(lines[i].as_str(), pat) {
            return Some(&lines[i]);
        }
        i += 1;
    }
    None
}

/// The piece of `line` at place `k` when `line` is split at `sep`.
fn piece_str(line: &str, sep: &str, k: usize) -> (r: Option<String>)
    ensures
        match r {
            Some(s) => piece(line@, sep@, k as int) == Some(s@),
            None => piece(line@, sep@, k as int) is None,
        },
{
    let pieces = split_str(line, sep);
    if k < pieces.len() {
        Some(pieces[k].clone())
    } else {
        None
    }
}

impl Request {
    /// Parses the first `bytes_read` bytes of `buffer`, which one read from
    /// the connection has filled.
    pub fn new(buffer: &[u8], bytes_read: usize) -> (r: Result<Request, ParseError>)
        requires
            bytes_read <= buffer@.len(),
        ensures
            match r {
                Ok(request) => parse_request(utf8_lossy(buffer@.subrange(0, bytes_read as int)))
                    == Some(request@) && request.request@.len() > 0,
                Err(e) => e == ParseError::EmptyRequest && parse_request(
                    utf8_lossy(buffer@.subrange(0, bytes_read as int)),
                ) is None,
            },
    {
        let text = decode_lossy(slice_subrange(buffer, 0, bytes_read));
        Request::parse(text.as_str())
    }

    /// Parses the text of a request.
    pub fn parse(text: &str) -> (r: Result<Request, ParseError>)
        ensures
            match r {
                Ok(request) => parse_request(text@) == Some(request@) && request.request@.len() > 0,
                Err(e) => e == ParseError::EmptyRequest && parse_request(text@) is None,
            },
    {
        match Request::lines(text) {
            Ok(request) => {
                let user_agent = Request::get_user_agent_header(&request);
                let accept_encoding = Request::get_accept_encoding(&request);
                let content_length = Request::get_content_length(&request);
                let method = Request::get_method(&request[0]);
                let url = match Request::get_url(&request[0]) {
                    Some(target) => Some(Url::new(target.as_str())),
                    None => None,
                };
                let http_version = Request::get_http_version(&request[0]);
                Ok(
                    Request {
                        request,
                        user_agent,
                        accept_encoding,
                        content_length,
                        method,
                        url,
                        http_version,
                    },
                )
            },
            Err(e) => Err(e),
        }
    }

    /// Decodes the first `bytes_read` bytes of `buffer` and splits them into
    /// lines.
    pub fn get_request(buffer: &[u8], bytes_read: usize) -> (r: Result<Vec<String>, ParseError>)
        requires
            bytes_read <= buffer@.len(),
        ensures
            match r {
                Ok(lines) => request_lines(utf8_lossy(buffer@.subrange(0, bytes_read as int)))
                    == Some(views(lines@)) && lines@.len() > 0,
                Err(e) => e == ParseError::EmptyRequest && request_lines(
                    utf8_lossy(buffer@.subrange(0, bytes_read as int)),
                ) is None,
            },
    {
        let text = decode_lossy(slice_subrange(buffer, 0, bytes_read));
        Request::lines(text.as_str())
    }

    /// Splits the text of a request into lines.
    pub fn lines(text: &str) -> (r: Result<Vec<String>, ParseError>)
        ensures
            match r {
                Ok(lines) => request_lines(text@) == Some(views(lines@)) && lines@.len() > 0,
                Err(e) => e == ParseError::EmptyRequest && request_lines(text@) is None,
            },
    {
        let trimmed = trim_end_str(text);
        if trimmed.is_empty() {
            Err(ParseError::EmptyRequest)
        } else {
            proof {
                lemma_split_nonempty(trimmed@, "\r\n"@);
            }
            Ok(split_str(trimmed, "\r\n"))
        }
    }

    /// Finds the User-Agent header among the lines.
    pub fn get_user_agent_header(request: &Vec<String>) -> (r: Option<String>)
        ensures
            match r {
                Some(s) => user_agent_of(views(request@)) == Some(s@),
                None => user_agent_of(views(request@)) is None,
            },
    {
        proof {
            reveal_strlit("");
            assert(""@ =~= Seq::<char>::empty());
        }
        match find_line(request, "User-Agent:") {
            Some(line) => Some(replace_str(line.as_str(), "User-Agent: ", "")),
            None => None,
        }
    }

    /// Finds the Accept-Encoding header among the lines.
    pub fn get_accept_encoding(request: &Vec<String>) -> (r: Option<String>)
        ensures
            match r {
                Some(s) => accept_encoding_of(views(request@)) == Some(s@),
                None => accept_encoding_of(views(request@)) is None,
            },
    {
        match find_line(request, "Accept-Encoding") {
            Some(line) => piece_str(line.as_str(), "Accept-Encoding: ", 1),
            None => None,
        }
    }

    /// Finds the Content-Length header among the lines.
    pub fn get_content_length(request: &Vec<String>) -> (r: Option<usize>)
        ensures
            r == content_length_of(views(request@)),
    {
        match find_line(request, "Content-Length") {
            Some(line) => match piece_str(line.as_str(), "Content-Length: ", 1) {
                Some(digits) => parse_usize_str(digits.as_str()),
                None => None,
            },
            None => None,
        }
    }

    /// Reads the method off the request line.
    pub fn get_method(request_line: &String) -> (r: Option<HttpMethod>)
        ensures
            r == method_of(request_line@),
    {
        match piece_str(request_line.as_str(), " ", 0) {
            Some(token) => match HttpMethod::from_str(token.as_str()) {
                Ok(method) => Some(method),
                Err(_) => None,
            },
            None => None,
        }
    }

    /// Reads the target off the request line.
    pub fn get_url(request_line: &String) -> (r: Option<String>)
        ensures
            match r {
                Some(s) => target_of(request_line@) == Some(s@),
                None => target_of(request_line@) is None,
            },
    {
        piece_str(request_line.as_str(), " ", 1)
    }

    /// Reads the HTTP version off the request line.
    pub fn get_http_version(request_line: &String) -> (r: String)
        ensures
            r@ == version_of(request_line@),
    {
        match piece_str(request_line.as_str(), " ", 3) {
            Some(token) => token,
            None => "HTTP/1.1".to_owned(),
        }
    }
}

} // verus!
