//! HTTP status codes, each with its number and its canonical reason phrase.

use vstd::prelude::*;

verus! {

/// The status codes this server can answer with.
#[derive(Debug, PartialEq, Eq, Clone, Copy, Structural)]
pub enum HttpCode {
    /// 200 OK
    OK,
    /// 201 Created
    Created,
    /// 202 Accepted
    Accepted,
    /// 204 No Content
    NoContent,
    /// 301 Moved Permanently
    MovedPermanently,
    /// 302 Found
    Found,
    /// 304 Not Modified
    NotModified,
    /// 400 Bad Request
    BadRequest,
    /// 401 Unauthorized
    Unauthorized,
    /// 403 Forbidden
    Forbidden,
    /// 404 Not Found
    NotFound,
    /// 405 Method Not Allowed
    MethodNotAllowed,
    /// 500 Internal Server Error
    InternalServerError,
    /// 501 Not Implemented
    NotImplemented,
    /// 502 Bad Gateway
    BadGateway,
    /// 503 Service Unavailable
    ServiceUnavailable,
}

impl HttpCode {
    /// The number that goes on the status line.
    pub open spec fn number(self) -> nat {
        match self {
            HttpCode::OK => 200,
            HttpCode::Created => 201,
            HttpCode::Accepted => 202,
            HttpCode::NoContent => 204,
            HttpCode::MovedPermanently => 301,
            HttpCode::Found => 302,
            HttpCode::NotModified => 304,
            HttpCode::BadRequest => 400,
            HttpCode::Unauthorized => 401,
            HttpCode::Forbidden => 403,
            HttpCode::NotFound => 404,
            HttpCode::MethodNotAllowed => 405,
            HttpCode::InternalServerError => 500,
            HttpCode::NotImplemented => 501,
            HttpCode::BadGateway => 502,
            HttpCode::ServiceUnavailable => 503,
        }
    }

    /// The canonical reason phrase that follows the number.
    pub open spec fn reason_phrase(self) -> Seq<char> {
        match self {
            HttpCode::OK => "OK"@,
            HttpCode::Created => "Created"@,
            HttpCode::Accepted => "Accepted"@,
            HttpCode::NoContent => "No Content"@,
            HttpCode::MovedPermanently => "Moved Permanently"@,
            HttpCode::Found => "Found"@,
            HttpCode::NotModified => "Not Modified"@,
            HttpCode::BadRequest => "Bad Request"@,
            HttpCode::Unauthorized => "Unauthorized"@,
            HttpCode::Forbidden => "Forbidden"@,
            HttpCode::NotFound => "Not Found"@,
            HttpCode::MethodNotAllowed => "Method Not Allowed"@,
            HttpCode::InternalServerError => "Internal Server Error"@,
            HttpCode::NotImplemented => "Not Implemented"@,
            HttpCode::BadGateway => "Bad Gateway"@,
            HttpCode::ServiceUnavailable => "Service Unavailable"@,
        }
    }

    /// Converts the code to its numeric value.
    pub fn to_u16(&self) -> (n: u16)
        ensures
            n == self.number(),
    {
        match self {
            HttpCode::OK => 200,
            HttpCode::Created => 201,
            HttpCode::Accepted => 202,
            HttpCode::NoContent => 204,
            HttpCode::MovedPermanently => 301,
            HttpCode::Found => 302,
            HttpCode::NotModified => 304,
            HttpCode::BadRequest => 400,
            HttpCode::Unauthorized => 401,
            HttpCode::Forbidden => 403,
            HttpCode::NotFound => 404,
            HttpCode::MethodNotAllowed => 405,
            HttpCode::InternalServerError => 500,
            HttpCode::NotImplemented => 501,
            HttpCode::BadGateway => 502,
            HttpCode::ServiceUnavailable => 503,
        }
    }

    /// The reason phrase as a static string slice.
    pub fn as_str(&self) -> (s: &'static str)
        ensures
            s@ == self.reason_phrase(),
    {
        match self {
            HttpCode::OK => "OK",
            HttpCode::Created => "Created",
            HttpCode::Accepted => "Accepted",
            HttpCode::NoContent => "No Content",
            HttpCode::MovedPermanently => "Moved Permanently",
            HttpCode::Found => "Found",
            HttpCode::NotModified => "Not Modified",
            HttpCode::BadRequest => "Bad Request",
            HttpCode::Unauthorized => "Unauthorized",
            HttpCode::Forbidden => "Forbidden",
            HttpCode::NotFound => "Not Found",
            HttpCode::MethodNotAllowed => "Method Not Allowed",
            HttpCode::InternalServerError => "Internal Server Error",
            HttpCode::NotImplemented => "Not Implemented",
            HttpCode::BadGateway => "Bad Gateway",
            HttpCode::ServiceUnavailable => "Service Unavailable",
        }
    }

    /// Formats the code as its reason phrase.
    pub fn to_string(&self) -> (s: String)
        ensures
            s@ == self.reason_phrase(),
    {
        self.as_str().to_owned()
    }
}

/// Two codes with the same number are the same code.
pub proof fn lemma_number_determines_code(a: HttpCode, b: HttpCode)
    requires
        a.number() == b.number(),
    ensures
        a == b,
{
}

/// Two codes with the same reason phrase are the same code.
pub proof fn lemma_reason_phrase_determines_code(a: HttpCode, b: HttpCode)
    requires
        a.reason_phrase() == b.reason_phrase(),
    ensures
        a == b,
{
    reveal_strlit("OK");
    reveal_strlit("Created");
    reveal_strlit("Accepted");
    reveal_strlit("No Content");
    reveal_strlit("Moved Permanently");
    reveal_strlit("Found");
    reveal_strlit("Not Modified");
    reveal_strlit("Bad Request");
    reveal_strlit("Unauthorized");
    reveal_strlit("Forbidden");
    reveal_strlit("Not Found");
    reveal_strlit("Method Not Allowed");
    reveal_strlit("Internal Server Error");
    reveal_strlit("Not Implemented");
    reveal_strlit("Bad Gateway");
    reveal_strlit("Service Unavailable");
    assert("OK"@.len() == 2 && "Created"@.len() == 7 && "Accepted"@.len() == 8);
    assert("No Content"@.len() == 10 && "Moved Permanently"@.len() == 17 && "Found"@.len() == 5);
    assert("Not Modified"@.len() == 12 && "Bad Request"@.len() == 11);
    assert("Unauthorized"@.len() == 12 && "Forbidden"@.len() == 9 && "Not Found"@.len() == 9);
    assert("Method Not Allowed"@.len() == 18 && "Internal Server Error"@.len() == 21);
    assert("Not Implemented"@.len() == 15 && "Bad Gateway"@.len() == 11);
    assert("Service Unavailable"@.len() == 19);
    assert("Not Modified"@[0] == 'N' && "Unauthorized"@[0] == 'U');
    assert("Forbidden"@[0] == 'F' && "Not Found"@[0] == 'N');
    assert("Bad Request"@[4] == 'R' && "Bad Gateway"@[4] == 'G');
}

} // verus!
