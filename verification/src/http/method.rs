//! The request methods the parser recognizes.

use crate::text::str_eq;
use vstd::prelude::*;

verus! {

/// A request method.
#[derive(Debug, PartialEq, Eq, Clone, Copy, Structural)]
pub enum HttpMethod {
    /// Retrieve a representation of the resource.
    GET,
    /// Submit data to the resource.
    POST,
    /// Replace the resource.
    PUT,
    /// Modify the resource in part.
    PATCH,
    /// Remove the resource.
    DELETE,
}

impl HttpMethod {
    /// The token that names the method on a request line.
    pub open spec fn token(self) -> Seq<char> {
        match self {
            HttpMethod::GET => "GET"@,
            HttpMethod::POST => "POST"@,
            HttpMethod::PUT => "PUT"@,
            HttpMethod::PATCH => "PATCH"@,
            HttpMethod::DELETE => "DELETE"@,
        }
    }

    /// The method that a token names, if any. Tokens are case-sensitive.
    pub open spec fn parse(s: Seq<char>) -> Option<HttpMethod> {
        if s == "GET"@ {
            Some(HttpMethod::GET)
        } else if s == "POST"@ {
            Some(HttpMethod::POST)
        } else if s == "PUT"@ {
            Some(HttpMethod::PUT)
        } else if s == "PATCH"@ {
            Some(HttpMethod::PATCH)
        } else if s == "DELETE"@ {
            Some(HttpMethod::DELETE)
        } else {
            None
        }
    }

    /// Parses a method token; an unknown token is an error.
    pub fn from_str(s: &str) -> (r: Result<HttpMethod, &'static str>)
        ensures
            match r {
                Ok(m) => HttpMethod::parse(s@) == Some(m),
                Err(e) => HttpMethod::parse(s@) is None && e@ == "Unknown HTTP method"@,
            },
    {
        if str_eq(s, "GET") {
            Ok(HttpMethod::GET)
        } else if str_eq(s, "POST") {
            Ok(HttpMethod::POST)
        } else if str_eq(s, "PUT") {
            Ok(HttpMethod::PUT)
        } else if str_eq(s, "PATCH") {
            Ok(HttpMethod::PATCH)
        } else if str_eq(s, "DELETE") {
            Ok(HttpMethod::DELETE)
        } else {
            Err("Unknown HTTP method")
        }
    }

    /// Every method is named by its own token and by no other.
    pub proof fn lemma_parse_token(self)
        ensures
            HttpMethod::parse(self.token()) == Some(self),
    {
        reveal_strlit("GET");
        reveal_strlit("POST");
        reveal_strlit("PUT");
        reveal_strlit("PATCH");
        reveal_strlit("DELETE");
        assert("GET"@[0] == 'G' && "PUT"@[0] == 'P');
        assert("POST"@.len() == 4 && "PATCH"@.len() == 5 && "DELETE"@.len() == 6);
    }
}

} // verus!
