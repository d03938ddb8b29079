//! The response headers this server sets.

use crate::text::{decimal, decimal_string};
use vstd::prelude::*;
use vstd::string::*;

verus! {

/// A header line: the name, a colon and a space, then the value.
pub open spec fn header_line(name: Seq<char>, value: Seq<char>) -> Seq<char> {
    name + ": "@ + value
}

/// The `Content-Type` line for a media type.
pub open spec fn content_type_line(media_type: Seq<char>) -> Seq<char> {
    header_line("Content-Type"@, media_type)
}

/// The `Content-Length` line for a number of bytes.
pub open spec fn content_length_line(length: nat) -> Seq<char> {
    header_line("Content-Length"@, decimal(length))
}

/// The `Content-Encoding` line for an encoding.
pub open spec fn content_encoding_line(encoding: Seq<char>) -> Seq<char> {
    header_line("Content-Encoding"@, encoding)
}

/// A response header: a tagged value that knows its own name.
#[derive(Debug, PartialEq)]
pub enum HttpHeader {
    /// `Content-Type`: the media type of the body.
    ContentType(String),
    /// `Content-Length`: the size of the body in bytes.
    ContentLength(usize),
    /// `Content-Encoding`: the encoding applied to the body.
    ContentEncoding(String),
}

impl HttpHeader {
    /// The header's name as it is written on the wire.
    pub open spec fn name(self) -> Seq<char> {
        match self {
            HttpHeader::ContentType(_) => "Content-Type"@,
            HttpHeader::ContentLength(_) => "Content-Length"@,
            HttpHeader::ContentEncoding(_) => "Content-Encoding"@,
        }
    }

    /// The header's value as it is written on the wire.
    pub open spec fn value(self) -> Seq<char> {
        match self {
            HttpHeader::ContentType(v) => v@,
            HttpHeader::ContentLength(n) => decimal(n as nat),
            HttpHeader::ContentEncoding(v) => v@,
        }
    }

    /// The header line: name, a colon and a space, then the value.
    pub open spec fn line(self) -> Seq<char> {
        header_line(self.name(), self.value())
    }

    /// Formats the header as `Name: value`.
    pub fn to_string(&self) -> (s: String)
        ensures
            s@ == self.line(),
    {
        let mut s = String::new();
        match self {
            HttpHeader::ContentType(v) => {
                s.append("Content-Type");
                s.append(": ");
                s.append(v.as_str());
            },
            HttpHeader::ContentLength(n) => {
                let digits = decimal_string(*n);
                s.append("Content-Length");
                s.append(": ");
                s.append(digits.as_str());
            },
            HttpHeader::ContentEncoding(v) => {
                s.append("Content-Encoding");
                s.append(": ");
                s.append(v.as_str());
            },
        }
        assert(s@ =~= self.line());
        s
    }
}

impl Clone for HttpHeader {
    fn clone(&self) -> (r: HttpHeader)
        ensures
            r == *self,
    {
        match self {
            HttpHeader::ContentType(v) => HttpHeader::ContentType(v.clone()),
            HttpHeader::ContentLength(n) => HttpHeader::ContentLength(*n),
            HttpHeader::ContentEncoding(v) => HttpHeader::ContentEncoding(v.clone()),
        }
    }
}

} // verus!
