//! The response model and its exact serialization.

use crate::http::code::HttpCode;
use crate::http::header::HttpHeader;
use crate::text::{
    contains, decimal, decimal_string, lemma_contains_iff_find, lemma_find_from_is, matches_at,
    split,
};
use vstd::prelude::*;
use vstd::string::*;

verus! {

/// The status line: version, number and reason phrase, separated by spaces.
pub open spec fn status_line(version: Seq<char>, number: nat, reason: Seq<char>) -> Seq<char> {
    version + " "@ + decimal(number) + " "@ + reason
}

/// The header lines as they stand in a response: each preceded by a CRLF.
pub open spec fn header_block(lines: Seq<Seq<char>>) -> Seq<char>
    decreases lines.len(),
{
    if lines.len() == 0 {
        Seq::empty()
    } else {
        header_block(lines.drop_last()) + "\r\n"@ + lines.last()
    }
}

/// The text of a response: the status line, the header lines, a blank line,
/// and the body.
pub open spec fn wire_text(
    version: Seq<char>,
    number: nat,
    reason: Seq<char>,
    header_lines: Seq<Seq<char>>,
    body: Seq<char>,
) -> Seq<char> {
    status_line(version, number, reason) + header_block(header_lines) + "\r\n\r\n"@ + body
}

/// The text of a response whose reason phrase is the canonical one of its
/// code.
pub open spec fn response_text(
    version: Seq<char>,
    code: HttpCode,
    header_lines: Seq<Seq<char>>,
    body: Seq<char>,
) -> Seq<char> {
    wire_text(version, code.number(), code.reason_phrase(), header_lines, body)
}

/// The lines of a sequence of headers.
pub open spec fn lines_of(headers: Seq<HttpHeader>) -> Seq<Seq<char>> {
    Seq::new(headers.len(), |i: int| headers[i].line())
}

/// A response: status, version, headers in order, and a textual body.
#[derive(Debug)]
pub struct Response {
    /// The status code.
    pub status_code: HttpCode,
    /// The reason phrase that goes on the status line.
    pub status_text: String,
    /// The HTTP version, echoed from the request.
    pub http_version: String,
    /// The headers, in the order in which they are written.
    pub headers: Option<Vec<HttpHeader>>,
    /// The textual body.
    pub body: Option<String>,
}

impl Response {
    /// The header lines, in order; none where there are no headers.
    pub open spec fn header_lines(&self) -> Seq<Seq<char>> {
        match self.headers {
            Some(headers) => lines_of(headers@),
            None => Seq::empty(),
        }
    }

    /// The body; empty where there is none.
    pub open spec fn body_text(&self) -> Seq<char> {
        match self.body {
            Some(body) => body@,
            None => Seq::empty(),
        }
    }

    /// The status line of the response.
    pub open spec fn first_line(&self) -> Seq<char> {
        status_line(self.http_version@, self.status_code.number(), self.status_text@)
    }

    /// The serialized response.
    pub open spec fn wire(&self) -> Seq<char> {
        wire_text(
            self.http_version@,
            self.status_code.number(),
            self.status_text@,
            self.header_lines(),
            self.body_text(),
        )
    }

    /// The reason phrase is the canonical one of the status code.
    pub open spec fn is_canonical(&self) -> bool {
        self.status_text@ == self.status_code.reason_phrase()
    }

    /// A response with the canonical reason phrase of `status_code`.
    pub fn new(
        status_code: HttpCode,
        http_version: String,
        headers: Option<Vec<HttpHeader>>,
        body: Option<String>,
    ) -> (r: Response)
        ensures
            r.status_code == status_code,
            r.http_version == http_version,
            r.headers == headers,
            r.body == body,
            r.is_canonical(),
    {
        Response { status_code, status_text: status_code.to_string(), http_version, headers, body }
    }

    /// Serializes the response.
    pub fn to_string(&self) -> (s: String)
        ensures
            s@ == self.wire(),
    {
        let mut s = String::new();
        s.append(self.http_version.as_str());
        s.append(" ");
        s.append(decimal_string(self.status_code.to_u16() as usize).as_str());
        s.append(" ");
        s.append(self.status_text.as_str());
        assert(s@ =~= self.first_line());
        match &self.headers {
            Some(headers) => {
                let mut i: usize = 0;
                assert(lines_of(headers@).take(0) =~= Seq::<Seq<char>>::empty());
                assert(s@ =~= self.first_line() + header_block(lines_of(headers@).take(0)));
                while i < headers.len()
                    invariant
                        i <= headers.len(),
                        s@ == self.first_line() + header_block(lines_of(headers@).take(i as int)),
                    decreases headers.len() - i,
                {
                    let ghost before = s@;
                    let ghost done = lines_of(headers@).take(i as int);
                    let ghost next = lines_of(headers@).take(i + 1);
                    let line = headers[i].to_string();
                    s.append("\r\n");
                    s.append(line.as_str());
                    proof {
                        assert(next.drop_last() =~= done);
                        assert(next.last() == line@);
                        assert(s@ =~= self.first_line() + header_block(next));
                    }
                    i += 1;
                }
                assert(lines_of(headers@).take(i as int) =~= lines_of(headers@));
            },
            None => {
                assert(s@ =~= self.first_line() + header_block(Seq::<Seq<char>>::empty()));
            },
        }
        s.append("\r\n\r\n");
        match &self.body {
            Some(body) => {
                s.append(body.as_str());
            },
            None => {
                assert(s@ =~= s@ + Seq::<char>::empty());
            },
        }
        s
    }
}

/// A line without a CRLF, then a CRLF, then more text: splitting at CRLF
/// gives the line and then the pieces of the rest.
pub proof fn lemma_split_after_line(line: Seq<char>, rest: Seq<char>)
    requires
        !contains(line, "\r\n"@),
    ensures
        split(line + "\r\n"@ + rest, "\r\n"@) == seq![line] + split(rest, "\r\n"@),
{
    reveal_strlit("\r\n");
    let sep = "\r\n"@;
    let s = line + sep + rest;
    let n = line.len() as int;
    assert(s.subrange(n, n + 2) =~= sep);
    assert forall|j: int| 0 <= j < n implies !matches_at(s, sep, j) by {
        if matches_at(s, sep, j) {
            let w = s.subrange(j, j + 2);
            assert(w[0] == '\r' && w[1] == '\n');
            if j + 2 <= n {
                assert(line.subrange(j, j + 2) =~= w);
                assert(matches_at(line, sep, j));
            } else {
                assert(s[j + 1] == sep[0]);
            }
        }
    }
    lemma_find_from_is(s, sep, 0, n);
    assert(s.take(n) =~= line);
    assert(s.skip(n + 2) =~= rest);
}

/// The header block of a non-empty list starts with a CRLF and its first
/// line.
pub proof fn lemma_header_block_front(lines: Seq<Seq<char>>)
    requires
        lines.len() > 0,
    ensures
        header_block(lines) == "\r\n"@ + lines[0] + header_block(lines.skip(1)),
    decreases lines.len(),
{
    if lines.len() == 1 {
        assert(lines.drop_last() =~= Seq::<Seq<char>>::empty());
        assert(lines.skip(1) =~= Seq::<Seq<char>>::empty());
        assert(header_block(lines) =~= "\r\n"@ + lines[0] + header_block(lines.skip(1)));
    } else {
        lemma_header_block_front(lines.drop_last());
        assert(lines.drop_last().skip(1) =~= lines.skip(1).drop_last());
        assert(header_block(lines) =~= "\r\n"@ + lines[0] + header_block(lines.skip(1)));
    }
}

/// Splitting what follows a line of a response: the remaining header lines,
/// one blank line, and the pieces of the body.
proof fn lemma_split_block(line: Seq<char>, lines: Seq<Seq<char>>, body: Seq<char>)
    requires
        !contains(line, "\r\n"@),
        forall|i: int| 0 <= i < lines.len() ==> !contains(#[trigger] lines[i], "\r\n"@),
    ensures
        split(line + header_block(lines) + "\r\n\r\n"@ + body, "\r\n"@) == seq![line] + lines
            + seq![Seq::<char>::empty()] + split(body, "\r\n"@),
    decreases lines.len(),
{
    reveal_strlit("\r\n");
    reveal_strlit("\r\n\r\n");
    let sep = "\r\n"@;
    let blank = Seq::<char>::empty();
    assert("\r\n\r\n"@ =~= sep + sep);
    if lines.len() == 0 {
        assert(line + header_block(lines) + "\r\n\r\n"@ + body =~= line + sep + (blank + sep
            + body));
        lemma_split_after_line(line, blank + sep + body);
        assert(!contains(blank, sep)) by {
            assert forall|i: int| !matches_at(blank, sep, i) by {}
        }
        lemma_split_after_line(blank, body);
        assert(seq![line] + (seq![blank] + split(body, sep)) =~= seq![line] + lines + seq![blank]
            + split(body, sep));
    } else {
        lemma_header_block_front(lines);
        let rest = lines[0] + header_block(lines.skip(1)) + "\r\n\r\n"@ + body;
        assert(line + header_block(lines) + "\r\n\r\n"@ + body =~= line + sep + rest);
        lemma_split_after_line(line, rest);
        lemma_split_block(lines[0], lines.skip(1), body);
        assert(seq![line] + (seq![lines[0]] + lines.skip(1) + seq![blank] + split(body, sep))
            =~= seq![line] + lines + seq![blank] + split(body, sep));
    }
}

impl Response {
    /// Splitting a serialized response at every CRLF gives back its parts:
    /// the status line first, then each header line at its place, then one
    /// blank line, then the pieces of the body. This holds where neither the
    /// status line nor a header line holds a CRLF of its own.
    pub proof fn lemma_wire_round_trip(self)
        requires
            !contains(self.first_line(), "\r\n"@),
            forall|i: int|
                0 <= i < self.header_lines().len() ==> !contains(
                    #[trigger] self.header_lines()[i],
                    "\r\n"@,
                ),
        ensures
            split(self.wire(), "\r\n"@) == seq![self.first_line()] + self.header_lines()
                + seq![Seq::<char>::empty()] + split(self.body_text(), "\r\n"@),
            split(self.wire(), "\r\n"@)[0] == self.first_line(),
            forall|i: int|
                0 <= i < self.header_lines().len() ==> split(self.wire(), "\r\n"@)[i + 1]
                    == #[trigger] self.header_lines()[i],
            split(self.wire(), "\r\n"@)[self.header_lines().len() as int + 1] == Seq::<
                char,
            >::empty(),
            !contains(self.body_text(), "\r\n"@) ==> split(self.wire(), "\r\n"@).len()
                == self.header_lines().len() + 3 && split(self.wire(), "\r\n"@).last()
                == self.body_text(),
    {
        lemma_split_block(self.first_line(), self.header_lines(), self.body_text());
        if !contains(self.body_text(), "\r\n"@) {
            lemma_contains_iff_find(self.body_text(), "\r\n"@);
        }
    }
}

} // verus!
