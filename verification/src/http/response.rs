//! Responses.

use vstd::prelude::*;
use vstd::slice::{slice_subrange, slice_to_vec};
use vstd::utf8::{decode_utf8, encode_utf8, valid_utf8};
use crate::http::parse::{body_start, dechunked, find_break, first_break};
use crate::http::parse::{framing, read_chunks, read_framing, unchunk_headers, unchunked};
use crate::http::parse::{ChunkedBody, Chunks, Framing, FramingSpec};
use crate::http::parse::{head_lines, head_text, headers_of_lines, line_views, lines_of};
use crate::http::parse::{parse_header_lines, parsed_as};
use crate::http::parse::{Outcome, Parsed};
use crate::text::{decimal_value, find_char, index_of, is_decimal, parse_decimal, slice_chars};
use crate::http::headers::{first_index, HeaderId, HeaderLike, HeaderType, HeaderView, Headers};
use crate::http::headers::written_order;
use crate::http::request::Request;
use crate::http::status::{reason_of, StatusCode};
use crate::http::wire::{crlf, encode_text, header_block, push_chars, push_headers, push_str};
use crate::text::{decimal_text, format_decimal, string_of};

verus! {

/// A response as a handler builds it.
#[derive(Debug)]
pub struct Response {
    /// The protocol version, such as `HTTP/1.1`.
    pub version: String,
    /// The status.
    pub status_code: StatusCode,
    /// The headers, in the order in which they were added.
    pub headers: Headers,
    /// The body.
    pub body: Vec<u8>,
}

/// What a response is in contracts.
pub struct ResponseView {
    pub version: Seq<char>,
    pub status: u16,
    pub headers: Seq<HeaderView>,
    pub body: Seq<u8>,
}

/// `hs` with a header of the given name and value at the end, unless `hs`
/// already has a header of that name.
pub open spec fn with_default(hs: Seq<HeaderView>, name: HeaderId, value: Seq<char>) -> Seq<
    HeaderView,
> {
    if first_index(hs, name) < hs.len() {
        hs
    } else {
        hs.push(HeaderView { name, value })
    }
}

/// The headers that every response carries when it is written out, added to
/// `hs` where `hs` does not set them: `Server`, `Date`, `Content-Length` and
/// `Connection: close`.
pub open spec fn with_generated(hs: Seq<HeaderView>, date: Seq<char>, body_len: nat) -> Seq<
    HeaderView,
> {
    with_default(
        with_default(
            with_default(with_default(hs, HeaderType::Server@, "Humphrey"@), HeaderType::Date@, date),
            HeaderType::ContentLength@,
            decimal_text(body_len),
        ),
        HeaderType::Connection@,
        "close"@,
    )
}

/// The head of a response as text: status line, header lines in
/// serialisation order, and an empty line.
pub open spec fn response_head(r: ResponseView) -> Seq<char> {
    r.version + seq![' '] + decimal_text(r.status as nat) + seq![' '] + reason_of(r.status)
        + crlf() + header_block(written_order(r.headers)) + crlf()
}

/// The bytes of a response on the wire: the head in UTF-8, then the body as
/// it is.
pub open spec fn response_bytes(r: ResponseView) -> Seq<u8> {
    encode_utf8(response_head(r)) + r.body
}

/// What a status line says: the version before the first space, and the
/// status code, a decimal number of at most 65535, between that space and
/// the next one or the end of the line. What follows the code is the reason
/// phrase, which is not kept.
pub open spec fn status_line_of(line: Seq<char>) -> Option<(Seq<char>, u16)> {
    let i = index_of(line, ' ');
    if i == 0 || i >= line.len() {
        None
    } else {
        let rest = line.skip(i + 1);
        let code = rest.take(index_of(rest, ' '));
        if is_decimal(code) && decimal_value(code) <= u16::MAX {
            Some((line.take(i), decimal_value(code) as u16))
        } else {
            None
        }
    }
}

/// What the bytes received so far hold of a response; `at_end` says that no
/// more bytes will come.
///
/// The head is read as that of a request is, with a status line in place of
/// the request line. When a `Content-Length` header gives the length, the
/// body is exactly that long. Without one the body is everything up to the
/// end of the stream, so the response is incomplete until the stream has
/// ended. Where the headers announce a body in chunks, the body is what the
/// chunks make up, and the headers of the response give its length in place
/// of the announcement.
pub open spec fn response_of_bytes(b: Seq<u8>, at_end: bool) -> Outcome<ResponseView> {
    let brk = first_break(b, 0);
    if brk >= b.len() {
        Outcome::Incomplete
    } else if !valid_utf8(b.take(brk + 1)) {
        Outcome::Malformed
    } else {
        let lines = lines_of(decode_utf8(b.take(brk + 1)));
        if lines.len() == 0 {
            Outcome::Malformed
        } else {
            match (status_line_of(lines[0]), headers_of_lines(lines.skip(1))) {
                (Some(line), Some(headers)) => match framing(headers) {
                    FramingSpec::Invalid => Outcome::Malformed,
                    FramingSpec::Chunked => match dechunked(b, body_start(b, brk)) {
                        Chunks::Malformed => Outcome::Malformed,
                        Chunks::Incomplete => Outcome::Incomplete,
                        Chunks::Complete(body, end) => Outcome::Complete(
                            ResponseView {
                                version: line.0,
                                status: line.1,
                                headers: unchunked(headers, body.len()),
                                body,
                            },
                            end,
                        ),
                    },
                    FramingSpec::Absent => if at_end {
                        Outcome::Complete(
                            ResponseView {
                                version: line.0,
                                status: line.1,
                                headers,
                                body: b.skip(body_start(b, brk)),
                            },
                            b.len() as int,
                        )
                    } else {
                        Outcome::Incomplete
                    },
                    FramingSpec::Length(n) => if b.len() - body_start(b, brk) < n {
                        Outcome::Incomplete
                    } else {
                        Outcome::Complete(
                            ResponseView {
                                version: line.0,
                                status: line.1,
                                headers,
                                body: b.subrange(body_start(b, brk), body_start(b, brk) + n),
                            },
                            body_start(b, brk) + n,
                        )
                    },
                },
                _ => Outcome::Malformed,
            }
        }
    }
}

/// The parts of the status line `line`.
fn parse_status_line(line: &Vec<char>) -> (r: Option<(String, StatusCode)>)
    ensures
        match status_line_of(line@) {
            Some(l) => r matches Some(p) && p.0@ == l.0 && p.1@ == l.1,
            None => r is None,
        },
{
    let i = find_char(line, 0, ' ');
    assert(line@.skip(0) =~= line@);
    if i == 0 || i >= line.len() {
        return None;
    }
    let rest = slice_chars(line, i + 1, line.len());
    assert(rest@ =~= line@.skip(i + 1));
    let j = find_char(&rest, 0, ' ');
    assert(rest@.skip(0) =~= rest@);
    let digits = slice_chars(&rest, 0, j);
    assert(digits@ =~= rest@.take(j as int));
    match parse_decimal(&digits) {
        Some(code) => {
            if code > 65535 {
                None
            } else {
                let version = slice_chars(line, 0, i);
                assert(version@ =~= line@.take(i as int));
                Some((string_of(&version), StatusCode::from_code(code as u16)))
            }
        },
        None => None,
    }
}

impl View for Response {
    type V = ResponseView;

    open spec fn view(&self) -> ResponseView {
        ResponseView {
            version: self.version@,
            status: self.status_code@,
            headers: self.headers@,
            body: self.body@,
        }
    }
}

impl Response {
    /// An empty `HTTP/1.1` response with the given status.
    pub fn new(status_code: StatusCode) -> (r: Response)
        ensures
            r@ == (ResponseView {
                version: "HTTP/1.1"@,
                status: status_code@,
                headers: Seq::empty(),
                body: Seq::empty(),
            }),
    {
        Response {
            version: "HTTP/1.1".to_string(),
            status_code,
            headers: Headers::new(),
            body: Vec::new(),
        }
    }

    /// The same response with one more header at the end.
    pub fn with_header<N: HeaderLike>(self, name: N, value: &str) -> (r: Response)
        ensures
            r@ == (ResponseView {
                headers: self@.headers.push(
                    (HeaderView { name: name.header_id(), value: value@ }),
                ),
                ..self@
            }),
    {
        let mut r = self;
        r.headers.add(name, value);
        r
    }

    /// The same response with the given body.
    pub fn with_bytes(self, bytes: Vec<u8>) -> (r: Response)
        ensures
            r@ == (ResponseView { body: bytes@, ..self@ }),
    {
        let mut r = self;
        r.body = bytes;
        r
    }

    /// The same response in the protocol version of the request it answers.
    pub fn with_request_compatibility(self, request: &Request) -> (r: Response)
        ensures
            r@ == (ResponseView { version: request@.version, ..self@ }),
    {
        let mut r = self;
        r.version = request.version.clone();
        r
    }

    /// The same response with the headers that every response carries, each
    /// added only where the response does not set it: `Server`, `Date` with
    /// the given text, `Content-Length` with the length of the body, and
    /// `Connection: close`.
    pub fn with_generated_headers(self, date: &str) -> (r: Response)
        ensures
            r@ == (ResponseView {
                headers: with_generated(self@.headers, date@, self@.body.len()),
                ..self@
            }),
    {
        let mut r = self;
        if r.headers.get(HeaderType::Server).is_none() {
            r.headers.add(HeaderType::Server, "Humphrey");
        }
        if r.headers.get(HeaderType::Date).is_none() {
            r.headers.add(HeaderType::Date, date);
        }
        if r.headers.get(HeaderType::ContentLength).is_none() {
            let length = string_of(&format_decimal(r.body.len() as u64));
            r.headers.add(HeaderType::ContentLength, length.as_str());
        }
        if r.headers.get(HeaderType::Connection).is_none() {
            r.headers.add(HeaderType::Connection, "close");
        }
        r
    }

    /// Reads a response from the bytes received so far; `at_end` says that
    /// the stream has ended.
    pub fn parse(bytes: &[u8], at_end: bool) -> (r: Parsed<Response>)
        ensures
            parsed_as(r, response_of_bytes(bytes@, at_end)),
    {
        let brk = find_break(bytes);
        if brk >= bytes.len() {
            return Parsed::Incomplete;
        }
        let start: usize = if bytes[brk + 1] == 10 {
            brk + 2
        } else {
            brk + 3
        };
        let head = match head_text(bytes, brk) {
            Some(head) => head,
            None => {
                return Parsed::Malformed;
            },
        };
        let lines = head_lines(&head);
        if lines.len() == 0 {
            return Parsed::Malformed;
        }
        assert(line_views(lines@)[0] == lines@[0]@);
        let line = parse_status_line(&lines[0]);
        let headers = parse_header_lines(&lines, 1);
        match (line, headers) {
            (Some(line), Some(headers)) => {
                let (version, status_code) = line;
                match read_framing(&headers) {
                    Framing::Invalid => Parsed::Malformed,
                    Framing::Chunked => match read_chunks(bytes, start) {
                        ChunkedBody::Malformed => Parsed::Malformed,
                        ChunkedBody::Incomplete => Parsed::Incomplete,
                        ChunkedBody::Complete(body, end) => {
                            let mut headers = headers;
                            unchunk_headers(&mut headers, body.len());
                            Parsed::Complete {
                                value: Response { version, status_code, headers, body },
                                consumed: end,
                            }
                        },
                    },
                    Framing::Absent => {
                        if at_end {
                            let body = slice_to_vec(slice_subrange(bytes, start, bytes.len()));
                            assert(body@ =~= bytes@.skip(start as int));
                            Parsed::Complete {
                                value: Response { version, status_code, headers, body },
                                consumed: bytes.len(),
                            }
                        } else {
                            Parsed::Incomplete
                        }
                    },
                    Framing::Length(n) => {
                        if ((bytes.len() - start) as u64) < n {
                            Parsed::Incomplete
                        } else {
                            let end = start + n as usize;
                            let body = slice_to_vec(slice_subrange(bytes, start, end));
                            Parsed::Complete {
                                value: Response { version, status_code, headers, body },
                                consumed: end,
                            }
                        }
                    },
                }
            },
            _ => Parsed::Malformed,
        }
    }

    /// The response as it goes on the wire.
    pub fn to_bytes(&self) -> (r: Vec<u8>)
        ensures
            r@ == response_bytes(self@),
    {
        let mut head: Vec<char> = Vec::new();
        push_str(&mut head, self.version.as_str());
        head.push(' ');
        push_chars(&mut head, &format_decimal(self.status_code.code() as u64));
        head.push(' ');
        push_str(&mut head, self.status_code.reason());
        head.push('\r');
        head.push('\n');
        push_headers(&mut head, &self.headers);
        head.push('\r');
        head.push('\n');
        assert(head@ =~= response_head(self@));
        let mut out = encode_text(&head);
        let mut body = self.body.clone();
        out.append(&mut body);
        out
    }
}

impl Clone for Response {
    fn clone(&self) -> (r: Self)
        ensures
            r@ == self@,
    {
        Response {
            version: self.version.clone(),
            status_code: self.status_code,
            headers: self.headers.clone(),
            body: self.body.clone(),
        }
    }
}

} // verus!
