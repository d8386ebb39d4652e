//! Requests.

use vstd::prelude::*;
use vstd::slice::{slice_subrange, slice_to_vec};
use vstd::utf8::{decode_utf8, encode_utf8, valid_utf8};
use crate::http::address::{ip_of, Address, IpAddress};
use crate::http::headers::{first_index, written_order, HeaderType, HeaderView, Headers};
use crate::http::method::Method;
use crate::http::parse::{body_start, dechunked, decode_percent, find_break, first_break};
use crate::http::parse::{framing, read_chunks, read_framing, unchunk_headers, unchunked};
use crate::http::parse::{ChunkedBody, Chunks, Framing, FramingSpec};
use crate::http::parse::{head_lines, head_text, headers_of_lines, line_views, lines_of};
use crate::http::parse::{parse_header_lines, parsed_as, percent_decode};
use crate::http::parse::{Outcome, Parsed};
use crate::http::wire::{crlf, encode_text, header_block, push_headers, push_str};
use crate::text::{chars_of, find_char, index_of, slice_chars, split, split_chars, string_of};
use crate::text::{trim, trim_chars};

verus! {

/// A request as the server holds it after parsing.
#[derive(Debug)]
pub struct Request {
    /// The method.
    pub method: Method,
    /// The path of the request target, percent-decoded.
    pub uri: String,
    /// The query string: what follows the first `?` of the target, as sent.
    pub query: String,
    /// The protocol version, such as `HTTP/1.1`.
    pub version: String,
    /// The headers, in the order in which they were sent.
    pub headers: Headers,
    /// The body, if the request has one.
    pub content: Option<Vec<u8>>,
    /// Where the request came from.
    pub address: Address,
}

/// What a request is in contracts.
pub struct RequestView {
    pub method: Seq<char>,
    pub uri: Seq<char>,
    pub query: Seq<char>,
    pub version: Seq<char>,
    pub headers: Seq<HeaderView>,
    pub content: Option<Seq<u8>>,
    pub address: Address,
}

/// What an optional byte vector is in contracts.
pub open spec fn content_view(content: Option<Vec<u8>>) -> Option<Seq<u8>> {
    match content {
        Some(bytes) => Some(bytes@),
        None => None,
    }
}

/// The first entry of a comma-separated list, without the blanks around it.
pub open spec fn first_list_entry(value: Seq<char>) -> Seq<char> {
    trim(value.take(index_of(value, ',')))
}

/// The client that the headers name as the origin of the request: the first
/// entry of the first `X-Forwarded-For` header, if there is such a header.
pub open spec fn forwarded_origin(headers: Seq<HeaderView>) -> Option<Seq<char>> {
    let i = first_index(headers, HeaderType::id_of_name("X-Forwarded-For"@));
    if i < headers.len() {
        Some(first_list_entry(headers[i].value))
    } else {
        None
    }
}

/// Where a request with the given headers is seen to come from, on a
/// connection from `address`: the origin is the client that the first
/// `X-Forwarded-For` header names first, where it names an address, and the
/// peer otherwise.
pub open spec fn seen_from(headers: Seq<HeaderView>, address: Address) -> Address {
    Address {
        origin_addr: match forwarded_origin(headers) {
            Some(text) => match ip_of(text) {
                Some(ip) => ip,
                None => address.peer_addr,
            },
            None => address.peer_addr,
        },
        peer_addr: address.peer_addr,
        port: address.port,
    }
}

/// The parts of a request line.
pub struct RequestLine {
    pub method: Seq<char>,
    pub uri: Seq<char>,
    pub query: Seq<char>,
    pub version: Seq<char>,
}

/// What a request line says: three non-empty parts with one space between
/// them. The second is the target; its path, before the first `?`, is
/// percent-decoded, and its query, after that `?`, is taken as it is.
pub open spec fn request_line_of(line: Seq<char>) -> Option<RequestLine> {
    let parts = split(line, ' ');
    if parts.len() != 3 || parts[0].len() == 0 || parts[1].len() == 0 || parts[2].len() == 0 {
        None
    } else {
        let q = index_of(parts[1], '?');
        match percent_decode(parts[1].take(q)) {
            Some(uri) => Some(
                RequestLine {
                    method: parts[0],
                    uri,
                    query: if q < parts[1].len() {
                        parts[1].skip(q + 1)
                    } else {
                        Seq::empty()
                    },
                    version: parts[2],
                },
            ),
            None => None,
        }
    }
}

/// The body that a request of `b` has when its head ends at `brk` and its
/// headers give the length `n`.
pub open spec fn body_of(b: Seq<u8>, brk: int, n: nat) -> Seq<u8> {
    b.subrange(body_start(b, brk), body_start(b, brk) + n)
}

/// What the bytes received so far hold of a request from `address`.
///
/// The head runs up to the first empty line. Until that line is there the
/// request is incomplete. The head is UTF-8 text: a request line, then one
/// header per line. The request is seen to come from the client that its
/// `X-Forwarded-For` header names, if it names one. A body follows when the first `Content-Length` header
/// gives a number above zero, and it is exactly that long: with fewer bytes
/// the request is incomplete, and bytes beyond it are not part of it. Where
/// the headers announce a body in chunks, the body is what the chunks make
/// up, and the headers of the request give its length in place of the
/// announcement.
pub open spec fn request_of_bytes(b: Seq<u8>, address: Address) -> Outcome<RequestView> {
    let brk = first_break(b, 0);
    if brk >= b.len() {
        Outcome::Incomplete
    } else if !valid_utf8(b.take(brk + 1)) {
        Outcome::Malformed
    } else {
        let lines = lines_of(decode_utf8(b.take(brk + 1)));
        if lines.len() == 0 {
            Outcome::Malformed
        } else {
            match (request_line_of(lines[0]), headers_of_lines(lines.skip(1))) {
                (Some(line), Some(headers)) => match framing(headers) {
                    FramingSpec::Invalid => Outcome::Malformed,
                    FramingSpec::Chunked => match dechunked(b, body_start(b, brk)) {
                        Chunks::Malformed => Outcome::Malformed,
                        Chunks::Incomplete => Outcome::Incomplete,
                        Chunks::Complete(body, end) => Outcome::Complete(
                            RequestView {
                                method: line.method,
                                uri: line.uri,
                                query: line.query,
                                version: line.version,
                                headers: unchunked(headers, body.len()),
                                content: if body.len() > 0 {
                                    Some(body)
                                } else {
                                    None
                                },
                                address: seen_from(headers, address),
                            },
                            end,
                        ),
                    },
                    FramingSpec::Absent => Outcome::Complete(
                        RequestView {
                            method: line.method,
                            uri: line.uri,
                            query: line.query,
                            version: line.version,
                            headers,
                            content: None,
                            address: seen_from(headers, address),
                        },
                        body_start(b, brk),
                    ),
                    FramingSpec::Length(n) => if b.len() - body_start(b, brk) < n {
                        Outcome::Incomplete
                    } else {
                        Outcome::Complete(
                            RequestView {
                                method: line.method,
                                uri: line.uri,
                                query: line.query,
                                version: line.version,
                                headers,
                                content: if n > 0 {
                                    Some(body_of(b, brk, n))
                                } else {
                                    None
                                },
                                address: seen_from(headers, address),
                            },
                            body_start(b, brk) + n,
                        )
                    },
                },
                _ => Outcome::Malformed,
            }
        }
    }
}

/// The target of a request: the path, and the query behind a `?` if there is
/// a query.
pub open spec fn request_target(uri: Seq<char>, query: Seq<char>) -> Seq<char> {
    if query.len() == 0 {
        uri
    } else {
        uri + seq!['?'] + query
    }
}

/// The head of a request as text: request line, header lines in
/// serialisation order, and an empty line.
pub open spec fn request_head(r: RequestView) -> Seq<char> {
    r.method + seq![' '] + request_target(r.uri, r.query) + seq![' '] + r.version + crlf()
        + header_block(written_order(r.headers)) + crlf()
}

/// The bytes of a request on the wire: the head in UTF-8, then the body as
/// it is.
pub open spec fn request_bytes(r: RequestView) -> Seq<u8> {
    encode_utf8(request_head(r)) + match r.content {
        Some(body) => body,
        None => Seq::empty(),
    }
}

/// The parts of the request line `line`.
fn parse_request_line(line: &Vec<char>) -> (r: Option<(Method, String, String, String)>)
    ensures
        match request_line_of(line@) {
            Some(l) => r matches Some(p) && p.0@ == l.method && p.1@ == l.uri && p.2@ == l.query
                && p.3@ == l.version,
            None => r is None,
        },
{
    let parts = split_chars(line, ' ');
    if parts.len() != 3 || parts[0].len() == 0 || parts[1].len() == 0 || parts[2].len() == 0 {
        return None;
    }
    let target = &parts[1];
    let q = find_char(target, 0, '?');
    assert(target@.skip(0) =~= target@);
    let path = slice_chars(target, 0, q);
    assert(path@ =~= target@.take(q as int));
    let query = if q < target.len() {
        let rest = slice_chars(target, q + 1, target.len());
        assert(rest@ =~= target@.skip(q + 1));
        rest
    } else {
        Vec::new()
    };
    match decode_percent(&path) {
        Some(uri) => {
            let method = string_of(&parts[0]);
            Some(
                (
                    Method::from_name(method.as_str()),
                    string_of(&uri),
                    string_of(&query),
                    string_of(&parts[2]),
                ),
            )
        },
        None => None,
    }
}

/// The text by which the headers name the client that the request comes
/// from.
fn forwarded_entry(headers: &Headers) -> (r: Option<String>)
    ensures
        match forwarded_origin(headers@) {
            Some(text) => r matches Some(s) && s@ == text,
            None => r is None,
        },
{
    match headers.get("X-Forwarded-For") {
        Some(value) => {
            let chars = chars_of(value);
            let end = find_char(&chars, 0, ',');
            assert(chars@.skip(0) =~= chars@);
            let entry = slice_chars(&chars, 0, end);
            assert(chars@.subrange(0, end as int) =~= chars@.take(end as int));
            Some(string_of(&trim_chars(&entry)))
        },
        None => None,
    }
}

/// Where a request with the given headers is seen to come from.
fn origin_of(headers: &Headers, address: Address) -> (r: Address)
    ensures
        r == seen_from(headers@, address),
{
    let named = match forwarded_entry(headers) {
        Some(text) => IpAddress::parse(text.as_str()),
        None => None,
    };
    let origin = match named {
        Some(ip) => ip,
        None => address.peer_addr,
    };
    Address { origin_addr: origin, peer_addr: address.peer_addr, port: address.port }
}

impl View for Request {
    type V = RequestView;

    open spec fn view(&self) -> RequestView {
        RequestView {
            method: self.method@,
            uri: self.uri@,
            query: self.query@,
            version: self.version@,
            headers: self.headers@,
            content: content_view(self.content),
            address: self.address,
        }
    }
}

impl Request {
    /// The text that names the client a forwarding proxy received the request
    /// from: the first entry of the `X-Forwarded-For` header, trimmed. `None`
    /// when the request has no such header, and the origin is then the peer.
    pub fn forwarded_for(&self) -> (r: Option<String>)
        ensures
            match forwarded_origin(self@.headers) {
                Some(text) => r matches Some(s) && s@ == text,
                None => r is None,
            },
    {
        forwarded_entry(&self.headers)
    }

    /// Reads a request from the bytes received so far from `address`.
    pub fn parse(bytes: &[u8], address: Address) -> (r: Parsed<Request>)
        ensures
            parsed_as(r, request_of_bytes(bytes@, address)),
    {
        let brk = find_break(bytes);
        if brk >= bytes.len() {
            return Parsed::Incomplete;
        }
        let start: usize = if bytes[brk + 1] == 10 {
            brk + 2
        } else {
            brk + 3
        };
        let head = match head_text(bytes, brk) {
            Some(head) => head,
            None => {
                return Parsed::Malformed;
            },
        };
        let lines = head_lines(&head);
        if lines.len() == 0 {
            return Parsed::Malformed;
        }
        assert(line_views(lines@)[0] == lines@[0]@);
        let line = parse_request_line(&lines[0]);
        let headers = parse_header_lines(&lines, 1);
        match (line, headers) {
            (Some(line), Some(headers)) => {
                let (method, uri, query, version) = line;
                let address = origin_of(&headers, address);
                match read_framing(&headers) {
                    Framing::Invalid => Parsed::Malformed,
                    Framing::Chunked => match read_chunks(bytes, start) {
                        ChunkedBody::Malformed => Parsed::Malformed,
                        ChunkedBody::Incomplete => Parsed::Incomplete,
                        ChunkedBody::Complete(body, end) => {
                            let mut headers = headers;
                            unchunk_headers(&mut headers, body.len());
                            let content = if body.len() > 0 {
                                Some(body)
                            } else {
                                None
                            };
                            Parsed::Complete {
                                value: Request {
                                    method,
                                    uri,
                                    query,
                                    version,
                                    headers,
                                    content,
                                    address,
                                },
                                consumed: end,
                            }
                        },
                    },
                    Framing::Absent => Parsed::Complete {
                        value: Request { method, uri, query, version, headers, content: None, address },
                        consumed: start,
                    },
                    Framing::Length(n) => {
                        if ((bytes.len() - start) as u64) < n {
                            Parsed::Incomplete
                        } else {
                            let end = start + n as usize;
                            let content = if n > 0 {
                                Some(slice_to_vec(slice_subrange(bytes, start, end)))
                            } else {
                                None
                            };
                            Parsed::Complete {
                                value: Request {
                                    method,
                                    uri,
                                    query,
                                    version,
                                    headers,
                                    content,
                                    address,
                                },
                                consumed: end,
                            }
                        }
                    },
                }
            },
            _ => Parsed::Malformed,
        }
    }

    /// The request as it goes on the wire.
    pub fn to_bytes(&self) -> (r: Vec<u8>)
        ensures
            r@ == request_bytes(self@),
    {
        let mut head: Vec<char> = Vec::new();
        let method = self.method.to_string();
        push_str(&mut head, method.as_str());
        head.push(' ');
        push_str(&mut head, self.uri.as_str());
        if !self.query.as_str().is_empty() {
            head.push('?');
            push_str(&mut head, self.query.as_str());
        }
        head.push(' ');
        push_str(&mut head, self.version.as_str());
        head.push('\r');
        head.push('\n');
        push_headers(&mut head, &self.headers);
        head.push('\r');
        head.push('\n');
        assert(head@ =~= request_head(self@));
        let mut out = encode_text(&head);
        match &self.content {
            Some(body) => {
                let mut body = body.clone();
                out.append(&mut body);
            },
            None => {
                assert(out@ + Seq::<u8>::empty() =~= out@);
            },
        }
        out
    }

    /// The same request, seen as coming from `origin`.
    pub fn with_origin(self, origin: IpAddress) -> (r: Request)
        ensures
            r@ == (RequestView { address: self.address.with_origin_spec(origin), ..self@ }),
    {
        Request {
            method: self.method,
            uri: self.uri,
            query: self.query,
            version: self.version,
            headers: self.headers,
            content: self.content,
            address: self.address.with_origin(origin),
        }
    }
}

impl Clone for Request {
    fn clone(&self) -> (r: Self)
        ensures
            r@ == self@,
    {
        Request {
            method: self.method.clone(),
            uri: self.uri.clone(),
            query: self.query.clone(),
            version: self.version.clone(),
            headers: self.headers.clone(),
            content: match &self.content {
                Some(bytes) => Some(bytes.clone()),
                None => None,
            },
            address: self.address,
        }
    }
}

} // verus!
