//! The laws of the wire: a message that is written out and read back is the
//! message that was written.

use vstd::prelude::*;
use vstd::utf8::{decode_utf8, encode_utf8, is_ascii_chars, valid_utf8};
use crate::http::headers::{first_index, lemma_insert_written_at, lemma_written_order_fixed};
use crate::http::headers::{lemma_written_order_permutes, lemma_written_order_sorted};
use crate::http::headers::{written_order, HeaderType, HeaderView};
use crate::http::known_names::{lemma_known_name_reads_back, reads_back};
use crate::http::parse::{body_start, breaks_at, first_break, framing, header_of_line};
use crate::http::parse::{headers_of_lines, lines_of, percent_decode, FramingSpec, Outcome};
use crate::http::request::{request_bytes, request_head, request_line_of, request_of_bytes};
use crate::http::request::{request_target, seen_from, RequestLine, RequestView};
use crate::http::response::{response_bytes, response_head, response_of_bytes, status_line_of};
use crate::http::response::{with_default, with_generated, ResponseView};
use crate::http::status::{lemma_reason_plain, reason_of};
use crate::http::wire::{crlf, header_block, header_line};
use crate::text::{decimal_text, is_decimal, is_digit, lemma_decimal_round_trip, lex_lt};
use crate::text::{free_of, is_blank, lemma_index_of_absent, lemma_index_of_concat};
use crate::text::{lemma_split_concat, lemma_split_single, lemma_trim_clean, split};

verus! {

/// Whether a text can stand as a line: it is not empty and holds neither a
/// line feed nor a carriage return.
pub open spec fn plain_line(l: Seq<char>) -> bool {
    l.len() > 0 && free_of(l, '\n') && free_of(l, '\r')
}

/// The given lines, each with a line end behind it.
pub open spec fn joined(ls: Seq<Seq<char>>) -> Seq<char>
    decreases ls.len(),
{
    if ls.len() == 0 {
        Seq::empty()
    } else {
        joined(ls.drop_last()) + ls.last() + crlf()
    }
}

/// The given lines, each with a carriage return behind it.
pub open spec fn with_cr(ls: Seq<Seq<char>>) -> Seq<Seq<char>> {
    Seq::new(ls.len(), |i: int| ls[i].push('\r'))
}

/// Lines that were joined come apart at their line feeds.
pub proof fn lemma_split_joined(ls: Seq<Seq<char>>, s: Seq<char>)
    requires
        forall|i: int| 0 <= i < ls.len() ==> free_of(#[trigger] ls[i], '\n'),
    ensures
        split(joined(ls) + s, '\n') == with_cr(ls) + split(s, '\n'),
    decreases ls.len(),
{
    if ls.len() == 0 {
        assert(joined(ls) + s =~= s);
        assert(with_cr(ls) + split(s, '\n') =~= split(s, '\n'));
    } else {
        let shorter = ls.drop_last();
        let l = ls.last();
        let s1 = l.push('\r') + seq!['\n'] + s;
        assert(joined(ls) + s =~= joined(shorter) + s1);
        assert forall|i: int| 0 <= i < shorter.len() implies free_of(
            #[trigger] shorter[i],
            '\n',
        ) by {
            assert(shorter[i] == ls[i]);
        }
        lemma_split_joined(shorter, s1);
        assert(free_of(l.push('\r'), '\n')) by {
            assert(free_of(ls[ls.len() - 1], '\n'));
            assert forall|i: int| 0 <= i < l.push('\r').len() implies #[trigger] l.push('\r')[i]
                != '\n' by {
                if i < l.len() {
                    assert(l.push('\r')[i] == l[i]);
                }
            }
        }
        lemma_split_concat(l.push('\r'), '\n', s);
        assert(with_cr(shorter) + (seq![l.push('\r')] + split(s, '\n')) =~= with_cr(ls) + split(
            s,
            '\n',
        ));
    }
}

/// The lines of a text that was joined from lines are those lines.
pub proof fn lemma_lines_of_joined(ls: Seq<Seq<char>>)
    requires
        forall|i: int| 0 <= i < ls.len() ==> free_of(#[trigger] ls[i], '\n'),
    ensures
        lines_of(joined(ls)) == ls,
{
    let empty = Seq::<char>::empty();
    lemma_split_joined(ls, empty);
    assert(joined(ls) + empty =~= joined(ls));
    crate::text::lemma_split_single(empty, '\n');
    let pieces = split(joined(ls), '\n');
    assert(pieces == with_cr(ls) + seq![empty]);
    assert(pieces.len() == ls.len() + 1);
    assert forall|i: int| 0 <= i < ls.len() implies #[trigger] lines_of(joined(ls))[i]
        == ls[i] by {
        assert(pieces[i] == ls[i].push('\r'));
        assert(ls[i].push('\r').drop_last() =~= ls[i]);
    }
    assert(lines_of(joined(ls)) =~= ls);
}

/// Whether no line feed in `t`, but for one at its very end, is followed by
/// a line feed or a carriage return: no line of `t` is empty.
pub open spec fn well_spaced(t: Seq<char>) -> bool {
    forall|j: int|
        0 <= j < t.len() - 1 && #[trigger] t[j] == '\n' ==> t[j + 1] != '\n' && t[j + 1] != '\r'
}

/// Lines that are not empty are joined without an empty line between them.
pub proof fn lemma_joined_well_spaced(ls: Seq<Seq<char>>)
    requires
        forall|i: int| 0 <= i < ls.len() ==> plain_line(#[trigger] ls[i]),
    ensures
        well_spaced(joined(ls)),
        ls.len() > 0 ==> joined(ls).len() >= 3 && joined(ls).last() == '\n',
    decreases ls.len(),
{
    if ls.len() > 0 {
        let shorter = ls.drop_last();
        let l = ls.last();
        assert(plain_line(ls[ls.len() - 1]));
        assert forall|i: int| 0 <= i < shorter.len() implies plain_line(#[trigger] shorter[i]) by {
            assert(shorter[i] == ls[i]);
        }
        lemma_joined_well_spaced(shorter);
        let a = joined(shorter);
        let t = joined(ls);
        assert(t =~= a + l + crlf());
        assert forall|j: int| 0 <= j < t.len() - 1 && #[trigger] t[j] == '\n' implies t[j + 1]
            != '\n' && t[j + 1] != '\r' by {
            if j < a.len() {
                assert(t[j] == a[j]);
                if j + 1 < a.len() {
                    assert(t[j + 1] == a[j + 1]);
                } else {
                    assert(t[j + 1] == l[0]);
                }
            } else if j < a.len() + l.len() {
                assert(t[j] == l[j - a.len()]);
            } else {
                assert(t[j] == crlf()[j - a.len() - l.len()]);
            }
        }
    }
}

/// A place where the head ends with none before it is the first.
pub proof fn lemma_first_break_is(b: Seq<u8>, from: int, k: int)
    requires
        0 <= from <= k < b.len(),
        breaks_at(b, k),
        forall|j: int| from <= j < k ==> !breaks_at(b, j),
    ensures
        first_break(b, from) == k,
    decreases k - from,
{
    if from < k {
        lemma_first_break_is(b, from + 1, k);
    }
}

/// Where the head of a written message ends: behind its last line, before
/// the empty line; and its body begins behind the empty line.
pub proof fn lemma_break_of_head(t: Seq<char>, body: Seq<u8>)
    requires
        well_spaced(t),
        t.len() > 0,
        t.last() == '\n',
        is_ascii_chars(t),
    ensures
        ({
            let w = encode_utf8(t + crlf()) + body;
            &&& first_break(w, 0) == t.len() - 1
            &&& first_break(w, 0) < w.len()
            &&& body_start(w, t.len() - 1) == t.len() + 2
            &&& w.len() == t.len() + 2 + body.len()
            &&& w.take(t.len() as int) == encode_utf8(t)
            &&& w.skip(t.len() as int + 2) == body
            &&& valid_utf8(w.take(t.len() as int))
            &&& decode_utf8(w.take(t.len() as int)) == t
        }),
{
    let h = t + crlf();
    let w = encode_utf8(h) + body;
    assert(is_ascii_chars(h)) by {
        assert forall|i: int| 0 <= i < h.len() implies '\0' <= #[trigger] h[i] <= '\u{7f}' by {
            if i < t.len() {
                assert(h[i] == t[i]);
            }
        }
    }
    vstd::utf8::is_ascii_chars_encode_utf8(h);
    vstd::utf8::is_ascii_chars_encode_utf8(t);
    let eh = encode_utf8(h);
    let k = t.len() - 1;
    assert forall|i: int| 0 <= i < h.len() implies #[trigger] w[i] == h[i] as u8 by {
        assert(w[i] == eh[i]);
    }
    assert(w[k] == h[k] as u8 && h[k] == t[k]);
    assert(w[k + 1] == h[k + 1] as u8 && h[k + 1] == '\r');
    assert(w[k + 2] == h[k + 2] as u8 && h[k + 2] == '\n');
    assert(breaks_at(w, k));
    assert forall|j: int| 0 <= j < k implies !breaks_at(w, j) by {
        assert(w[j] == h[j] as u8 && h[j] == t[j]);
        assert(w[j + 1] == h[j + 1] as u8 && h[j + 1] == t[j + 1]);
        if t[j] == '\n' {
            assert(t[j + 1] != '\n' && t[j + 1] != '\r');
        }
    }
    lemma_first_break_is(w, 0, k);
    assert(w.take(t.len() as int) =~= encode_utf8(t)) by {
        assert forall|i: int| 0 <= i < t.len() implies #[trigger] w.take(t.len() as int)[i]
            == encode_utf8(t)[i] by {
            assert(w[i] == h[i] as u8);
            assert(encode_utf8(t)[i] == t[i] as u8);
        }
    }
    assert(w.skip(t.len() as int + 2) =~= body);
    vstd::utf8::encode_utf8_valid_utf8(t);
    vstd::utf8::encode_utf8_decode_utf8(t);
}

/// Whether a text can stand as a part of a request line or a status line:
/// it is not empty and holds no space, line feed or carriage return.
pub open spec fn is_token(t: Seq<char>) -> bool {
    t.len() > 0 && free_of(t, ' ') && free_of(t, '\n') && free_of(t, '\r')
}

/// The request line of a request.
pub open spec fn request_line(r: RequestView) -> Seq<char> {
    r.method + seq![' '] + request_target(r.uri, r.query) + seq![' '] + r.version
}

/// A text without `%` stands for itself.
pub proof fn lemma_percent_plain(t: Seq<char>)
    requires
        free_of(t, '%'),
    ensures
        percent_decode(t) == Some(t),
    decreases t.len(),
{
    if t.len() > 0 {
        let rest = t.drop_first();
        assert forall|i: int| 0 <= i < rest.len() implies #[trigger] rest[i] != '%' by {
            assert(rest[i] == t[i + 1]);
        }
        lemma_percent_plain(rest);
        assert(t[0] != '%');
        assert(seq![t[0]] + rest =~= t);
    } else {
        assert(t =~= Seq::<char>::empty());
    }
}

/// Whether the line of a request can be sent as it stands, with `uri` as
/// the path of the target as it is written, percent-encoded or not: method,
/// path and version are tokens, the path holds no `?`, and the query holds no
/// space, line feed or carriage return.
pub open spec fn line_sendable(r: RequestView) -> bool {
    &&& is_token(r.method)
    &&& is_token(r.uri)
    &&& is_token(r.version)
    &&& free_of(r.uri, '?')
    &&& free_of(r.query, ' ')
    &&& free_of(r.query, '\n')
    &&& free_of(r.query, '\r')
}

/// Whether the line of a request can be written and read back: it can be
/// sent, and its path holds no `%`, so that it stands for itself.
pub open spec fn line_ready(r: RequestView) -> bool {
    line_sendable(r) && free_of(r.uri, '%')
}

/// Two texts without `c`, joined, are without `c`.
pub proof fn lemma_free_of_concat(a: Seq<char>, b: Seq<char>, c: char)
    requires
        free_of(a, c),
        free_of(b, c),
    ensures
        free_of(a + b, c),
{
    assert forall|i: int| 0 <= i < (a + b).len() implies #[trigger] (a + b)[i] != c by {
        if i < a.len() {
            assert((a + b)[i] == a[i]);
        } else {
            assert((a + b)[i] == b[i - a.len()]);
        }
    }
}

/// The target of a request whose line can be sent holds no space, line feed
/// or carriage return.
proof fn lemma_target_plain(r: RequestView, c: char)
    requires
        line_sendable(r),
        c == ' ' || c == '\n' || c == '\r',
    ensures
        free_of(request_target(r.uri, r.query), c),
{
    if r.query.len() > 0 {
        assert(free_of(seq!['?'], c));
        lemma_free_of_concat(r.uri, seq!['?'], c);
        lemma_free_of_concat(r.uri + seq!['?'], r.query, c);
    }
}

/// What is read from the line of a request that was sent with `e.uri` as the
/// path of its target: the path that the written path stands for when it is
/// percent-decoded, and the other parts as they are. Nothing is read where
/// the written path stands for no path.
pub open spec fn line_as_read(e: RequestView) -> Option<RequestLine> {
    match percent_decode(e.uri) {
        Some(uri) => Some(
            RequestLine { method: e.method, uri, query: e.query, version: e.version },
        ),
        None => None,
    }
}

/// The law of the one decoding: whatever way the path of a target is
/// written, the path that is read from the line is the written path
/// percent-decoded, once.
pub proof fn lemma_request_line_sent(r: RequestView)
    requires
        line_sendable(r),
    ensures
        request_line_of(request_line(r)) == line_as_read(r),
        plain_line(request_line(r)),
{
    let target = request_target(r.uri, r.query);
    let line = request_line(r);
    lemma_target_plain(r, ' ');
    lemma_target_plain(r, '\n');
    lemma_target_plain(r, '\r');
    let tail = target + seq![' '] + r.version;
    assert(line =~= r.method + seq![' '] + tail);
    lemma_split_concat(r.method, ' ', tail);
    lemma_split_concat(target, ' ', r.version);
    lemma_split_single(r.version, ' ');
    let parts = split(line, ' ');
    assert(parts =~= seq![r.method, target, r.version]);
    assert(target.len() > 0);
    if r.query.len() == 0 {
        lemma_index_of_absent(r.uri, '?');
        assert(r.uri.take(r.uri.len() as int) =~= r.uri);
        assert(r.query =~= Seq::<char>::empty());
    } else {
        lemma_index_of_concat(r.uri, '?', r.query);
        assert(target.take(r.uri.len() as int) =~= r.uri);
        assert(target.skip(r.uri.len() as int + 1) =~= r.query);
    }
    assert(plain_line(line)) by {
        assert(free_of(seq![' '], '\n') && free_of(seq![' '], '\r'));
        lemma_free_of_concat(r.method, seq![' '], '\n');
        lemma_free_of_concat(r.method + seq![' '], target, '\n');
        lemma_free_of_concat(r.method + seq![' '] + target, seq![' '], '\n');
        lemma_free_of_concat(r.method + seq![' '] + target + seq![' '], r.version, '\n');
        lemma_free_of_concat(r.method, seq![' '], '\r');
        lemma_free_of_concat(r.method + seq![' '], target, '\r');
        lemma_free_of_concat(r.method + seq![' '] + target, seq![' '], '\r');
        lemma_free_of_concat(r.method + seq![' '] + target + seq![' '], r.version, '\r');
    }
}

/// A header as a line, without the line end.
pub open spec fn line_content(h: HeaderView) -> Seq<char> {
    h.name.text + seq![':', ' '] + h.value
}

/// Whether a header can be written and read back. Its name reads back from
/// its text. Its value holds no line feed or carriage return and neither
/// begins nor ends with a blank.
pub open spec fn header_ready(h: HeaderView) -> bool {
    &&& reads_back(h.name.text, h.name)
    &&& free_of(h.value, '\n')
    &&& free_of(h.value, '\r')
    &&& (h.value.len() == 0 || (!is_blank(h.value[0]) && !is_blank(h.value.last())))
}

/// A header that is ready reads back from its line.
pub proof fn lemma_header_line(h: HeaderView)
    requires
        header_ready(h),
    ensures
        header_of_line(line_content(h)) == Some(h),
        plain_line(line_content(h)),
{
    let line = line_content(h);
    let rest = seq![' '] + h.value;
    assert(line =~= h.name.text + seq![':'] + rest);
    lemma_index_of_concat(h.name.text, ':', rest);
    assert(line.take(h.name.text.len() as int) =~= h.name.text);
    assert(line.skip(h.name.text.len() as int + 1) =~= rest);
    lemma_trim_clean(h.value);
    assert(line[0] == h.name.text[0]);
    assert(free_of(seq![':', ' '], '\n') && free_of(seq![':', ' '], '\r'));
    lemma_free_of_concat(h.name.text, seq![':', ' '], '\n');
    lemma_free_of_concat(h.name.text + seq![':', ' '], h.value, '\n');
    lemma_free_of_concat(h.name.text, seq![':', ' '], '\r');
    lemma_free_of_concat(h.name.text + seq![':', ' '], h.value, '\r');
}

/// The given headers as lines, without the line ends.
pub open spec fn contents(hs: Seq<HeaderView>) -> Seq<Seq<char>> {
    Seq::new(hs.len(), |i: int| line_content(hs[i]))
}

/// A header block is its lines, joined.
pub proof fn lemma_header_block(hs: Seq<HeaderView>)
    ensures
        header_block(hs) == joined(contents(hs)),
    decreases hs.len(),
{
    if hs.len() > 0 {
        lemma_header_block(hs.drop_last());
        assert(contents(hs).drop_last() =~= contents(hs.drop_last()));
        assert(contents(hs).last() == line_content(hs.last()));
        assert(header_line(hs.last()) =~= line_content(hs.last()) + crlf());
        assert(header_block(hs) =~= joined(contents(hs)));
    } else {
        assert(contents(hs) =~= Seq::<Seq<char>>::empty());
    }
}

/// Headers that are ready read back from their lines.
pub proof fn lemma_headers_of_lines(hs: Seq<HeaderView>)
    requires
        forall|i: int| 0 <= i < hs.len() ==> header_ready(#[trigger] hs[i]),
    ensures
        headers_of_lines(contents(hs)) == Some(hs),
    decreases hs.len(),
{
    if hs.len() > 0 {
        let shorter = hs.drop_last();
        assert forall|i: int| 0 <= i < shorter.len() implies header_ready(
            #[trigger] shorter[i],
        ) by {
            assert(shorter[i] == hs[i]);
        }
        lemma_headers_of_lines(shorter);
        assert(contents(hs).drop_last() =~= contents(shorter));
        assert(contents(hs).last() == line_content(hs.last()));
        assert(header_ready(hs[hs.len() - 1]));
        lemma_header_line(hs.last());
        assert(shorter.push(hs.last()) =~= hs);
    } else {
        assert(contents(hs) =~= Seq::<Seq<char>>::empty());
        assert(hs =~= Seq::<HeaderView>::empty());
    }
}

/// A first line before lines that are joined.
pub proof fn lemma_joined_cons(first: Seq<char>, ls: Seq<Seq<char>>)
    ensures
        joined(seq![first] + ls) == first + crlf() + joined(ls),
    decreases ls.len(),
{
    let all = seq![first] + ls;
    if ls.len() == 0 {
        assert(all.drop_last() =~= Seq::<Seq<char>>::empty());
        assert(all.last() == first);
        assert(joined(all.drop_last()) =~= Seq::<char>::empty());
        assert(joined(ls) =~= Seq::<char>::empty());
        assert(joined(all) =~= first + crlf());
        assert(first + crlf() + joined(ls) =~= first + crlf());
    } else {
        lemma_joined_cons(first, ls.drop_last());
        assert(all.drop_last() =~= seq![first] + ls.drop_last());
        assert(all.last() == ls.last());
        assert(joined(all) =~= first + crlf() + joined(ls));
    }
}

/// Whether the headers frame the body as it is: not in chunks, with a
/// `Content-Length` that gives the length of the body where there is one,
/// and with none or with a length of zero where there is none.
pub open spec fn frames(hs: Seq<HeaderView>, content: Option<Seq<u8>>) -> bool {
    match framing(hs) {
        FramingSpec::Chunked => false,
        FramingSpec::Invalid => false,
        FramingSpec::Absent => content is None,
        FramingSpec::Length(n) => match content {
            Some(body) => n == body.len() && n > 0,
            None => n == 0,
        },
    }
}

/// Whether the head of a request can be sent as it stands, with `uri` as the
/// path of the target as it is written: it is ASCII, its line can be sent,
/// and its headers, in serialisation order, are ready.
pub open spec fn request_head_sendable(r: RequestView) -> bool {
    &&& is_ascii_chars(request_head(r))
    &&& line_sendable(r)
    &&& forall|i: int|
        0 <= i < written_order(r.headers).len() ==> header_ready(
            #[trigger] written_order(r.headers)[i],
        )
}

/// Whether the head of a request can be written and read back: it can be
/// sent, and its path holds no `%`.
pub open spec fn request_head_ready(r: RequestView) -> bool {
    request_head_sendable(r) && free_of(r.uri, '%')
}

/// Whether a request can be written and read back: its head can, and its
/// headers, in serialisation order, frame its body and name the client that
/// it comes from.
pub open spec fn request_ready(r: RequestView) -> bool {
    &&& request_head_ready(r)
    &&& frames(written_order(r.headers), r.content)
    &&& r.address == seen_from(written_order(r.headers), r.address)
}

/// A request with its headers in serialisation order.
pub open spec fn request_in_order(r: RequestView) -> RequestView {
    RequestView { headers: written_order(r.headers), ..r }
}

/// What is read from the head of a request as it was sent, with `e.uri` as
/// the written path and `uri` as the path that it stands for, and the bytes
/// behind the head, where the headers give the length of the body or say
/// nothing of it.
pub open spec fn read_behind_sent_head(e: RequestView, uri: Seq<char>, tail: Seq<u8>) -> Outcome<
    RequestView,
> {
    match framing(written_order(e.headers)) {
        FramingSpec::Length(n) => if tail.len() < n {
            Outcome::Incomplete
        } else {
            Outcome::Complete(
                RequestView {
                    uri,
                    headers: written_order(e.headers),
                    content: if n > 0 {
                        Some(tail.take(n as int))
                    } else {
                        None
                    },
                    address: seen_from(written_order(e.headers), e.address),
                    ..e
                },
                (request_head(e).len() + n) as int,
            )
        },
        FramingSpec::Absent => Outcome::Complete(
            RequestView {
                uri,
                headers: written_order(e.headers),
                content: None,
                address: seen_from(written_order(e.headers), e.address),
                ..e
            },
            request_head(e).len() as int,
        ),
        _ => Outcome::Malformed,
    }
}

/// What is read from the written head of a request and the bytes behind it,
/// where the headers give the length of the body or say nothing of it.
pub open spec fn read_behind_head(r: RequestView, tail: Seq<u8>) -> Outcome<RequestView> {
    read_behind_sent_head(r, r.uri, tail)
}

/// What is read from a request as it was sent, with `e.uri` as the written
/// path: the request with the path that the written path stands for, and a
/// malformed request where it stands for none.
pub open spec fn read_as_sent(e: RequestView, tail: Seq<u8>) -> Outcome<RequestView> {
    match percent_decode(e.uri) {
        Some(uri) => read_behind_sent_head(e, uri, tail),
        None => Outcome::Malformed,
    }
}

/// The law of the request as sent: a request whose target is written in
/// whatever percent-encoding is read with its path decoded once, and in all
/// else as the law of the declared length says.
pub proof fn lemma_request_sent(e: RequestView, tail: Seq<u8>)
    requires
        request_head_sendable(e),
        !(framing(written_order(e.headers)) is Chunked),
    ensures
        request_of_bytes(encode_utf8(request_head(e)) + tail, e.address) == read_as_sent(e, tail),
{
    let r = e;
    let hs = written_order(r.headers);
    let first = request_line(r);
    let ls = seq![first] + contents(hs);
    let t = joined(ls);
    lemma_request_line_sent(r);
    lemma_header_block(hs);
    lemma_joined_cons(first, contents(hs));
    let head = request_head(r);
    assert(head =~= t + crlf());
    assert forall|i: int| 0 <= i < hs.len() implies plain_line(#[trigger] contents(hs)[i]) by {
        assert(header_ready(hs[i]));
        lemma_header_line(hs[i]);
    }
    assert forall|i: int| 0 <= i < ls.len() implies plain_line(#[trigger] ls[i]) by {
        if i > 0 {
            assert(ls[i] == contents(hs)[i - 1]);
        }
    }
    lemma_joined_well_spaced(ls);
    assert(is_ascii_chars(t)) by {
        assert forall|i: int| 0 <= i < t.len() implies '\0' <= #[trigger] t[i] <= '\u{7f}' by {
            assert(t[i] == head[i]);
        }
    }
    lemma_break_of_head(t, tail);
    let w = encode_utf8(head) + tail;
    assert(w == encode_utf8(t + crlf()) + tail);
    lemma_lines_of_joined(ls);
    assert(ls[0] == first);
    assert(ls.skip(1) =~= contents(hs));
    lemma_headers_of_lines(hs);
    let start = t.len() as int + 2;
    match framing(hs) {
        FramingSpec::Length(n) => {
            if tail.len() >= n {
                assert(w.subrange(start, start + n) =~= tail.take(n as int));
            }
        },
        _ => {},
    }
}

/// The law of the declared length: behind the written head of a request,
/// exactly as many bytes as the headers declare are the body. With fewer
/// bytes the request is incomplete, and bytes beyond the body are not
/// looked at.
pub proof fn lemma_request_read(r: RequestView, tail: Seq<u8>)
    requires
        request_head_ready(r),
        !(framing(written_order(r.headers)) is Chunked),
    ensures
        request_of_bytes(encode_utf8(request_head(r)) + tail, r.address) == read_behind_head(
            r,
            tail,
        ),
{
    lemma_request_sent(r, tail);
    lemma_percent_plain(r.uri);
}

/// The law of the written request: a request that is ready, written out and
/// read back, is the request with its headers in serialisation order, and
/// all of the bytes are used; written out again, it gives the same bytes.
pub proof fn lemma_request_round_trip(r: RequestView)
    requires
        request_ready(r),
    ensures
        request_of_bytes(request_bytes(r), r.address) == Outcome::Complete(
            request_in_order(r),
            request_bytes(r).len() as int,
        ),
        request_bytes(request_in_order(r)) == request_bytes(r),
{
    let body = match r.content {
        Some(body) => body,
        None => Seq::<u8>::empty(),
    };
    lemma_request_read(r, body);
    assert(body.take(body.len() as int) =~= body);
    lemma_head_length(r);
    lemma_written_order_sorted(r.headers);
    lemma_written_order_fixed(written_order(r.headers));
}

/// The written head of a request that is ready has one byte for each of its
/// characters.
pub proof fn lemma_head_length(r: RequestView)
    requires
        is_ascii_chars(request_head(r)),
    ensures
        encode_utf8(request_head(r)).len() == request_head(r).len(),
{
    vstd::utf8::is_ascii_chars_encode_utf8(request_head(r));
}

/// The law of the body's end: where a request declares the length of its
/// body, the body is complete with its last byte and not before, and what
/// follows the body is no part of the request.
pub proof fn lemma_body_by_length(r: RequestView, extra: Seq<u8>, k: int)
    requires
        request_ready(r),
        r.content is Some,
        0 <= k < r.content->0.len(),
    ensures
        request_of_bytes(request_bytes(r) + extra, r.address) == Outcome::Complete(
            request_in_order(r),
            request_bytes(r).len() as int,
        ),
        request_of_bytes(
            encode_utf8(request_head(r)) + r.content->0.take(k),
            r.address,
        ) == Outcome::<RequestView>::Incomplete,
{
    let body = r.content->0;
    lemma_request_read(r, body + extra);
    lemma_request_read(r, body.take(k));
    assert((body + extra).take(body.len() as int) =~= body);
    assert(request_bytes(r) + extra =~= encode_utf8(request_head(r)) + (body + extra));
    lemma_head_length(r);
}

/// The status line of a response.
pub open spec fn status_line(r: ResponseView) -> Seq<char> {
    r.version + seq![' '] + decimal_text(r.status as nat) + seq![' '] + reason_of(r.status)
}

/// A run of digits holds nothing but digits.
pub proof fn lemma_digits_plain(t: Seq<char>, c: char)
    requires
        is_decimal(t),
        !is_digit(c),
    ensures
        free_of(t, c),
{
    assert forall|i: int| 0 <= i < t.len() implies #[trigger] t[i] != c by {
        assert(is_digit(t[i]));
    }
}

/// A status line reads back as its version and its code.
pub proof fn lemma_status_line(r: ResponseView)
    requires
        is_token(r.version),
    ensures
        status_line_of(status_line(r)) == Some((r.version, r.status)),
        plain_line(status_line(r)),
{
    let code = decimal_text(r.status as nat);
    let reason = reason_of(r.status);
    let line = status_line(r);
    let rest = code + seq![' '] + reason;
    lemma_decimal_round_trip(r.status as nat);
    lemma_digits_plain(code, ' ');
    lemma_digits_plain(code, '\n');
    lemma_digits_plain(code, '\r');
    lemma_reason_plain(r.status);
    assert(line =~= r.version + seq![' '] + rest);
    lemma_index_of_concat(r.version, ' ', rest);
    assert(line.take(r.version.len() as int) =~= r.version);
    assert(line.skip(r.version.len() as int + 1) =~= rest);
    lemma_index_of_concat(code, ' ', reason);
    assert(rest.take(code.len() as int) =~= code);
    assert(free_of(seq![' '], '\n') && free_of(seq![' '], '\r'));
    lemma_free_of_concat(r.version, seq![' '], '\n');
    lemma_free_of_concat(r.version + seq![' '], code, '\n');
    lemma_free_of_concat(r.version + seq![' '] + code, seq![' '], '\n');
    lemma_free_of_concat(r.version + seq![' '] + code + seq![' '], reason, '\n');
    lemma_free_of_concat(r.version, seq![' '], '\r');
    lemma_free_of_concat(r.version + seq![' '], code, '\r');
    lemma_free_of_concat(r.version + seq![' '] + code, seq![' '], '\r');
    lemma_free_of_concat(r.version + seq![' '] + code + seq![' '], reason, '\r');
}

/// Whether the head of a response can be written and read back: it is
/// ASCII, its version is a token, and its headers, in serialisation order,
/// are ready.
pub open spec fn response_head_ready(r: ResponseView) -> bool {
    &&& is_ascii_chars(response_head(r))
    &&& is_token(r.version)
    &&& forall|i: int|
        0 <= i < written_order(r.headers).len() ==> header_ready(
            #[trigger] written_order(r.headers)[i],
        )
}

/// Whether a response can be written and read back: its head can, and its
/// headers, in serialisation order, frame its body: not in chunks, and with
/// a `Content-Length` that gives the length of the body, or with none where
/// the stream ends with the body.
pub open spec fn response_ready(r: ResponseView, at_end: bool) -> bool {
    &&& response_head_ready(r)
    &&& match framing(written_order(r.headers)) {
        FramingSpec::Length(n) => n == r.body.len(),
        FramingSpec::Absent => at_end,
        _ => false,
    }
}

/// A response with its headers in serialisation order.
pub open spec fn response_in_order(r: ResponseView) -> ResponseView {
    ResponseView { headers: written_order(r.headers), ..r }
}

/// What is read from the written head of a response and the bytes behind
/// it, where the headers give the length of the body or say nothing of it.
pub open spec fn read_behind_response_head(r: ResponseView, tail: Seq<u8>, at_end: bool) -> Outcome<
    ResponseView,
> {
    match framing(written_order(r.headers)) {
        FramingSpec::Length(n) => if tail.len() < n {
            Outcome::Incomplete
        } else {
            Outcome::Complete(
                ResponseView {
                    headers: written_order(r.headers),
                    body: tail.take(n as int),
                    ..r
                },
                (response_head(r).len() + n) as int,
            )
        },
        FramingSpec::Absent => if at_end {
            Outcome::Complete(
                ResponseView { headers: written_order(r.headers), body: tail, ..r },
                (response_head(r).len() + tail.len()) as int,
            )
        } else {
            Outcome::Incomplete
        },
        _ => Outcome::Malformed,
    }
}

/// The law of the declared length for responses: behind the written head of
/// a response, exactly as many bytes as the headers declare are the body.
/// With fewer bytes the response is incomplete, and bytes beyond the body
/// are not looked at. Where the headers declare no length, the body runs to
/// the end of the stream.
pub proof fn lemma_response_read(r: ResponseView, tail: Seq<u8>, at_end: bool)
    requires
        response_head_ready(r),
        !(framing(written_order(r.headers)) is Chunked),
    ensures
        response_of_bytes(encode_utf8(response_head(r)) + tail, at_end)
            == read_behind_response_head(r, tail, at_end),
{
    let hs = written_order(r.headers);
    let first = status_line(r);
    let ls = seq![first] + contents(hs);
    let t = joined(ls);
    lemma_status_line(r);
    lemma_header_block(hs);
    lemma_joined_cons(first, contents(hs));
    let head = response_head(r);
    assert(head =~= t + crlf());
    assert forall|i: int| 0 <= i < hs.len() implies plain_line(#[trigger] contents(hs)[i]) by {
        assert(header_ready(hs[i]));
        lemma_header_line(hs[i]);
    }
    assert forall|i: int| 0 <= i < ls.len() implies plain_line(#[trigger] ls[i]) by {
        if i > 0 {
            assert(ls[i] == contents(hs)[i - 1]);
        }
    }
    lemma_joined_well_spaced(ls);
    assert(is_ascii_chars(t)) by {
        assert forall|i: int| 0 <= i < t.len() implies '\0' <= #[trigger] t[i] <= '\u{7f}' by {
            assert(t[i] == head[i]);
        }
    }
    lemma_break_of_head(t, tail);
    let w = encode_utf8(head) + tail;
    assert(w == encode_utf8(t + crlf()) + tail);
    lemma_lines_of_joined(ls);
    assert(ls[0] == first);
    assert(ls.skip(1) =~= contents(hs));
    lemma_headers_of_lines(hs);
    let start = t.len() as int + 2;
    match framing(hs) {
        FramingSpec::Length(n) => {
            if tail.len() >= n {
                assert(w.subrange(start, start + n) =~= tail.take(n as int));
            }
        },
        _ => {},
    }
}

/// The written head of a response whose head is ASCII has one byte for each
/// of its characters.
pub proof fn lemma_response_head_length(r: ResponseView)
    requires
        is_ascii_chars(response_head(r)),
    ensures
        encode_utf8(response_head(r)).len() == response_head(r).len(),
{
    vstd::utf8::is_ascii_chars_encode_utf8(response_head(r));
}

/// The law of the written response: a response that is ready, written out
/// and read back, is the response with its headers in serialisation order,
/// and all of the bytes are used; written out again, it gives the same
/// bytes.
pub proof fn lemma_response_round_trip(r: ResponseView, at_end: bool)
    requires
        response_ready(r, at_end),
    ensures
        response_of_bytes(response_bytes(r), at_end) == Outcome::Complete(
            response_in_order(r),
            response_bytes(r).len() as int,
        ),
        response_bytes(response_in_order(r)) == response_bytes(r),
{
    lemma_response_read(r, r.body, at_end);
    assert(r.body.take(r.body.len() as int) =~= r.body);
    lemma_response_head_length(r);
    lemma_written_order_sorted(r.headers);
    lemma_written_order_fixed(written_order(r.headers));
}

/// The law of the body's end for responses: where a response declares the
/// length of its body, the body is complete with its last byte and not
/// before, and what follows the body is no part of the response, whether or
/// not the stream has ended.
pub proof fn lemma_response_body_by_length(
    r: ResponseView,
    extra: Seq<u8>,
    k: int,
    at_end: bool,
)
    requires
        response_head_ready(r),
        framing(written_order(r.headers)) == FramingSpec::Length(r.body.len()),
        0 <= k < r.body.len(),
    ensures
        response_of_bytes(response_bytes(r) + extra, at_end) == Outcome::Complete(
            response_in_order(r),
            response_bytes(r).len() as int,
        ),
        response_of_bytes(encode_utf8(response_head(r)) + r.body.take(k), at_end)
            == Outcome::<ResponseView>::Incomplete,
{
    lemma_response_read(r, r.body + extra, at_end);
    lemma_response_read(r, r.body.take(k), at_end);
    assert((r.body + extra).take(r.body.len() as int) =~= r.body);
    assert(response_bytes(r) + extra =~= encode_utf8(response_head(r)) + (r.body + extra));
    lemma_response_head_length(r);
}

/// Whether a name is that of a header which is added when a response is
/// written out.
pub open spec fn is_generated(h: HeaderView) -> bool {
    h.name == HeaderType::Server@ || h.name == HeaderType::Date@ || h.name
        == HeaderType::ContentLength@ || h.name == HeaderType::Connection@
}

/// The law of the generated headers: writing a response out adds headers to
/// it and changes nothing else. The headers that it has stay as they are,
/// in their order, and what comes behind them are `Server`, `Date`,
/// `Content-Length` and `Connection` headers, four at most.
pub proof fn lemma_generated_extends(hs: Seq<HeaderView>, date: Seq<char>, len: nat)
    ensures
        hs.len() <= with_generated(hs, date, len).len() <= hs.len() + 4,
        with_generated(hs, date, len).take(hs.len() as int) == hs,
        forall|i: int|
            hs.len() <= i < with_generated(hs, date, len).len() ==> is_generated(
                #[trigger] with_generated(hs, date, len)[i],
            ),
{
    let a = with_default(hs, HeaderType::Server@, "Humphrey"@);
    let b = with_default(a, HeaderType::Date@, date);
    let c = with_default(b, HeaderType::ContentLength@, decimal_text(len));
    let d = with_default(c, HeaderType::Connection@, "close"@);
    assert(d == with_generated(hs, date, len));
    assert(d.take(hs.len() as int) =~= hs);
}

/// The law of the response on the wire: what is read back from a response
/// that was written out with its generated headers has the version, the
/// status and the body of the response, and its headers are those of the
/// response and the generated ones, each as often as it was written, in
/// serialisation order.
pub proof fn lemma_written_response_reads_back(
    r: ResponseView,
    date: Seq<char>,
    at_end: bool,
)
    requires
        response_ready(
            ResponseView { headers: with_generated(r.headers, date, r.body.len()), ..r },
            at_end,
        ),
    ensures
        response_of_bytes(
            response_bytes(
                ResponseView { headers: with_generated(r.headers, date, r.body.len()), ..r },
            ),
            at_end,
        ) == Outcome::Complete(
            ResponseView {
                headers: written_order(with_generated(r.headers, date, r.body.len())),
                ..r
            },
            response_bytes(
                ResponseView { headers: with_generated(r.headers, date, r.body.len()), ..r },
            ).len() as int,
        ),
        written_order(with_generated(r.headers, date, r.body.len())).to_multiset()
            == with_generated(r.headers, date, r.body.len()).to_multiset(),
{
    lemma_response_round_trip(
        ResponseView { headers: with_generated(r.headers, date, r.body.len()), ..r },
        at_end,
    );
    lemma_written_order_permutes(with_generated(r.headers, date, r.body.len()));
}

/// Whether a text can stand as the value of a header and is ASCII.
pub open spec fn plain_value(v: Seq<char>) -> bool {
    &&& is_ascii_chars(v)
    &&& free_of(v, '\n')
    &&& free_of(v, '\r')
    &&& (v.len() == 0 || (!is_blank(v[0]) && !is_blank(v.last())))
}

/// Two ASCII texts, joined, are ASCII.
pub proof fn lemma_ascii_concat(a: Seq<char>, b: Seq<char>)
    requires
        is_ascii_chars(a),
        is_ascii_chars(b),
    ensures
        is_ascii_chars(a + b),
{
    assert forall|i: int| 0 <= i < (a + b).len() implies '\0' <= #[trigger] (a + b)[i]
        <= '\u{7f}' by {
        if i < a.len() {
            assert((a + b)[i] == a[i]);
        } else {
            assert((a + b)[i] == b[i - a.len()]);
        }
    }
}

/// The lines of headers that are ready and have ASCII values are ASCII.
pub proof fn lemma_block_ascii(hs: Seq<HeaderView>)
    requires
        forall|i: int| 0 <= i < hs.len() ==> header_ready(#[trigger] hs[i]) && is_ascii_chars(
            hs[i].value,
        ),
    ensures
        is_ascii_chars(header_block(hs)),
    decreases hs.len(),
{
    if hs.len() > 0 {
        let shorter = hs.drop_last();
        let h = hs.last();
        assert forall|i: int| 0 <= i < shorter.len() implies header_ready(#[trigger] shorter[i])
            && is_ascii_chars(shorter[i].value) by {
            assert(shorter[i] == hs[i]);
        }
        lemma_block_ascii(shorter);
        assert(header_ready(hs[hs.len() - 1]) && is_ascii_chars(hs[hs.len() - 1].value));
        assert(is_ascii_chars(seq![':', ' ']));
        assert(is_ascii_chars(crlf()));
        lemma_ascii_concat(h.name.text, seq![':', ' ']);
        lemma_ascii_concat(h.name.text + seq![':', ' '], h.value);
        lemma_ascii_concat(h.name.text + seq![':', ' '] + h.value, crlf());
        lemma_ascii_concat(header_block(shorter), header_line(h));
    }
}

/// The headers of a page in serialisation order: `Connection`, `Date`,
/// `Server`, `Content-Length`, `Content-Type`.
pub open spec fn page_headers(mime: Seq<char>, date: Seq<char>, len: nat) -> Seq<HeaderView> {
    seq![
        HeaderView { name: HeaderType::Connection@, value: "close"@ },
        HeaderView { name: HeaderType::Date@, value: date },
        HeaderView { name: HeaderType::Server@, value: "Humphrey"@ },
        HeaderView { name: HeaderType::ContentLength@, value: decimal_text(len) },
        HeaderView { name: HeaderType::ContentType@, value: mime },
    ]
}

/// The headers of a page are written in the order of `page_headers`.
pub proof fn lemma_page_order(mime: Seq<char>, date: Seq<char>, len: nat)
    ensures
        with_generated(
            seq![HeaderView { name: HeaderType::ContentType@, value: mime }],
            date,
            len,
        ) == seq![
            HeaderView { name: HeaderType::ContentType@, value: mime },
            HeaderView { name: HeaderType::Server@, value: "Humphrey"@ },
            HeaderView { name: HeaderType::Date@, value: date },
            HeaderView { name: HeaderType::ContentLength@, value: decimal_text(len) },
            HeaderView { name: HeaderType::Connection@, value: "close"@ },
        ],
        written_order(
            with_generated(
                seq![HeaderView { name: HeaderType::ContentType@, value: mime }],
                date,
                len,
            ),
        ) == page_headers(mime, date, len),
{
    let ct = HeaderView { name: HeaderType::ContentType@, value: mime };
    let sv = HeaderView { name: HeaderType::Server@, value: "Humphrey"@ };
    let dt = HeaderView { name: HeaderType::Date@, value: date };
    let cl = HeaderView { name: HeaderType::ContentLength@, value: decimal_text(len) };
    let cn = HeaderView { name: HeaderType::Connection@, value: "close"@ };
    let s1 = seq![ct];
    let s2 = seq![ct, sv];
    let s3 = seq![ct, sv, dt];
    let s4 = seq![ct, sv, dt, cl];
    let s5 = seq![ct, sv, dt, cl, cn];
    reveal_with_fuel(first_index, 6);
    assert(with_default(s1, sv.name, sv.value) =~= s2);
    assert(with_default(s2, dt.name, dt.value) =~= s3);
    assert(with_default(s3, cl.name, cl.value) =~= s4);
    assert(with_default(s4, cn.name, cn.value) =~= s5);
    assert(lex_lt("Connection"@, "Date"@)) by {
        reveal_strlit("Connection");
        reveal_strlit("Date");
    }
    assert(lex_lt("Content-Length"@, "Content-Type"@)) by {
        reveal_strlit("Content-Length");
        reveal_strlit("Content-Type");
        reveal_with_fuel(lex_lt, 10);
        let a = "Content-Length"@;
        let b = "Content-Type"@;
        assert(a.skip(8)[0] == 'L' && b.skip(8)[0] == 'T');
        assert(a.skip(8) =~= a.drop_first().drop_first().drop_first().drop_first().drop_first().drop_first().drop_first().drop_first());
        assert(b.skip(8) =~= b.drop_first().drop_first().drop_first().drop_first().drop_first().drop_first().drop_first().drop_first());
    }
    crate::text::lemma_lex_lt_asymmetric("Content-Length"@, "Content-Type"@);
    crate::text::lemma_lex_lt_asymmetric("Connection"@, "Date"@);
    let w1 = seq![ct];
    assert(written_order(s1) =~= w1) by {
        assert(s1.drop_last() =~= Seq::<HeaderView>::empty());
        assert(written_order(s1.drop_last()) =~= Seq::<HeaderView>::empty());
        lemma_insert_written_at(Seq::<HeaderView>::empty(), ct, 0);
        assert(Seq::<HeaderView>::empty().insert(0, ct) =~= w1);
    }
    let w2 = seq![sv, ct];
    assert(written_order(s2) =~= w2) by {
        assert(s2.drop_last() =~= s1);
        lemma_insert_written_at(w1, sv, 0);
        assert(w1.insert(0, sv) =~= w2);
    }
    let w3 = seq![dt, sv, ct];
    assert(written_order(s3) =~= w3) by {
        assert(s3.drop_last() =~= s2);
        lemma_insert_written_at(w2, dt, 0);
        assert(w2.insert(0, dt) =~= w3);
    }
    let w4 = seq![dt, sv, cl, ct];
    assert(written_order(s4) =~= w4) by {
        assert(s4.drop_last() =~= s3);
        lemma_insert_written_at(w3, cl, 2);
        assert(w3.insert(2, cl) =~= w4);
    }
    assert(written_order(s5) =~= page_headers(mime, date, len)) by {
        assert(s5.drop_last() =~= s4);
        lemma_insert_written_at(w4, cn, 0);
        assert(w4.insert(0, cn) =~= page_headers(mime, date, len));
    }
}

/// The law of the pages: a response that is made of a status, a content type
/// and a body, in the protocol version of its request and with the
/// generated headers, is ready to be written and read back, whatever the
/// body holds and whether or not the stream ends behind it.
pub proof fn lemma_page_is_ready(
    version: Seq<char>,
    status: u16,
    mime: Seq<char>,
    body: Seq<u8>,
    date: Seq<char>,
    at_end: bool,
)
    requires
        is_token(version),
        is_ascii_chars(version),
        plain_value(mime),
        plain_value(date),
        body.len() <= u64::MAX,
    ensures
        response_ready(
            ResponseView {
                version,
                status,
                headers: with_generated(
                    seq![HeaderView { name: HeaderType::ContentType@, value: mime }],
                    date,
                    body.len(),
                ),
                body,
            },
            at_end,
        ),
{
    let hs = page_headers(mime, date, body.len());
    let r = ResponseView {
        version,
        status,
        headers: with_generated(
            seq![HeaderView { name: HeaderType::ContentType@, value: mime }],
            date,
            body.len(),
        ),
        body,
    };
    lemma_page_order(mime, date, body.len());
    lemma_known_name_reads_back(HeaderType::Connection);
    lemma_known_name_reads_back(HeaderType::Date);
    lemma_known_name_reads_back(HeaderType::Server);
    lemma_known_name_reads_back(HeaderType::ContentLength);
    lemma_known_name_reads_back(HeaderType::ContentType);
    lemma_decimal_round_trip(body.len());
    let digits = decimal_text(body.len());
    lemma_digits_plain(digits, '\n');
    lemma_digits_plain(digits, '\r');
    lemma_digits_plain(digits, ' ');
    lemma_digits_plain(digits, '\t');
    assert(plain_value(digits)) by {
        assert forall|i: int| 0 <= i < digits.len() implies '\0' <= #[trigger] digits[i]
            <= '\u{7f}' by {
            assert(is_digit(digits[i]));
        }
        assert(is_digit(digits[0]) && is_digit(digits[digits.len() - 1]));
    }
    assert(plain_value("close"@)) by {
        reveal_strlit("close");
    }
    assert(plain_value("Humphrey"@)) by {
        reveal_strlit("Humphrey");
    }
    assert forall|i: int| 0 <= i < hs.len() implies header_ready(#[trigger] hs[i])
        && is_ascii_chars(hs[i].value) by {}
    lemma_block_ascii(hs);
    let code = decimal_text(status as nat);
    lemma_decimal_round_trip(status as nat);
    assert(is_ascii_chars(code)) by {
        assert forall|i: int| 0 <= i < code.len() implies '\0' <= #[trigger] code[i]
            <= '\u{7f}' by {
            assert(is_digit(code[i]));
        }
    }
    lemma_reason_plain(status);
    assert(is_ascii_chars(seq![' ']));
    assert(is_ascii_chars(crlf()));
    lemma_ascii_concat(version, seq![' ']);
    lemma_ascii_concat(version + seq![' '], code);
    lemma_ascii_concat(version + seq![' '] + code, seq![' ']);
    lemma_ascii_concat(version + seq![' '] + code + seq![' '], reason_of(status));
    lemma_ascii_concat(version + seq![' '] + code + seq![' '] + reason_of(status), crlf());
    lemma_ascii_concat(
        version + seq![' '] + code + seq![' '] + reason_of(status) + crlf(),
        header_block(hs),
    );
    lemma_ascii_concat(
        version + seq![' '] + code + seq![' '] + reason_of(status) + crlf() + header_block(hs),
        crlf(),
    );
    assert(framing(hs) == FramingSpec::Length(body.len())) by {
        reveal_with_fuel(first_index, 6);
    }
}

} // verus!
