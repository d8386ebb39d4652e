//! Reading the head of a message: where it ends, its lines, and what the
//! lines say.

use vstd::prelude::*;
use vstd::slice::slice_subrange;
use vstd::utf8::{decode_utf8, valid_utf8};
use crate::http::headers::{first_index, without, Header, HeaderType, HeaderView, Headers};
use crate::text::{chars_of, decimal_value, find_char, index_of, is_decimal};
use crate::text::{parse_decimal, slice_chars, split, split_chars, string_of, text_of_utf8};
use crate::text::{ascii_lower, decimal_text, format_decimal, is_blank, str_eq};
use crate::text::{to_ascii_lowercase, trim, trim_chars};

verus! {

/// What came of reading a message from the bytes received so far.
#[derive(Debug)]
pub enum Parsed<T> {
    /// A whole message, and the number of bytes it takes up.
    Complete { value: T, consumed: usize },
    /// The bytes are the beginning of a message; more must be read.
    Incomplete,
    /// The bytes cannot be the beginning of any message.
    Malformed,
}

/// What reading a message comes to, in contracts.
pub enum Outcome<V> {
    Complete(V, int),
    Incomplete,
    Malformed,
}

/// Whether the result of a read is the given outcome.
pub open spec fn parsed_as<T: View>(r: Parsed<T>, o: Outcome<T::V>) -> bool {
    match o {
        Outcome::Complete(v, n) => r matches Parsed::Complete { value, consumed } && value@ == v
            && consumed == n,
        Outcome::Incomplete => r is Incomplete,
        Outcome::Malformed => r is Malformed,
    }
}

/// Whether the head of a message ends with the line feed at `i`: it is
/// followed by an empty line, which is a line feed alone or a carriage return
/// and a line feed.
pub open spec fn breaks_at(b: Seq<u8>, i: int) -> bool {
    0 <= i && i + 1 < b.len() && b[i] == 10 && (b[i + 1] == 10 || (i + 2 < b.len() && b[i + 1]
        == 13 && b[i + 2] == 10))
}

/// The first position at or after `from` at which the head ends, or the
/// length of `b` if it does not end.
pub open spec fn first_break(b: Seq<u8>, from: int) -> int
    decreases b.len() - from,
{
    if from >= b.len() {
        b.len() as int
    } else if breaks_at(b, from) {
        from
    } else {
        first_break(b, from + 1)
    }
}

/// Where the body starts when the head ends at `i`.
pub open spec fn body_start(b: Seq<u8>, i: int) -> int {
    if b[i + 1] == 10 {
        i + 2
    } else {
        i + 3
    }
}

/// The position of the line feed that ends the head, or the length of
/// `bytes` if the head has not ended yet.
pub fn find_break(bytes: &[u8]) -> (r: usize)
    ensures
        r == first_break(bytes@, 0),
        r <= bytes@.len(),
        r < bytes@.len() ==> breaks_at(bytes@, r as int),
{
    let n = bytes.len();
    let mut i: usize = 0;
    while i < n
        invariant
            i <= n,
            n == bytes@.len(),
            first_break(bytes@, 0) == first_break(bytes@, i as int),
        decreases n - i,
    {
        if bytes[i] == 10 && i + 1 < n && (bytes[i + 1] == 10 || (i + 2 < n && bytes[i + 1] == 13
            && bytes[i + 2] == 10)) {
            return i;
        }
        i += 1;
    }
    i
}

/// A line without the carriage return at its end, if it has one.
pub open spec fn strip_cr(t: Seq<char>) -> Seq<char> {
    if t.len() > 0 && t.last() == '\r' {
        t.drop_last()
    } else {
        t
    }
}

/// The lines of a text in which every line ends with a line feed; a carriage
/// return before the line feed is not part of the line.
pub open spec fn lines_of(t: Seq<char>) -> Seq<Seq<char>> {
    let pieces = split(t, '\n');
    Seq::new((pieces.len() - 1) as nat, |i: int| strip_cr(pieces[i]))
}

/// The views of a sequence of character vectors.
pub open spec fn line_views(v: Seq<Vec<char>>) -> Seq<Seq<char>> {
    Seq::new(v.len(), |i: int| v[i]@)
}

/// The lines of `head`.
pub fn head_lines(head: &Vec<char>) -> (r: Vec<Vec<char>>)
    ensures
        line_views(r@) == lines_of(head@),
{
    let mut pieces = split_chars(head, '\n');
    let ghost all = split(head@, '\n');
    if pieces.len() == 0 {
        assert(line_views(pieces@) =~= lines_of(head@));
        return pieces;
    }
    pieces.pop();
    let mut out: Vec<Vec<char>> = Vec::new();
    let mut i: usize = 0;
    while i < pieces.len()
        invariant
            i <= pieces@.len(),
            pieces@.len() == all.len() - 1,
            all == split(head@, '\n'),
            forall|k: int| 0 <= k < pieces@.len() ==> (#[trigger] pieces@[k])@ == all[k],
            out@.len() == i,
            forall|k: int| 0 <= k < i ==> (#[trigger] out@[k])@ == strip_cr(all[k]),
        decreases pieces@.len() - i,
    {
        let piece = &pieces[i];
        let n = piece.len();
        if n > 0 && piece[n - 1] == '\r' {
            let line = slice_chars(piece, 0, n - 1);
            assert(line@ =~= strip_cr(piece@));
            out.push(line);
        } else {
            let line = slice_chars(piece, 0, n);
            assert(line@ =~= strip_cr(piece@));
            out.push(line);
        }
        i += 1;
    }
    assert(line_views(out@) =~= lines_of(head@));
    out
}

/// The header that a line holds: the name before the first colon, and the
/// value after it without the blanks around it. A line that starts with a
/// blank (a folded line), has no colon, or has nothing before the colon
/// holds no header.
pub open spec fn header_of_line(line: Seq<char>) -> Option<HeaderView> {
    let i = index_of(line, ':');
    if line.len() == 0 || is_blank(line[0]) || i == 0 || i >= line.len() {
        None
    } else {
        Some(HeaderView { name: HeaderType::id_of_name(line.take(i)), value: trim(line.skip(i + 1)) })
    }
}

/// The header that `line` holds.
pub fn parse_header_line(line: &Vec<char>) -> (r: Option<Header>)
    ensures
        match header_of_line(line@) {
            Some(h) => r matches Some(x) && x@ == h,
            None => r is None,
        },
{
    if line.len() == 0 || line[0] == ' ' || line[0] == '\t' {
        return None;
    }
    let i = find_char(line, 0, ':');
    assert(line@.skip(0) =~= line@);
    if i == 0 || i >= line.len() {
        return None;
    }
    let name = slice_chars(line, 0, i);
    let rest = slice_chars(line, i + 1, line.len());
    let value = trim_chars(&rest);
    proof {
        assert(name@ =~= line@.take(i as int));
        assert(rest@ =~= line@.skip(i + 1));
    }
    let name_text = string_of(&name);
    let value_text = string_of(&value);
    Some(Header { name: HeaderType::from_name(name_text.as_str()), value: value_text })
}

/// The headers that the given lines hold, if every line holds one.
pub open spec fn headers_of_lines(lines: Seq<Seq<char>>) -> Option<Seq<HeaderView>>
    decreases lines.len(),
{
    if lines.len() == 0 {
        Some(Seq::empty())
    } else {
        match (headers_of_lines(lines.drop_last()), header_of_line(lines.last())) {
            (Some(hs), Some(h)) => Some(hs.push(h)),
            _ => None,
        }
    }
}

/// If the lines hold headers then so do the lines of any prefix.
pub proof fn lemma_headers_of_prefix(lines: Seq<Seq<char>>, k: int)
    requires
        0 <= k <= lines.len(),
        headers_of_lines(lines.take(k)) is None,
    ensures
        headers_of_lines(lines) is None,
    decreases lines.len() - k,
{
    if k < lines.len() {
        assert(lines.take(k + 1).drop_last() =~= lines.take(k));
        lemma_headers_of_prefix(lines, k + 1);
    } else {
        assert(lines.take(k) =~= lines);
    }
}

/// The headers that the lines from `from` on hold.
pub fn parse_header_lines(lines: &Vec<Vec<char>>, from: usize) -> (r: Option<Headers>)
    requires
        from <= lines@.len(),
    ensures
        match headers_of_lines(line_views(lines@).skip(from as int)) {
            Some(hs) => r matches Some(x) && x@ == hs,
            None => r is None,
        },
{
    let mut headers = Headers::new();
    let mut i: usize = from;
    let ghost rest = line_views(lines@).skip(from as int);
    assert(rest.take(0) =~= Seq::<Seq<char>>::empty());
    while i < lines.len()
        invariant
            from <= i <= lines@.len(),
            rest == line_views(lines@).skip(from as int),
            headers_of_lines(rest.take(i - from)) == Some(headers@),
        decreases lines@.len() - i,
    {
        proof {
            assert(rest.take(i - from + 1).drop_last() =~= rest.take(i - from));
            assert(rest.take(i - from + 1).last() == lines@[i as int]@);
        }
        match parse_header_line(&lines[i]) {
            Some(header) => {
                headers.push(header);
            },
            None => {
                proof {
                    lemma_headers_of_prefix(rest, i - from + 1);
                }
                return None;
            },
        }
        i += 1;
    }
    assert(rest.take(i - from) =~= rest);
    Some(headers)
}

/// The value of a hexadecimal digit.
pub open spec fn hex_value(c: char) -> Option<nat> {
    if '0' <= c && c <= '9' {
        Some((c as u8 - 48) as nat)
    } else if 'a' <= c && c <= 'f' {
        Some((c as u8 - 87) as nat)
    } else if 'A' <= c && c <= 'F' {
        Some((c as u8 - 55) as nat)
    } else {
        None
    }
}

/// `a` followed by `b`, if there is a `b`.
pub open spec fn after_text(a: Seq<char>, b: Option<Seq<char>>) -> Option<Seq<char>> {
    match b {
        Some(rest) => Some(a + rest),
        None => None,
    }
}

/// The text that a percent-encoded text stands for: `%` and two hexadecimal
/// digits stand for the character with that number, and every other
/// character for itself. A `%` that no two hexadecimal digits follow stands
/// for nothing, and neither does the text that holds it.
pub open spec fn percent_decode(t: Seq<char>) -> Option<Seq<char>>
    decreases t.len(),
{
    if t.len() == 0 {
        Some(Seq::empty())
    } else if t[0] == '%' {
        if t.len() >= 3 && hex_value(t[1]) is Some && hex_value(t[2]) is Some {
            after_text(
                seq![((hex_value(t[1])->0 * 16 + hex_value(t[2])->0) as u8) as char],
                percent_decode(t.skip(3)),
            )
        } else {
            None
        }
    } else {
        after_text(seq![t[0]], percent_decode(t.drop_first()))
    }
}

/// A percent sign and two hexadecimal digits stand for the one character
/// with the number that the digits give.
pub proof fn lemma_percent_escape(high: char, low: char)
    requires
        hex_value(high) is Some,
        hex_value(low) is Some,
    ensures
        percent_decode(seq!['%', high, low]) == Some(
            seq![((hex_value(high)->0 * 16 + hex_value(low)->0) as u8) as char],
        ),
{
    let t = seq!['%', high, low];
    assert(t.skip(3) =~= Seq::<char>::empty());
    assert(percent_decode(t.skip(3)) == Some(Seq::<char>::empty()));
    let c = ((hex_value(high)->0 * 16 + hex_value(low)->0) as u8) as char;
    assert(seq![c] + Seq::<char>::empty() =~= seq![c]);
}

/// A character other than the percent sign stands for itself.
pub proof fn lemma_percent_literal(c: char)
    requires
        c != '%',
    ensures
        percent_decode(seq![c]) == Some(seq![c]),
{
    let t = seq![c];
    assert(t.drop_first() =~= Seq::<char>::empty());
    assert(percent_decode(t.drop_first()) == Some(Seq::<char>::empty()));
    assert(seq![c] + Seq::<char>::empty() =~= seq![c]);
}

/// What two texts stand for, one after the other, is what the two of them
/// joined stand for.
pub proof fn lemma_percent_decode_concat(a: Seq<char>, b: Seq<char>)
    requires
        percent_decode(a) is Some,
        percent_decode(b) is Some,
    ensures
        percent_decode(a + b) == Some(percent_decode(a)->0 + percent_decode(b)->0),
    decreases a.len(),
{
    let t = a + b;
    if a.len() == 0 {
        assert(t =~= b);
        assert(percent_decode(a)->0 + percent_decode(b)->0 =~= percent_decode(b)->0);
    } else if a[0] == '%' {
        assert(t[0] == a[0] && t[1] == a[1] && t[2] == a[2]);
        assert(t.skip(3) =~= a.skip(3) + b);
        lemma_percent_decode_concat(a.skip(3), b);
        let c = seq![((hex_value(a[1])->0 * 16 + hex_value(a[2])->0) as u8) as char];
        assert(c + (percent_decode(a.skip(3))->0 + percent_decode(b)->0) =~= (c + percent_decode(
            a.skip(3),
        )->0) + percent_decode(b)->0);
    } else {
        assert(t[0] == a[0]);
        assert(t.drop_first() =~= a.drop_first() + b);
        lemma_percent_decode_concat(a.drop_first(), b);
        assert(seq![a[0]] + (percent_decode(a.drop_first())->0 + percent_decode(b)->0) =~= (
        seq![a[0]] + percent_decode(a.drop_first())->0) + percent_decode(b)->0);
    }
}

/// The value of the hexadecimal digit `c`.
pub fn hex_digit(c: char) -> (r: Option<u8>)
    ensures
        match hex_value(c) {
            Some(v) => r == Some(v as u8) && v < 16,
            None => r is None,
        },
{
    if '0' <= c && c <= '9' {
        Some(c as u8 - 48)
    } else if 'a' <= c && c <= 'f' {
        Some(c as u8 - 87)
    } else if 'A' <= c && c <= 'F' {
        Some(c as u8 - 55)
    } else {
        None
    }
}

/// The text that the percent-encoded text `v` stands for.
pub fn decode_percent(v: &Vec<char>) -> (r: Option<Vec<char>>)
    ensures
        match percent_decode(v@) {
            Some(t) => r matches Some(x) && x@ == t,
            None => r is None,
        },
{
    let mut out: Vec<char> = Vec::new();
    let mut i: usize = 0;
    assert(v@.skip(0) =~= v@);
    assert(after_text(out@, percent_decode(v@)) =~= percent_decode(v@)) by {
        if percent_decode(v@) is Some {
            assert(out@ + percent_decode(v@)->0 =~= percent_decode(v@)->0);
        }
    }
    while i < v.len()
        invariant
            i <= v@.len(),
            percent_decode(v@) == after_text(out@, percent_decode(v@.skip(i as int))),
        decreases v@.len() - i,
    {
        let ghost rest = v@.skip(i as int);
        let ghost before = out@;
        let c = v[i];
        assert(rest[0] == c);
        if c == '%' {
            if v.len() - i < 3 {
                return None;
            }
            assert(rest[1] == v@[i + 1] && rest[2] == v@[i + 2]);
            let high = hex_digit(v[i + 1]);
            let low = hex_digit(v[i + 2]);
            match (high, low) {
                (Some(h), Some(l)) => {
                    let decoded = (h * 16 + l) as char;
                    out.push(decoded);
                    proof {
                        assert(rest.skip(3) =~= v@.skip(i + 3));
                        let tail = percent_decode(v@.skip(i + 3));
                        if tail is Some {
                            assert(before + (seq![decoded] + tail->0) =~= out@ + tail->0);
                        }
                    }
                    i += 3;
                },
                _ => {
                    return None;
                },
            }
        } else {
            out.push(c);
            proof {
                assert(rest.drop_first() =~= v@.skip(i + 1));
                let tail = percent_decode(v@.skip(i + 1));
                if tail is Some {
                    assert(before + (seq![c] + tail->0) =~= out@ + tail->0);
                }
            }
            i += 1;
        }
    }
    assert(out@ + Seq::<char>::empty() =~= out@);
    Some(out)
}

/// How the headers frame the body.
pub enum Framing {
    /// The body comes in chunks.
    Chunked,
    /// The body has this many bytes.
    Length(u64),
    /// The headers do not say.
    Absent,
    /// The first `Content-Length` header does not hold a number that fits.
    Invalid,
}

/// How the headers frame the body, in contracts.
pub enum FramingSpec {
    Chunked,
    Length(nat),
    Absent,
    Invalid,
}

/// Whether the headers announce a body in chunks: the first
/// `Transfer-Encoding` header says `chunked`, in any case of the letters.
pub open spec fn is_chunked(hs: Seq<HeaderView>) -> bool {
    first_index(hs, HeaderType::TransferEncoding@) < hs.len() && ascii_lower(
        hs[first_index(hs, HeaderType::TransferEncoding@)].value,
    ) == "chunked"@
}

/// How the headers frame the body: in chunks where they announce chunks, and
/// otherwise by what the first `Content-Length` header says.
pub open spec fn framing(hs: Seq<HeaderView>) -> FramingSpec {
    let i = first_index(hs, HeaderType::ContentLength@);
    if is_chunked(hs) {
        FramingSpec::Chunked
    } else if i >= hs.len() {
        FramingSpec::Absent
    } else if is_decimal(hs[i].value) && decimal_value(hs[i].value) <= u64::MAX {
        FramingSpec::Length(decimal_value(hs[i].value))
    } else {
        FramingSpec::Invalid
    }
}

/// How the headers frame the body.
pub fn read_framing(headers: &Headers) -> (r: Framing)
    ensures
        match framing(headers@) {
            FramingSpec::Chunked => r is Chunked,
            FramingSpec::Length(n) => r matches Framing::Length(m) && m == n,
            FramingSpec::Absent => r is Absent,
            FramingSpec::Invalid => r is Invalid,
        },
{
    let chunked = match headers.get(HeaderType::TransferEncoding) {
        Some(value) => {
            let lower = to_ascii_lowercase(value);
            str_eq(lower.as_str(), "chunked")
        },
        None => false,
    };
    if chunked {
        return Framing::Chunked;
    }
    match headers.get(HeaderType::ContentLength) {
        None => Framing::Absent,
        Some(value) => {
            let digits = chars_of(value);
            match parse_decimal(&digits) {
                Some(n) => Framing::Length(n),
                None => Framing::Invalid,
            }
        },
    }
}

/// The headers of a message whose body was put together from chunks: they
/// no longer announce chunks, and give the length of the body instead.
pub open spec fn unchunked(hs: Seq<HeaderView>, len: nat) -> Seq<HeaderView> {
    without(without(hs, HeaderType::TransferEncoding@), HeaderType::ContentLength@).push(
        HeaderView { name: HeaderType::ContentLength@, value: decimal_text(len) },
    )
}

/// Makes the headers of a message whose body was put together from chunks.
pub fn unchunk_headers(headers: &mut Headers, len: usize)
    ensures
        final(headers)@ == unchunked(old(headers)@, len as nat),
{
    headers.remove(HeaderType::TransferEncoding);
    headers.remove(HeaderType::ContentLength);
    let text = string_of(&format_decimal(len as u64));
    headers.add(HeaderType::ContentLength, text.as_str());
}

/// The position of the first line feed at or after `from`, or the length of
/// `b` if there is none.
pub open spec fn line_feed_from(b: Seq<u8>, from: int) -> int
    decreases b.len() - from,
{
    if from >= b.len() {
        b.len() as int
    } else if from >= 0 && b[from] == 10 {
        from
    } else {
        line_feed_from(b, from + 1)
    }
}

/// The position of the first line feed at or after `from`.
fn find_line_feed(bytes: &[u8], from: usize) -> (r: usize)
    requires
        from <= bytes@.len(),
    ensures
        r == line_feed_from(bytes@, from as int),
        from <= r <= bytes@.len(),
        r < bytes@.len() ==> bytes@[r as int] == 10,
{
    let n = bytes.len();
    let mut i: usize = from;
    while i < n && bytes[i] != 10
        invariant
            from <= i <= n,
            n == bytes@.len(),
            line_feed_from(bytes@, from as int) == line_feed_from(bytes@, i as int),
        decreases n - i,
    {
        i += 1;
    }
    i
}

/// The value of a hexadecimal digit given as a byte.
pub open spec fn hex_byte(c: u8) -> Option<nat> {
    if 48 <= c <= 57 {
        Some((c - 48) as nat)
    } else if 97 <= c <= 102 {
        Some((c - 87) as nat)
    } else if 65 <= c <= 70 {
        Some((c - 55) as nat)
    } else {
        None
    }
}

/// The number that a run of hexadecimal digits stands for, if all of them
/// are hexadecimal digits.
pub open spec fn hex_number(digits: Seq<u8>) -> Option<nat>
    decreases digits.len(),
{
    if digits.len() == 0 {
        Some(0)
    } else {
        match (hex_number(digits.drop_last()), hex_byte(digits.last())) {
            (Some(n), Some(d)) => Some(n * 16 + d),
            _ => None,
        }
    }
}

/// The end of the number on a chunk's size line `b[from..to]`: the line runs
/// to `to`, without a carriage return at its end, and the number ends where
/// a chunk extension begins with `;`.
pub open spec fn size_end(b: Seq<u8>, from: int, to: int) -> int
    decreases to - from,
{
    if from >= to {
        to
    } else if b[from] == 59 || (b[from] == 13 && from + 1 == to) {
        from
    } else {
        size_end(b, from + 1, to)
    }
}

/// The size that the line `b[from..to]` gives for a chunk: one to fifteen
/// hexadecimal digits.
pub open spec fn chunk_size(b: Seq<u8>, from: int, to: int) -> Option<nat> {
    let end = size_end(b, from, to);
    if 1 <= end - from <= 15 {
        hex_number(b.subrange(from, end))
    } else {
        None
    }
}

/// What a body in chunks comes to.
pub enum Chunks {
    /// The whole body, and the position behind its last line.
    Complete(Seq<u8>, int),
    /// More bytes must be read.
    Incomplete,
    /// These are no chunks.
    Malformed,
}

/// A body with more bytes in front of it.
pub open spec fn after_bytes(front: Seq<u8>, rest: Chunks) -> Chunks {
    match rest {
        Chunks::Complete(body, end) => Chunks::Complete(front + body, end),
        other => other,
    }
}

/// The end of the trailer that begins at `from`: the position behind the
/// first empty line.
pub open spec fn trailer_end(b: Seq<u8>, from: int) -> Chunks
    decreases b.len() - from,
{
    let lf = line_feed_from(b, from);
    if from < 0 || from > b.len() || lf >= b.len() || lf < from {
        Chunks::Incomplete
    } else if lf == from || (lf == from + 1 && b[from] == 13) {
        Chunks::Complete(Seq::empty(), lf + 1)
    } else {
        trailer_end(b, lf + 1)
    }
}

/// The body that the chunks from `from` on make up. A chunk is a line with
/// its size in hexadecimal, that many bytes, and a line end. A chunk of size
/// zero is the last; behind it a trailer of header lines, which are not
/// kept, runs up to an empty line.
pub open spec fn dechunked(b: Seq<u8>, from: int) -> Chunks
    decreases b.len() - from,
{
    let lf = line_feed_from(b, from);
    if from < 0 || from > b.len() || lf >= b.len() || lf < from {
        Chunks::Incomplete
    } else {
        match chunk_size(b, from, lf) {
            None => Chunks::Malformed,
            Some(n) => {
                let start = lf + 1;
                if n == 0 {
                    trailer_end(b, start)
                } else if b.len() - start <= n {
                    Chunks::Incomplete
                } else if b[start + n] == 10 {
                    after_bytes(b.subrange(start, start + n), dechunked(b, start + n + 1))
                } else if b[start + n] != 13 {
                    Chunks::Malformed
                } else if b.len() - start <= n + 1 {
                    Chunks::Incomplete
                } else if b[start + n + 1] == 10 {
                    after_bytes(b.subrange(start, start + n), dechunked(b, start + n + 2))
                } else {
                    Chunks::Malformed
                }
            },
        }
    }
}

/// What came of reading a body in chunks.
pub enum ChunkedBody {
    /// The whole body, and the position behind its last line.
    Complete(Vec<u8>, usize),
    /// More bytes must be read.
    Incomplete,
    /// These are no chunks.
    Malformed,
}

/// Whether the result of reading chunks is the given outcome.
pub open spec fn chunks_as(r: ChunkedBody, c: Chunks) -> bool {
    match c {
        Chunks::Complete(body, end) => r matches ChunkedBody::Complete(v, e) && v@ == body && e
            == end,
        Chunks::Incomplete => r is Incomplete,
        Chunks::Malformed => r is Malformed,
    }
}

/// The size that the line `bytes[from..to]` gives for a chunk.
fn read_chunk_size(bytes: &[u8], from: usize, to: usize) -> (r: Option<u64>)
    requires
        from <= to <= bytes@.len(),
    ensures
        match chunk_size(bytes@, from as int, to as int) {
            Some(n) => r == Some(n as u64) && n < 0x1000_0000_0000_0000,
            None => r is None,
        },
{
    let mut end: usize = from;
    while end < to && !(bytes[end] == 59 || (bytes[end] == 13 && end + 1 == to))
        invariant
            from <= end <= to <= bytes@.len(),
            size_end(bytes@, from as int, to as int) == size_end(bytes@, end as int, to as int),
        decreases to - end,
    {
        end += 1;
    }
    assert(size_end(bytes@, end as int, to as int) == end);
    if end == from || end - from > 15 {
        return None;
    }
    let ghost digits = bytes@.subrange(from as int, end as int);
    let mut n: u64 = 0;
    let mut i: usize = from;
    assert(digits.take(0) =~= Seq::<u8>::empty());
    while i < end
        invariant
            from <= i <= end <= bytes@.len(),
            from < end,
            end - from <= 15,
            size_end(bytes@, from as int, to as int) == end,
            digits == bytes@.subrange(from as int, end as int),
            hex_number(digits.take(i - from)) == Some(n as nat),
            n < pow16((i - from) as nat),
        decreases end - i,
    {
        let c = bytes[i];
        proof {
            assert(digits.take(i - from + 1).drop_last() =~= digits.take(i - from));
            assert(digits.take(i - from + 1).last() == c);
            lemma_pow16_bound((i - from) as nat);
        }
        let d: u64 = if 48 <= c && c <= 57 {
            (c - 48) as u64
        } else if 97 <= c && c <= 102 {
            (c - 87) as u64
        } else if 65 <= c && c <= 70 {
            (c - 55) as u64
        } else {
            proof {
                lemma_hex_number_prefix(digits, i - from + 1);
            }
            return None;
        };
        n = n * 16 + d;
        i += 1;
    }
    proof {
        assert(digits.take(i - from) =~= digits);
        lemma_pow16_bound((end - from) as nat);
    }
    Some(n)
}

/// Sixteen to the power of `k`.
pub open spec fn pow16(k: nat) -> nat
    decreases k,
{
    if k == 0 {
        1
    } else {
        16 * pow16((k - 1) as nat)
    }
}

/// Up to fifteen hexadecimal digits stay below two to the power of sixty.
proof fn lemma_pow16_bound(k: nat)
    requires
        k <= 15,
    ensures
        pow16(k) <= 0x1000_0000_0000_0000,
        k < 15 ==> pow16(k) * 16 <= 0x1000_0000_0000_0000,
{
    reveal_with_fuel(pow16, 17);
}

/// Where a prefix of the digits is no number, the digits are none.
proof fn lemma_hex_number_prefix(digits: Seq<u8>, k: int)
    requires
        0 <= k <= digits.len(),
        hex_number(digits.take(k)) is None,
    ensures
        hex_number(digits) is None,
    decreases digits.len() - k,
{
    if k < digits.len() {
        assert(digits.take(k + 1).drop_last() =~= digits.take(k));
        lemma_hex_number_prefix(digits, k + 1);
    } else {
        assert(digits.take(k) =~= digits);
    }
}

/// Reads the body that the chunks from `from` on make up.
pub fn read_chunks(bytes: &[u8], from: usize) -> (r: ChunkedBody)
    requires
        from <= bytes@.len(),
    ensures
        chunks_as(r, dechunked(bytes@, from as int)),
{
    let n = bytes.len();
    let mut body: Vec<u8> = Vec::new();
    let mut at: usize = from;
    proof {
        let whole = dechunked(bytes@, from as int);
        if whole is Complete {
            assert(body@ + whole->Complete_0 =~= whole->Complete_0);
        }
    }
    loop
        invariant
            n == bytes@.len(),
            at <= n,
            dechunked(bytes@, from as int) == after_bytes(body@, dechunked(bytes@, at as int)),
        decreases n - at,
    {
        let lf = find_line_feed(bytes, at);
        if lf >= n {
            return ChunkedBody::Incomplete;
        }
        let size = match read_chunk_size(bytes, at, lf) {
            Some(size) => size,
            None => {
                return ChunkedBody::Malformed;
            },
        };
        let start = lf + 1;
        if size == 0 {
            let mut line = start;
            loop
                invariant
                    n == bytes@.len(),
                    line <= n,
                    dechunked(bytes@, from as int) == after_bytes(
                        body@,
                        trailer_end(bytes@, start as int),
                    ),
                    trailer_end(bytes@, start as int) == trailer_end(bytes@, line as int),
                decreases n - line,
            {
                let end = find_line_feed(bytes, line);
                if end >= n {
                    return ChunkedBody::Incomplete;
                }
                if end == line || (end == line + 1 && bytes[line] == 13) {
                    assert(body@ + Seq::<u8>::empty() =~= body@);
                    return ChunkedBody::Complete(body, end + 1);
                }
                line = end + 1;
            }
        }
        if ((n - start) as u64) <= size {
            return ChunkedBody::Incomplete;
        }
        let data_end = start + size as usize;
        let next: usize = if bytes[data_end] == 10 {
            data_end + 1
        } else if bytes[data_end] != 13 {
            return ChunkedBody::Malformed;
        } else if n - start <= size as usize + 1 {
            return ChunkedBody::Incomplete;
        } else if bytes[data_end + 1] == 10 {
            data_end + 2
        } else {
            return ChunkedBody::Malformed;
        };
        let ghost before = body@;
        let ghost piece = bytes@.subrange(start as int, data_end as int);
        let mut i: usize = start;
        while i < data_end
            invariant
                start <= i <= data_end < n,
                n == bytes@.len(),
                body@ == before + bytes@.subrange(start as int, i as int),
            decreases data_end - i,
        {
            body.push(bytes[i]);
            i += 1;
            assert(body@ =~= before + bytes@.subrange(start as int, i as int));
        }
        proof {
            let rest = dechunked(bytes@, next as int);
            if rest is Complete {
                assert(before + (piece + rest->Complete_0) =~= body@ + rest->Complete_0);
            }
        }
        at = next;
    }
}

/// The head of the message in `bytes` as text, when it ends at `brk`.
pub fn head_text(bytes: &[u8], brk: usize) -> (r: Option<Vec<char>>)
    requires
        brk < bytes@.len(),
    ensures
        r is Some <==> valid_utf8(bytes@.take(brk + 1)),
        r matches Some(t) ==> t@ == decode_utf8(bytes@.take(brk + 1)),
{
    let n = bytes.len();
    let head = slice_subrange(bytes, 0, brk + 1);
    assert(head@ =~= bytes@.take(brk + 1));
    match text_of_utf8(head) {
        Some(text) => Some(chars_of(text)),
        None => None,
    }
}

} // verus!
