//! The text layout of messages on the wire: lines, header blocks, and the
//! break between head and body.

use vstd::prelude::*;
use vstd::string::StrSliceExecFns;
use vstd::utf8::encode_utf8;
use crate::http::headers::{header_views, written_order, Header, HeaderView, Headers};
use crate::text::{chars_of, string_of};

verus! {

/// The line end of the wire format: carriage return, line feed.
pub open spec fn crlf() -> Seq<char> {
    seq!['\r', '\n']
}

/// One header as a line: name, colon, space, value, line end.
pub open spec fn header_line(h: HeaderView) -> Seq<char> {
    h.name.text + seq![':', ' '] + h.value + crlf()
}

/// The lines of the given headers, one after the other.
pub open spec fn header_block(hs: Seq<HeaderView>) -> Seq<char>
    decreases hs.len(),
{
    if hs.len() == 0 {
        Seq::empty()
    } else {
        header_block(hs.drop_last()) + header_line(hs.last())
    }
}

/// Appends the characters of `s` to `out`.
pub fn push_str(out: &mut Vec<char>, s: &str)
    ensures
        final(out)@ == old(out)@ + s@,
{
    let mut chars = chars_of(s);
    out.append(&mut chars);
}

/// Appends the characters of `v` to `out`.
pub fn push_chars(out: &mut Vec<char>, v: &Vec<char>)
    ensures
        final(out)@ == old(out)@ + v@,
{
    let mut i: usize = 0;
    while i < v.len()
        invariant
            i <= v@.len(),
            out@ == old(out)@ + v@.take(i as int),
        decreases v@.len() - i,
    {
        out.push(v[i]);
        i += 1;
        assert(out@ =~= old(out)@ + v@.take(i as int));
    }
    assert(v@.take(i as int) =~= v@);
}

/// Appends one header line to `out`.
pub fn push_header(out: &mut Vec<char>, header: &Header)
    ensures
        final(out)@ == old(out)@ + header_line(header@),
{
    let name = header.name.to_string();
    push_str(out, name.as_str());
    out.push(':');
    out.push(' ');
    push_str(out, header.value.as_str());
    out.push('\r');
    out.push('\n');
    assert(out@ =~= old(out)@ + header_line(header@));
}

/// Appends the header lines of `headers` to `out`, in serialisation order.
pub fn push_headers(out: &mut Vec<char>, headers: &Headers)
    ensures
        final(out)@ == old(out)@ + header_block(written_order(headers@)),
{
    let ordered = headers.iter();
    let ghost views = header_views(ordered@);
    let mut i: usize = 0;
    assert(views.take(0) =~= Seq::<HeaderView>::empty());
    while i < ordered.len()
        invariant
            i <= ordered@.len(),
            views == header_views(ordered@),
            out@ == old(out)@ + header_block(views.take(i as int)),
        decreases ordered@.len() - i,
    {
        push_header(out, &ordered[i]);
        proof {
            assert(views.take(i + 1).drop_last() =~= views.take(i as int));
            assert(views.take(i + 1).last() == ordered@[i as int]@);
            assert(out@ =~= old(out)@ + header_block(views.take(i + 1)));
        }
        i += 1;
    }
    assert(views.take(i as int) =~= views);
}

/// The UTF-8 bytes of the given text.
pub fn encode_text(text: &Vec<char>) -> (r: Vec<u8>)
    ensures
        r@ == encode_utf8(text@),
{
    let s = string_of(text);
    s.as_str().as_bytes_vec()
}

} // verus!
