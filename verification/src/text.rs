//! Character-sequence helpers shared by the codec, the router and the header
//! tables. Text is handled as `Vec<char>` in executable code and as
//! `Seq<char>` in contracts, so that an index means the same in both.

use vstd::prelude::*;
use vstd::utf8::{decode_utf8, valid_utf8};

verus! {

/// The characters of a string slice, in order.
pub fn chars_of(s: &str) -> (r: Vec<char>)
    ensures
        r@ == s@,
{
    let mut out: Vec<char> = Vec::new();
    for c in it: s.chars()
        invariant
            it.seq() == s@,
            out@ == it.seq().take(it.index() as int),
    {
        out.push(c);
    }
    out
}

/// Appends a character to a string.
///
/// Trusted: `String::push`, which appends the character to the end of the
/// string.
#[verifier::external_body]
fn push_char(s: &mut String, c: char)
    ensures
        final(s)@ == old(s)@.push(c),
{
    s.push(c)
}

/// The string made of the given characters, in order.
pub fn string_of(v: &Vec<char>) -> (r: String)
    ensures
        r@ == v@,
{
    let mut out = String::new();
    let mut i: usize = 0;
    while i < v.len()
        invariant
            i <= v@.len(),
            out@ == v@.take(i as int),
        decreases v@.len() - i,
    {
        push_char(&mut out, v[i]);
        i += 1;
        assert(out@ =~= v@.take(i as int));
    }
    assert(v@.take(i as int) =~= v@);
    out
}

/// Whether two string slices hold the same characters.
///
/// Trusted: `str::eq`, which compares the two slices character by character.
#[verifier::external_body]
pub(crate) fn str_eq(a: &str, b: &str) -> (r: bool)
    ensures
        r == (a@ == b@),
{
    a == b
}

/// The text that a byte sequence encodes in UTF-8, if it encodes any.
///
/// Trusted: `core::str::from_utf8`, which succeeds exactly on valid UTF-8
/// and then yields the text that the bytes encode.
#[verifier::external_body]
pub(crate) fn text_of_utf8(bytes: &[u8]) -> (r: Option<&str>)
    ensures
        r is Some <==> valid_utf8(bytes@),
        r matches Some(s) ==> s@ == decode_utf8(bytes@),
{
    std::str::from_utf8(bytes).ok()
}

/// The lower-case form of one character; only `A`-`Z` change.
pub open spec fn lower_char(c: char) -> char {
    if 'A' <= c && c <= 'Z' {
        ((c as u8) + 32) as u8 as char
    } else {
        c
    }
}

/// The ASCII lower-case form of a character sequence.
pub open spec fn ascii_lower(s: Seq<char>) -> Seq<char> {
    Seq::new(s.len(), |i: int| lower_char(s[i]))
}

/// Lower-cases one character when it is an ASCII capital.
pub fn to_lower_char(c: char) -> (r: char)
    ensures
        r == lower_char(c),
{
    if 'A' <= c && c <= 'Z' {
        ((c as u8) + 32) as char
    } else {
        c
    }
}

/// The ASCII lower-case form of `s` as a new string.
pub fn to_ascii_lowercase(s: &str) -> (r: String)
    ensures
        r@ == ascii_lower(s@),
{
    let chars = chars_of(s);
    let mut out: Vec<char> = Vec::new();
    let mut i: usize = 0;
    while i < chars.len()
        invariant
            i <= chars.len(),
            out@ == ascii_lower(chars@.take(i as int)),
        decreases chars.len() - i,
    {
        out.push(to_lower_char(chars[i]));
        i += 1;
        assert(out@ =~= ascii_lower(chars@.take(i as int)));
    }
    assert(chars@.take(i as int) =~= chars@);
    string_of(&out)
}

/// Strict lexicographic order on character sequences, by code point; a proper
/// prefix comes before any sequence it is a prefix of.
pub open spec fn lex_lt(a: Seq<char>, b: Seq<char>) -> bool
    decreases a.len(),
{
    if b.len() == 0 {
        false
    } else if a.len() == 0 {
        true
    } else if a[0] != b[0] {
        a[0] < b[0]
    } else {
        lex_lt(a.drop_first(), b.drop_first())
    }
}

/// No sequence comes before itself, and no two sequences come before each other.
pub proof fn lemma_lex_lt_asymmetric(a: Seq<char>, b: Seq<char>)
    ensures
        lex_lt(a, b) ==> !lex_lt(b, a),
    decreases a.len(),
{
    if a.len() > 0 && b.len() > 0 && a[0] == b[0] {
        lemma_lex_lt_asymmetric(a.drop_first(), b.drop_first());
    }
}

/// Whether `a` comes strictly before `b` in lexicographic order.
pub fn chars_lt(a: &Vec<char>, b: &Vec<char>) -> (r: bool)
    ensures
        r == lex_lt(a@, b@),
{
    let mut i: usize = 0;
    assert(a@.skip(0) =~= a@ && b@.skip(0) =~= b@);
    while i < a.len() && i < b.len()
        invariant
            i <= a.len(),
            i <= b.len(),
            lex_lt(a@, b@) == lex_lt(a@.skip(i as int), b@.skip(i as int)),
        decreases a.len() - i,
    {
        let x = a[i];
        let y = b[i];
        proof {
            let sa = a@.skip(i as int);
            let sb = b@.skip(i as int);
            assert(sa[0] == x && sb[0] == y);
            assert(sa.drop_first() =~= a@.skip(i + 1));
            assert(sb.drop_first() =~= b@.skip(i + 1));
        }
        if x != y {
            return x < y;
        }
        i += 1;
    }
    proof {
        let sa = a@.skip(i as int);
        let sb = b@.skip(i as int);
        assert(sa.len() == a.len() - i);
        assert(sb.len() == b.len() - i);
    }
    i < b.len()
}

/// The index of the first `c` in `t`, or the length of `t` if there is none.
pub open spec fn index_of(t: Seq<char>, c: char) -> int
    decreases t.len(),
{
    if t.len() == 0 {
        0
    } else if t[0] == c {
        0
    } else {
        1 + index_of(t.drop_first(), c)
    }
}

/// The index lies within bounds, points at `c` when it is below the length,
/// and no earlier position holds `c`.
pub proof fn lemma_index_of(t: Seq<char>, c: char)
    ensures
        0 <= index_of(t, c) <= t.len(),
        index_of(t, c) < t.len() ==> t[index_of(t, c)] == c,
        forall|j: int| 0 <= j < index_of(t, c) ==> #[trigger] t[j] != c,
    decreases t.len(),
{
    if t.len() > 0 && t[0] != c {
        let rest = t.drop_first();
        lemma_index_of(rest, c);
        assert forall|j: int| 0 <= j < index_of(t, c) implies #[trigger] t[j] != c by {
            if j > 0 {
                assert(t[j] == rest[j - 1]);
            }
        }
    }
}

/// A position that holds `c` with none before it is the first index of `c`.
pub proof fn lemma_index_of_is(t: Seq<char>, c: char, i: int)
    requires
        0 <= i <= t.len(),
        i < t.len() ==> t[i] == c,
        forall|j: int| 0 <= j < i ==> #[trigger] t[j] != c,
    ensures
        index_of(t, c) == i,
    decreases t.len(),
{
    if t.len() > 0 && i > 0 {
        let rest = t.drop_first();
        assert(t[0] != c);
        assert forall|j: int| 0 <= j < i - 1 implies #[trigger] rest[j] != c by {
            assert(rest[j] == t[j + 1]);
        }
        lemma_index_of_is(rest, c, i - 1);
    }
}

/// The position of the first `c` in `v` at or after `from`, or the length of
/// `v` if there is none.
pub fn find_char(v: &Vec<char>, from: usize, c: char) -> (r: usize)
    requires
        from <= v@.len(),
    ensures
        from <= r <= v@.len(),
        r == from + index_of(v@.skip(from as int), c),
{
    let mut i: usize = from;
    while i < v.len() && v[i] != c
        invariant
            from <= i <= v@.len(),
            forall|j: int| from <= j < i ==> v@[j] != c,
        decreases v@.len() - i,
    {
        i += 1;
    }
    proof {
        let t = v@.skip(from as int);
        assert forall|j: int| 0 <= j < i - from implies #[trigger] t[j] != c by {
            assert(t[j] == v@[from + j]);
        }
        lemma_index_of_is(t, c, i - from);
    }
    i
}

/// The characters of `v` from `from` up to, not including, `to`.
pub fn slice_chars(v: &Vec<char>, from: usize, to: usize) -> (r: Vec<char>)
    requires
        from <= to <= v@.len(),
    ensures
        r@ == v@.subrange(from as int, to as int),
{
    let mut out: Vec<char> = Vec::new();
    let mut i: usize = from;
    while i < to
        invariant
            from <= i <= to <= v@.len(),
            out@ == v@.subrange(from as int, i as int),
        decreases to - i,
    {
        out.push(v[i]);
        i += 1;
        assert(out@ =~= v@.subrange(from as int, i as int));
    }
    out
}

/// The pieces of `t` between occurrences of `sep`; there is always at least
/// one piece, and a piece may be empty.
pub open spec fn split(t: Seq<char>, sep: char) -> Seq<Seq<char>>
    decreases t.len(),
{
    let i = index_of(t, sep);
    if 0 <= i < t.len() {
        seq![t.take(i)] + split(t.skip(i + 1), sep)
    } else {
        seq![t]
    }
}

/// No piece holds the separator.
pub proof fn lemma_split_pieces(t: Seq<char>, sep: char)
    ensures
        split(t, sep).len() >= 1,
        forall|k: int| 0 <= k < split(t, sep).len() ==> !(#[trigger] split(t, sep)[k]).contains(sep),
    decreases t.len(),
{
    let i = index_of(t, sep);
    lemma_index_of(t, sep);
    if 0 <= i < t.len() {
        let rest = split(t.skip(i + 1), sep);
        lemma_split_pieces(t.skip(i + 1), sep);
        assert forall|k: int| 0 <= k < split(t, sep).len() implies !(#[trigger] split(t, sep)[k]).contains(
            sep,
        ) by {
            if k == 0 {
                assert(split(t, sep)[0] == t.take(i));
                if t.take(i).contains(sep) {
                    let j = choose|j: int| 0 <= j < t.take(i).len() && t.take(i)[j] == sep;
                    assert(t[j] == sep);
                }
            } else {
                assert(split(t, sep)[k] == rest[k - 1]);
            }
        }
    } else {
        if t.contains(sep) {
            let j = choose|j: int| 0 <= j < t.len() && t[j] == sep;
            assert(t[j] == sep);
        }
    }
}

/// The pieces of `v` between occurrences of `sep`.
pub fn split_chars(v: &Vec<char>, sep: char) -> (r: Vec<Vec<char>>)
    ensures
        r@.len() == split(v@, sep).len(),
        forall|k: int| 0 <= k < r@.len() ==> (#[trigger] r@[k])@ == split(v@, sep)[k],
{
    let mut out: Vec<Vec<char>> = Vec::new();
    let mut start: usize = 0;
    let ghost mut done: Seq<Seq<char>> = Seq::empty();
    assert(v@.skip(0) =~= v@);
    loop
        invariant
            start <= v@.len(),
            out@.len() == done.len(),
            forall|k: int| 0 <= k < out@.len() ==> (#[trigger] out@[k])@ == done[k],
            split(v@, sep) == done + split(v@.skip(start as int), sep),
        decreases v@.len() - start,
    {
        let end = find_char(v, start, sep);
        let piece = slice_chars(v, start, end);
        proof {
            let rest = v@.skip(start as int);
            lemma_index_of(rest, sep);
            assert(rest.take(end - start) =~= v@.subrange(start as int, end as int));
            if end < v@.len() {
                assert(rest.skip(end - start + 1) =~= v@.skip(end + 1));
                assert(done + (seq![piece@] + split(v@.skip(end + 1), sep)) =~= done.push(piece@)
                    + split(v@.skip(end + 1), sep));
            } else {
                assert(rest.take(end - start) =~= rest);
                assert(done + seq![rest] =~= done.push(piece@));
            }
            done = done.push(piece@);
        }
        out.push(piece);
        if end >= v.len() {
            return out;
        }
        start = end + 1;
    }
}

/// Spaces and horizontal tabs.
pub open spec fn is_blank(c: char) -> bool {
    c == ' ' || c == '\t'
}

/// `t` without the blanks at its start.
pub open spec fn trim_start(t: Seq<char>) -> Seq<char>
    decreases t.len(),
{
    if t.len() > 0 && is_blank(t[0]) {
        trim_start(t.drop_first())
    } else {
        t
    }
}

/// `t` without the blanks at its end.
pub open spec fn trim_end(t: Seq<char>) -> Seq<char>
    decreases t.len(),
{
    if t.len() > 0 && is_blank(t.last()) {
        trim_end(t.drop_last())
    } else {
        t
    }
}

/// `t` without the blanks at its start and at its end.
pub open spec fn trim(t: Seq<char>) -> Seq<char> {
    trim_end(trim_start(t))
}

/// `v` without the spaces and tabs at its start and at its end.
pub fn trim_chars(v: &Vec<char>) -> (r: Vec<char>)
    ensures
        r@ == trim(v@),
{
    let mut from: usize = 0;
    assert(v@.skip(0) =~= v@);
    while from < v.len() && (v[from] == ' ' || v[from] == '\t')
        invariant
            from <= v@.len(),
            trim_start(v@) == trim_start(v@.skip(from as int)),
        decreases v@.len() - from,
    {
        assert(v@.skip(from as int).drop_first() =~= v@.skip(from + 1));
        from += 1;
    }
    let mut to: usize = v.len();
    assert(v@.subrange(from as int, to as int) =~= v@.skip(from as int));
    while to > from && (v[to - 1] == ' ' || v[to - 1] == '\t')
        invariant
            from <= to <= v@.len(),
            trim_start(v@) == v@.skip(from as int),
            trim(v@) == trim_end(v@.subrange(from as int, to as int)),
        decreases to,
    {
        assert(v@.subrange(from as int, to as int).drop_last() =~= v@.subrange(
            from as int,
            to - 1,
        ));
        to -= 1;
    }
    slice_chars(v, from, to)
}

/// The decimal digits `0` to `9`.
pub open spec fn is_digit(c: char) -> bool {
    '0' <= c && c <= '9'
}

/// The number that a decimal digit stands for.
pub open spec fn digit_value(c: char) -> nat {
    (c as u8 - 48) as nat
}

/// The digit that stands for a number below ten.
pub open spec fn digit_char(d: nat) -> char {
    ((d + 48) as u8) as char
}

/// Whether `t` is a non-empty run of decimal digits.
pub open spec fn is_decimal(t: Seq<char>) -> bool {
    t.len() > 0 && forall|i: int| 0 <= i < t.len() ==> is_digit(#[trigger] t[i])
}

/// The number that a run of decimal digits stands for.
pub open spec fn decimal_value(t: Seq<char>) -> nat
    decreases t.len(),
{
    if t.len() == 0 {
        0
    } else {
        decimal_value(t.drop_last()) * 10 + digit_value(t.last())
    }
}

/// The shortest decimal text of a number.
pub open spec fn decimal_text(n: nat) -> Seq<char>
    decreases n,
{
    if n < 10 {
        seq![digit_char(n)]
    } else {
        decimal_text(n / 10).push(digit_char(n % 10))
    }
}

/// Reading back the decimal text of a number gives the number.
pub proof fn lemma_decimal_round_trip(n: nat)
    ensures
        is_decimal(decimal_text(n)),
        decimal_value(decimal_text(n)) == n,
    decreases n,
{
    if n < 10 {
        let t = decimal_text(n);
        assert(t.drop_last() =~= Seq::<char>::empty());
        assert(decimal_value(t.drop_last()) == 0);
        assert(t.last() == digit_char(n));
    } else {
        lemma_decimal_round_trip(n / 10);
        let t = decimal_text(n);
        assert(t.drop_last() =~= decimal_text(n / 10));
        assert(t.last() == digit_char(n % 10));
        assert forall|i: int| 0 <= i < t.len() implies is_digit(#[trigger] t[i]) by {
            if i < t.len() - 1 {
                assert(t[i] == decimal_text(n / 10)[i]);
            }
        }
    }
}

/// The number that `v` stands for in decimal, if `v` is a run of digits whose
/// value fits.
pub fn parse_decimal(v: &Vec<char>) -> (r: Option<u64>)
    ensures
        r is Some <==> is_decimal(v@) && decimal_value(v@) <= u64::MAX,
        r matches Some(n) ==> n == decimal_value(v@),
{
    if v.len() == 0 {
        return None;
    }
    let mut n: u64 = 0;
    let mut i: usize = 0;
    assert(v@.take(0) =~= Seq::<char>::empty());
    while i < v.len()
        invariant
            i <= v@.len(),
            v@.len() > 0,
            n == decimal_value(v@.take(i as int)),
            forall|j: int| 0 <= j < i ==> is_digit(#[trigger] v@[j]),
        decreases v@.len() - i,
    {
        let c = v[i];
        if !('0' <= c && c <= '9') {
            return None;
        }
        let d: u64 = (c as u8 - 48) as u64;
        proof {
            assert(v@.take(i + 1).drop_last() =~= v@.take(i as int));
            assert(v@.take(i + 1).last() == c);
            lemma_decimal_prefix(v@, i + 1);
        }
        if n > (u64::MAX - d) / 10 {
            return None;
        }
        n = n * 10 + d;
        i += 1;
    }
    assert(v@.take(i as int) =~= v@);
    Some(n)
}

/// The value of a run of digits is at least the value of any prefix of it.
pub proof fn lemma_decimal_prefix(t: Seq<char>, k: int)
    requires
        0 <= k <= t.len(),
    ensures
        decimal_value(t.take(k)) <= decimal_value(t),
    decreases t.len() - k,
{
    if k < t.len() {
        lemma_decimal_prefix(t, k + 1);
        assert(t.take(k + 1).drop_last() =~= t.take(k));
    } else {
        assert(t.take(k) =~= t);
    }
}

/// The shortest decimal text of `n`.
pub fn format_decimal(n: u64) -> (r: Vec<char>)
    ensures
        r@ == decimal_text(n as nat),
    decreases n,
{
    if n < 10 {
        let mut v: Vec<char> = Vec::new();
        v.push((n as u8 + 48) as char);
        assert(v@ =~= decimal_text(n as nat));
        v
    } else {
        let mut v = format_decimal(n / 10);
        v.push(((n % 10) as u8 + 48) as char);
        v
    }
}

/// Whether `t` holds no `c`.
pub open spec fn free_of(t: Seq<char>, c: char) -> bool {
    forall|i: int| 0 <= i < t.len() ==> #[trigger] t[i] != c
}

/// In a text without `c` the first index of `c` is the length.
pub proof fn lemma_index_of_absent(t: Seq<char>, c: char)
    requires
        free_of(t, c),
    ensures
        index_of(t, c) == t.len(),
{
    lemma_index_of_is(t, c, t.len() as int);
}

/// Behind a text without `c`, a `c` is the first.
pub proof fn lemma_index_of_concat(a: Seq<char>, c: char, rest: Seq<char>)
    requires
        free_of(a, c),
    ensures
        index_of(a + seq![c] + rest, c) == a.len(),
{
    let t = a + seq![c] + rest;
    assert(t[a.len() as int] == c);
    assert forall|j: int| 0 <= j < a.len() implies #[trigger] t[j] != c by {
        assert(t[j] == a[j]);
    }
    lemma_index_of_is(t, c, a.len() as int);
}

/// A text without the separator is one piece.
pub proof fn lemma_split_single(a: Seq<char>, sep: char)
    requires
        free_of(a, sep),
    ensures
        split(a, sep) == seq![a],
{
    lemma_index_of_absent(a, sep);
}

/// A text without the separator, then the separator, then more text: the
/// first piece is that text, and the other pieces are those of the rest.
pub proof fn lemma_split_concat(a: Seq<char>, sep: char, rest: Seq<char>)
    requires
        free_of(a, sep),
    ensures
        split(a + seq![sep] + rest, sep) == seq![a] + split(rest, sep),
{
    let t = a + seq![sep] + rest;
    lemma_index_of_concat(a, sep, rest);
    assert(t.take(a.len() as int) =~= a);
    assert(t.skip(a.len() as int + 1) =~= rest);
}

/// A text that neither begins nor ends with a blank stays as it is when it is
/// trimmed, also with blanks in front of it.
pub proof fn lemma_trim_clean(v: Seq<char>)
    requires
        v.len() == 0 || (!is_blank(v[0]) && !is_blank(v.last())),
    ensures
        trim(v) == v,
        trim(seq![' '] + v) == v,
{
    let w = seq![' '] + v;
    assert(w.drop_first() =~= v);
    assert(trim_start(w) == trim_start(v));
}

} // verus!
