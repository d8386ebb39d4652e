//! Network addresses as plain values.

use vstd::prelude::*;
use crate::http::parse::{hex_digit, hex_value, line_views};
use crate::text::{chars_of, decimal_text, decimal_value, format_decimal, is_decimal, parse_decimal};
use crate::text::{split, split_chars, string_of};

verus! {

/// An IP address: the 32 bits of an IPv4 address or the 128 bits of an IPv6
/// address, most significant byte first.
#[derive(Debug, Clone, Copy, PartialEq, Eq, Hash, Structural)]
pub enum IpAddress {
    V4(u32),
    V6(u128),
}

/// Where a request came from.
#[derive(Debug, Clone, Copy, PartialEq, Eq, Hash, Structural)]
pub struct Address {
    /// The client the request originates from: the peer itself, or the
    /// client that a proxy in front of the server names.
    pub origin_addr: IpAddress,
    /// The peer of the connection.
    pub peer_addr: IpAddress,
    /// The peer's port.
    pub port: u16,
}

/// The address of a socket: an IP address and a port.
#[derive(Debug, Clone, Copy, PartialEq, Eq, Hash, Structural)]
pub struct SocketAddress {
    pub ip: IpAddress,
    pub port: u16,
}

impl Address {
    /// The address of a directly connected peer.
    pub fn new(peer: IpAddress, port: u16) -> (r: Address)
        ensures
            r == (Address { origin_addr: peer, peer_addr: peer, port }),
    {
        Address { origin_addr: peer, peer_addr: peer, port }
    }

    /// The same connection, with the client that a forwarding proxy named.
    pub open spec fn with_origin_spec(self, origin: IpAddress) -> Address {
        Address { origin_addr: origin, peer_addr: self.peer_addr, port: self.port }
    }

    /// The same connection, with the client that a forwarding proxy named.
    pub fn with_origin(self, origin: IpAddress) -> (r: Address)
        ensures
            r == self.with_origin_spec(origin),
    {
        Address { origin_addr: origin, peer_addr: self.peer_addr, port: self.port }
    }
}

/// The byte of a 32-bit number at position `i`, counted from the most
/// significant byte.
pub open spec fn octet(bits: u32, i: int) -> nat {
    if i == 0 {
        (bits / 16777216) as nat
    } else if i == 1 {
        (bits / 65536 % 256) as nat
    } else if i == 2 {
        (bits / 256 % 256) as nat
    } else {
        (bits % 256) as nat
    }
}

/// The 16-bit group of a 128-bit number at position `i`, counted from the
/// most significant group.
pub open spec fn group(bits: u128, i: int) -> nat
    decreases 7 - i,
{
    if i >= 7 {
        (bits % 65536) as nat
    } else {
        group(bits / 65536, i + 1)
    }
}

/// The digit that stands for a number below sixteen, in lower case.
pub open spec fn hex_char(d: nat) -> char {
    if d < 10 {
        ((d + 48) as u8) as char
    } else {
        ((d + 87) as u8) as char
    }
}

/// The shortest hexadecimal text of a number, in lower case.
pub open spec fn hex_text(n: nat) -> Seq<char>
    decreases n,
{
    if n < 16 {
        seq![hex_char(n)]
    } else {
        hex_text(n / 16).push(hex_char(n % 16))
    }
}

/// The groups of an IPv6 address from position `i` on, each behind a colon.
pub open spec fn groups_text(bits: u128, i: int) -> Seq<char>
    decreases 8 - i,
{
    if i >= 8 {
        Seq::empty()
    } else {
        seq![':'] + hex_text(group(bits, i)) + groups_text(bits, i + 1)
    }
}

/// The text of an address. An IPv4 address is written as four decimal
/// numbers with dots between them. An IPv6 address is written in full, as
/// eight hexadecimal groups with colons between them, none of them left out.
pub open spec fn ip_text(ip: IpAddress) -> Seq<char> {
    match ip {
        IpAddress::V4(bits) => decimal_text(octet(bits, 0)) + seq!['.'] + decimal_text(
            octet(bits, 1),
        ) + seq!['.'] + decimal_text(octet(bits, 2)) + seq!['.'] + decimal_text(octet(bits, 3)),
        IpAddress::V6(bits) => hex_text(group(bits, 0)) + groups_text(bits, 1),
    }
}

/// Appends the characters of `v` to `out`.
fn extend(out: &mut Vec<char>, v: Vec<char>)
    ensures
        final(out)@ == old(out)@ + v@,
{
    let mut v = v;
    out.append(&mut v);
}

/// The shortest hexadecimal text of `n`, in lower case.
fn format_hex(n: u16) -> (r: Vec<char>)
    ensures
        r@ == hex_text(n as nat),
    decreases n,
{
    let d = (n % 16) as u8;
    let c = if d < 10 {
        (d + 48) as char
    } else {
        (d + 87) as char
    };
    if n < 16 {
        let mut v: Vec<char> = Vec::new();
        v.push(c);
        assert(v@ =~= hex_text(n as nat));
        v
    } else {
        let mut v = format_hex(n / 16);
        v.push(c);
        v
    }
}

impl IpAddress {
    /// The text of the address.
    pub fn to_string(&self) -> (r: String)
        ensures
            r@ == ip_text(*self),
    {
        let mut out: Vec<char> = Vec::new();
        match self {
            IpAddress::V4(bits) => {
                let bits = *bits;
                extend(&mut out, format_decimal((bits / 16777216) as u64));
                out.push('.');
                extend(&mut out, format_decimal((bits / 65536 % 256) as u64));
                out.push('.');
                extend(&mut out, format_decimal((bits / 256 % 256) as u64));
                out.push('.');
                extend(&mut out, format_decimal((bits % 256) as u64));
                assert(out@ =~= ip_text(*self));
            },
            IpAddress::V6(bits) => {
                let bits = *bits;
                let mut groups: Vec<u16> = Vec::new();
                let mut rest = bits;
                let mut k: usize = 0;
                while k < 8
                    invariant
                        k <= 8,
                        groups@.len() == k,
                        forall|j: int|
                            0 <= j < k ==> (#[trigger] groups@[j]) as nat == group(bits, 7 - j),
                        forall|i: int| 0 <= i <= 7 - k ==> #[trigger] group(bits, i) == group(rest, i + k),
                    decreases 8 - k,
                {
                    assert(group(rest, 7) == (rest % 65536) as nat);
                    assert(group(bits, 7 - k) == group(rest, 7));
                    groups.push((rest % 65536) as u16);
                    proof {
                        assert forall|i: int| 0 <= i <= 7 - (k + 1) implies #[trigger] group(bits, i)
                            == group(rest / 65536, i + k + 1) by {
                            assert(group(bits, i) == group(rest, i + k));
                        }
                    }
                    rest = rest / 65536;
                    k += 1;
                }
                extend(&mut out, format_hex(groups[7]));
                assert(groups_text(bits, 8) =~= Seq::<char>::empty());
                let mut tail: Vec<char> = Vec::new();
                let mut g: usize = 8;
                while g > 1
                    invariant
                        1 <= g <= 8,
                        groups@.len() == 8,
                        forall|j: int|
                            0 <= j < 8 ==> (#[trigger] groups@[j]) as nat == group(bits, 7 - j),
                        tail@ == groups_text(bits, g as int),
                    decreases g,
                {
                    g -= 1;
                    let mut piece: Vec<char> = Vec::new();
                    piece.push(':');
                    extend(&mut piece, format_hex(groups[7 - g]));
                    let ghost before = tail@;
                    extend(&mut piece, tail);
                    tail = piece;
                    assert(tail@ =~= seq![':'] + hex_text(group(bits, g as int)) + before);
                }
                extend(&mut out, tail);
            },
        }
        string_of(&out)
    }
}

/// The number that a part of a dotted address stands for: one to three
/// decimal digits, without a zero in front of other digits, and 255 at most.
pub open spec fn octet_of(t: Seq<char>) -> Option<nat> {
    if is_decimal(t) && t.len() <= 3 && (t.len() == 1 || t[0] != '0') && decimal_value(t) <= 255 {
        Some(decimal_value(t))
    } else {
        None
    }
}

/// The IPv4 address that a text names: four parts with dots between them.
pub open spec fn v4_of(t: Seq<char>) -> Option<u32> {
    let p = split(t, '.');
    if p.len() == 4 && octet_of(p[0]) is Some && octet_of(p[1]) is Some && octet_of(p[2]) is Some
        && octet_of(p[3]) is Some {
        Some(
            (((octet_of(p[0])->0 * 256 + octet_of(p[1])->0) * 256 + octet_of(p[2])->0) * 256
                + octet_of(p[3])->0) as u32,
        )
    } else {
        None
    }
}

/// The number that a group of an IPv6 address stands for: one to four
/// hexadecimal digits.
pub open spec fn group_of(t: Seq<char>) -> Option<nat>
    decreases t.len(),
{
    if t.len() == 0 || t.len() > 4 {
        None
    } else if t.len() == 1 {
        hex_value(t[0])
    } else {
        match (group_of(t.drop_last()), hex_value(t.last())) {
            (Some(n), Some(d)) => Some(n * 16 + d),
            _ => None,
        }
    }
}

/// The numbers of the given groups, if each of them is a group.
pub open spec fn groups_of(pieces: Seq<Seq<char>>) -> Option<Seq<nat>>
    decreases pieces.len(),
{
    if pieces.len() == 0 {
        Some(Seq::empty())
    } else {
        match (groups_of(pieces.drop_last()), group_of(pieces.last())) {
            (Some(gs), Some(g)) => Some(gs.push(g)),
            _ => None,
        }
    }
}

/// The numbers of the groups at the end of an IPv6 address, where the last
/// of them may be written as an IPv4 address, which stands for two groups.
pub open spec fn tail_groups_of(pieces: Seq<Seq<char>>) -> Option<Seq<nat>> {
    if pieces.len() > 0 && v4_of(pieces.last()) is Some {
        match groups_of(pieces.drop_last()) {
            Some(gs) => Some(
                gs.push((v4_of(pieces.last())->0 / 65536) as nat).push(
                    (v4_of(pieces.last())->0 % 65536) as nat,
                ),
            ),
            None => None,
        }
    } else {
        groups_of(pieces)
    }
}

/// The groups that a text holds between its colons; an empty text holds
/// none.
pub open spec fn pieces_of(t: Seq<char>) -> Seq<Seq<char>> {
    if t.len() == 0 {
        Seq::empty()
    } else {
        split(t, ':')
    }
}

/// The position of the first two colons in a row, or the length of the text
/// if there are none.
pub open spec fn double_colon(t: Seq<char>) -> int
    decreases t.len(),
{
    if t.len() < 2 {
        t.len() as int
    } else if t[0] == ':' && t[1] == ':' {
        0
    } else {
        1 + double_colon(t.drop_first())
    }
}

/// So many groups of zero.
pub open spec fn zero_groups(n: nat) -> Seq<nat> {
    Seq::new(n, |k: int| 0nat)
}

/// The eight groups of the IPv6 address that a text names. Two colons in a
/// row stand, once, for as many groups of zero as are missing, one at least.
pub open spec fn v6_groups_of(t: Seq<char>) -> Option<Seq<nat>> {
    let i = double_colon(t);
    if i < 0 || i >= t.len() {
        match tail_groups_of(pieces_of(t)) {
            Some(gs) => if gs.len() == 8 {
                Some(gs)
            } else {
                None
            },
            None => None,
        }
    } else {
        match (groups_of(pieces_of(t.take(i))), tail_groups_of(pieces_of(t.skip(i + 2)))) {
            (Some(left), Some(right)) => if left.len() + right.len() <= 7 {
                Some(left + zero_groups((8 - left.len() - right.len()) as nat) + right)
            } else {
                None
            },
            _ => None,
        }
    }
}

/// The number that the first `k` groups make up.
pub open spec fn joined_groups(gs: Seq<nat>, k: int) -> nat
    decreases k,
{
    if k <= 0 {
        0
    } else {
        joined_groups(gs, k - 1) * 65536 + gs[k - 1]
    }
}

/// The address that a text names: an IPv4 address in dotted form, or an IPv6
/// address in groups.
pub open spec fn ip_of(t: Seq<char>) -> Option<IpAddress> {
    if v4_of(t) is Some {
        Some(IpAddress::V4(v4_of(t)->0))
    } else if v6_groups_of(t) is Some {
        Some(IpAddress::V6(joined_groups(v6_groups_of(t)->0, 8) as u128))
    } else {
        None
    }
}

/// The number that a part of a dotted address stands for.
fn read_octet(t: &Vec<char>) -> (r: Option<u32>)
    ensures
        match octet_of(t@) {
            Some(n) => r == Some(n as u32) && n <= 255,
            None => r is None,
        },
{
    if t.len() == 0 || t.len() > 3 || (t.len() > 1 && t[0] == '0') {
        return None;
    }
    match parse_decimal(t) {
        Some(n) => if n <= 255 {
            Some(n as u32)
        } else {
            None
        },
        None => None,
    }
}

/// The IPv4 address that the characters name.
fn read_v4(t: &Vec<char>) -> (r: Option<u32>)
    ensures
        r == v4_of(t@),
{
    let p = split_chars(t, '.');
    if p.len() != 4 {
        return None;
    }
    match (read_octet(&p[0]), read_octet(&p[1]), read_octet(&p[2]), read_octet(&p[3])) {
        (Some(a), Some(b), Some(c), Some(d)) => Some(((a * 256 + b) * 256 + c) * 256 + d),
        _ => None,
    }
}

/// The number that a group stands for.
fn read_group(t: &Vec<char>) -> (r: Option<u16>)
    ensures
        match group_of(t@) {
            Some(n) => r == Some(n as u16) && n <= 65535,
            None => r is None,
        },
{
    let n = t.len();
    if n == 0 || n > 4 {
        return None;
    }
    let mut value: u16 = match hex_digit(t[0]) {
        Some(d) => d as u16,
        None => {
            proof {
                lemma_group_prefix(t@, 1);
            }
            return None;
        },
    };
    let mut i: usize = 1;
    assert(t@.take(1).len() == 1 && t@.take(1)[0] == t@[0]);
    while i < n
        invariant
            1 <= i <= n <= 4,
            n == t@.len(),
            group_of(t@.take(i as int)) == Some(value as nat),
            value < pow16(i as int),
        decreases n - i,
    {
        proof {
            assert(t@.take(i + 1).drop_last() =~= t@.take(i as int));
            assert(t@.take(i + 1).last() == t@[i as int]);
            lemma_pow16(i as int);
        }
        match hex_digit(t[i]) {
            Some(d) => {
                value = value * 16 + d as u16;
            },
            None => {
                proof {
                    lemma_group_prefix(t@, i + 1);
                }
                return None;
            },
        }
        i += 1;
    }
    proof {
        assert(t@.take(i as int) =~= t@);
        lemma_pow16(n as int);
    }
    Some(value)
}

/// Sixteen to the power of `k`, for `k` up to four.
pub open spec fn pow16(k: int) -> int {
    if k <= 0 {
        1
    } else if k == 1 {
        16
    } else if k == 2 {
        256
    } else if k == 3 {
        4096
    } else {
        65536
    }
}

/// The powers of sixteen grow by the factor sixteen.
proof fn lemma_pow16(k: int)
    requires
        0 <= k <= 4,
    ensures
        k < 4 ==> pow16(k + 1) == 16 * pow16(k),
        pow16(k) <= 65536,
{
}

/// Where the first `k` characters are no group, and are not too few to be
/// one, the text is no group.
proof fn lemma_group_prefix(t: Seq<char>, k: int)
    requires
        1 <= k <= t.len() <= 4,
        group_of(t.take(k)) is None,
    ensures
        group_of(t) is None,
    decreases t.len() - k,
{
    if k < t.len() {
        assert(t.take(k + 1).drop_last() =~= t.take(k));
        lemma_group_prefix(t, k + 1);
    } else {
        assert(t.take(k) =~= t);
    }
}

/// Where the first `k` pieces are not all groups, the pieces are not.
proof fn lemma_groups_prefix(pieces: Seq<Seq<char>>, k: int)
    requires
        0 <= k <= pieces.len(),
        groups_of(pieces.take(k)) is None,
    ensures
        groups_of(pieces) is None,
    decreases pieces.len() - k,
{
    if k < pieces.len() {
        assert(pieces.take(k + 1).drop_last() =~= pieces.take(k));
        lemma_groups_prefix(pieces, k + 1);
    } else {
        assert(pieces.take(k) =~= pieces);
    }
}

/// The views of a sequence of groups.
pub open spec fn group_values(v: Seq<u16>) -> Seq<nat> {
    Seq::new(v.len(), |i: int| v[i] as nat)
}

/// The numbers of the first `n` of the given pieces.
fn read_groups(pieces: &Vec<Vec<char>>, n: usize) -> (r: Option<Vec<u16>>)
    requires
        n <= pieces@.len(),
    ensures
        match groups_of(line_views(pieces@).take(n as int)) {
            Some(gs) => r matches Some(v) && group_values(v@) == gs,
            None => r is None,
        },
{
    let ghost all = line_views(pieces@).take(n as int);
    let mut out: Vec<u16> = Vec::new();
    let mut i: usize = 0;
    assert(all.take(0) =~= Seq::<Seq<char>>::empty());
    assert(group_values(out@) =~= Seq::<nat>::empty());
    while i < n
        invariant
            i <= n <= pieces@.len(),
            all == line_views(pieces@).take(n as int),
            groups_of(all.take(i as int)) == Some(group_values(out@)),
        decreases n - i,
    {
        let ghost before = group_values(out@);
        proof {
            assert(all.take(i + 1).drop_last() =~= all.take(i as int));
            assert(all.take(i + 1).last() == pieces@[i as int]@);
        }
        match read_group(&pieces[i]) {
            Some(g) => {
                out.push(g);
                assert(group_values(out@) =~= before.push(g as nat));
            },
            None => {
                proof {
                    lemma_groups_prefix(all, i + 1);
                }
                return None;
            },
        }
        i += 1;
    }
    assert(all.take(i as int) =~= all);
    Some(out)
}

/// The pieces of `t[from..to]` between its colons.
fn colon_pieces(t: &Vec<char>, from: usize, to: usize) -> (r: Vec<Vec<char>>)
    requires
        from <= to <= t@.len(),
    ensures
        line_views(r@) == pieces_of(t@.subrange(from as int, to as int)),
{
    if from == to {
        let r: Vec<Vec<char>> = Vec::new();
        assert(line_views(r@) =~= pieces_of(t@.subrange(from as int, to as int)));
        return r;
    }
    let part = crate::text::slice_chars(t, from, to);
    let r = split_chars(&part, ':');
    assert(line_views(r@) =~= split(part@, ':'));
    r
}

/// The numbers of the groups at the end of an address.
fn read_tail_groups(pieces: &Vec<Vec<char>>) -> (r: Option<Vec<u16>>)
    ensures
        match tail_groups_of(line_views(pieces@)) {
            Some(gs) => r matches Some(v) && group_values(v@) == gs,
            None => r is None,
        },
{
    let n = pieces.len();
    let ghost all = line_views(pieces@);
    assert(all.take(n as int) =~= all);
    if n > 0 {
        assert(all.last() == pieces@[n - 1]@);
        assert(all.take(n - 1) =~= all.drop_last());
        match read_v4(&pieces[n - 1]) {
            Some(bits) => {
                return match read_groups(pieces, n - 1) {
                    Some(groups) => {
                        let mut groups = groups;
                        let ghost before = group_values(groups@);
                        groups.push((bits / 65536) as u16);
                        groups.push((bits % 65536) as u16);
                        assert(group_values(groups@) =~= before.push((bits / 65536) as nat).push(
                            (bits % 65536) as nat,
                        ));
                        Some(groups)
                    },
                    None => None,
                };
            },
            None => {},
        }
    }
    read_groups(pieces, n)
}

/// The position of the first two colons in a row.
fn find_double_colon(t: &Vec<char>) -> (r: usize)
    ensures
        r == double_colon(t@),
        r <= t@.len(),
        r < t@.len() ==> r + 2 <= t@.len(),
{
    let n = t.len();
    let mut i: usize = 0;
    assert(t@.skip(0) =~= t@);
    while n - i >= 2
        invariant
            i <= n,
            n == t@.len(),
            double_colon(t@) == i + double_colon(t@.skip(i as int)),
        decreases n - i,
    {
        let ghost rest = t@.skip(i as int);
        assert(rest[0] == t@[i as int] && rest[1] == t@[i + 1]);
        if t[i] == ':' && t[i + 1] == ':' {
            return i;
        }
        assert(rest.drop_first() =~= t@.skip(i + 1));
        i += 1;
    }
    assert(t@.skip(i as int).len() < 2);
    n
}

/// The number that the groups make up.
fn join_groups(groups: &Vec<u16>) -> (r: u128)
    requires
        groups@.len() == 8,
    ensures
        r == joined_groups(group_values(groups@), 8),
{
    let ghost gs = group_values(groups@);
    let mut value: u128 = 0;
    let mut i: usize = 0;
    while i < 8
        invariant
            i <= 8,
            groups@.len() == 8,
            gs == group_values(groups@),
            value == joined_groups(gs, i as int),
            value < pow65536(i as int),
        decreases 8 - i,
    {
        proof {
            lemma_pow65536(i as int);
            assert(gs[i as int] == groups@[i as int] as nat);
        }
        value = value * 65536 + groups[i] as u128;
        i += 1;
    }
    value
}

/// 65536 to the power of `k`.
pub open spec fn pow65536(k: int) -> int
    decreases k,
{
    if k <= 0 {
        1
    } else {
        65536 * pow65536(k - 1)
    }
}

/// Eight groups fit into 128 bits.
proof fn lemma_pow65536(k: int)
    requires
        0 <= k <= 8,
    ensures
        pow65536(k) <= 0x1_0000_0000_0000_0000_0000_0000_0000_0000,
        k < 8 ==> pow65536(k + 1) == 65536 * pow65536(k) && pow65536(k) * 65536
            <= 0x1_0000_0000_0000_0000_0000_0000_0000_0000,
{
    reveal_with_fuel(pow65536, 10);
}

/// The eight groups of the IPv6 address that the characters name.
fn read_v6(t: &Vec<char>) -> (r: Option<Vec<u16>>)
    ensures
        match v6_groups_of(t@) {
            Some(gs) => r matches Some(v) && group_values(v@) == gs && v@.len() == 8,
            None => r is None,
        },
{
    let n = t.len();
    let i = find_double_colon(t);
    if i >= n {
        let pieces = colon_pieces(t, 0, n);
        assert(t@.subrange(0, n as int) =~= t@);
        return match read_tail_groups(&pieces) {
            Some(groups) => if groups.len() == 8 {
                Some(groups)
            } else {
                None
            },
            None => None,
        };
    }
    let left_pieces = colon_pieces(t, 0, i);
    let right_pieces = colon_pieces(t, i + 2, n);
    assert(t@.subrange(0, i as int) =~= t@.take(i as int));
    assert(t@.subrange(i + 2, n as int) =~= t@.skip(i + 2));
    assert(line_views(left_pieces@).take(left_pieces@.len() as int) =~= line_views(left_pieces@));
    match (read_groups(&left_pieces, left_pieces.len()), read_tail_groups(&right_pieces)) {
        (Some(left), Some(right)) => {
            if left.len() > 7 || right.len() > 7 - left.len() {
                return None;
            }
            let ghost lv = group_values(left@);
            let ghost rv = group_values(right@);
            let missing = 8 - left.len() - right.len();
            let mut out = left;
            let mut k: usize = 0;
            assert(group_values(out@) =~= lv + zero_groups(0));
            while k < missing
                invariant
                    k <= missing,
                    lv.len() + missing + rv.len() == 8,
                    group_values(out@) == lv + zero_groups(k as nat),
                decreases missing - k,
            {
                let ghost before = group_values(out@);
                out.push(0);
                assert(group_values(out@) =~= before.push(0nat));
                k += 1;
                assert(before.push(0nat) =~= lv + zero_groups(k as nat));
            }
            let mut j: usize = 0;
            assert(group_values(out@) =~= lv + zero_groups(missing as nat) + rv.take(0));
            while j < right.len()
                invariant
                    j <= right@.len(),
                    rv == group_values(right@),
                    lv.len() + missing + rv.len() == 8,
                    group_values(out@) == lv + zero_groups(missing as nat) + rv.take(j as int),
                decreases right@.len() - j,
            {
                let ghost before = group_values(out@);
                out.push(right[j]);
                assert(group_values(out@) =~= before.push(rv[j as int]));
                j += 1;
                assert(before.push(rv[j - 1]) =~= lv + zero_groups(missing as nat) + rv.take(
                    j as int,
                ));
            }
            assert(rv.take(j as int) =~= rv);
            Some(out)
        },
        _ => None,
    }
}

impl IpAddress {
    /// The address that a text names: an IPv4 address as four decimal numbers
    /// with dots between them, or an IPv6 address as groups of hexadecimal
    /// digits with colons between them, with `::` for a run of groups of zero
    /// and, if it is wanted, its last 32 bits as an IPv4 address.
    pub fn parse(text: &str) -> (r: Option<IpAddress>)
        ensures
            r == ip_of(text@),
    {
        let t = chars_of(text);
        match read_v4(&t) {
            Some(bits) => Some(IpAddress::V4(bits)),
            None => match read_v6(&t) {
                Some(groups) => Some(IpAddress::V6(join_groups(&groups))),
                None => None,
            },
        }
    }
}

} // verus!
