//! Internet addresses and their text, written as std writes `IpAddr`:
//! dotted decimal for IPv4, and for IPv6 lower-case hexadecimal groups with
//! the longest run of zero groups (the first, on a tie; only a run of two or
//! more) shortened to `::`, or `::ffff:` and dotted decimal for an
//! IPv4-mapped address.

use vstd::prelude::*;
use crate::text::{
    decimal_text, hex_text, is_decimal_numeral_of, lemma_decimal_text_is_numeral, push_char,
    push_numeral,
};

verus! {

/// An IPv4 or IPv6 address.
#[derive(Clone, Copy, Debug)]
pub enum IpAddress {
    V4([u8; 4]),
    V6([u16; 8]),
}

/// The dotted-decimal text of four octets.
pub open spec fn ipv4_text(o: Seq<u8>) -> Seq<char> {
    decimal_text(o[0] as nat) + seq!['.'] + decimal_text(o[1] as nat) + seq!['.']
        + decimal_text(o[2] as nat) + seq!['.'] + decimal_text(o[3] as nat)
}

/// The hexadecimal numerals of the groups, joined by colons.
pub open spec fn hex_groups(s: Seq<u16>) -> Seq<char>
    decreases s.len(),
{
    if s.len() == 0 {
        seq![]
    } else if s.len() == 1 {
        hex_text(s[0] as nat)
    } else {
        hex_groups(s.drop_last()) + seq![':'] + hex_text(s.last() as nat)
    }
}

/// Groups `start .. start + len` of `seg` are all zero.
pub open spec fn is_zero_run(seg: Seq<u16>, start: int, len: int) -> bool {
    &&& 0 <= start
    &&& 0 <= len
    &&& start + len <= seg.len()
    &&& forall|k: int| start <= k < start + len ==> seg[k] == 0
}

/// `start, len` is the longest run of zero groups, the first of the longest
/// ones on a tie, and `0, 0` where there is none.
pub open spec fn is_longest_zero_run(seg: Seq<u16>, start: int, len: int) -> bool {
    &&& is_zero_run(seg, start, len)
    &&& (len == 0 ==> start == 0)
    &&& forall|s2: int, l2: int|
        #[trigger] is_zero_run(seg, s2, l2) ==> l2 <= len && (l2 == len && len > 0 ==> start <= s2)
}

/// The six leading groups say that the address is an IPv4 address mapped
/// into IPv6 (`::ffff:a.b.c.d`).
pub open spec fn is_ipv4_mapped(seg: Seq<u16>) -> bool {
    &&& seg[0] == 0
    &&& seg[1] == 0
    &&& seg[2] == 0
    &&& seg[3] == 0
    &&& seg[4] == 0
    &&& seg[5] == 0xffff
}

/// The four octets carried by the last two groups.
pub open spec fn mapped_octets(seg: Seq<u16>) -> Seq<u8> {
    seq![
        (seg[6] / 256) as u8,
        (seg[6] % 256) as u8,
        (seg[7] / 256) as u8,
        (seg[7] % 256) as u8,
    ]
}

/// The text of eight groups once the zero run to shorten is fixed.
pub open spec fn ipv6_text_with_run(seg: Seq<u16>, start: int, len: int) -> Seq<char> {
    if len > 1 {
        hex_groups(seg.subrange(0, start)) + seq![':', ':'] + hex_groups(
            seg.subrange(start + len, seg.len() as int),
        )
    } else {
        hex_groups(seg)
    }
}

/// The text of an IPv6 address given by its eight groups.
pub open spec fn ipv6_text(seg: Seq<u16>) -> Seq<char> {
    if is_ipv4_mapped(seg) {
        seq![':', ':', 'f', 'f', 'f', 'f', ':'] + ipv4_text(mapped_octets(seg))
    } else {
        let (start, len) = choose|start: int, len: int| is_longest_zero_run(seg, start, len);
        ipv6_text_with_run(seg, start, len)
    }
}

impl IpAddress {
    /// The text of the address.
    pub open spec fn text(self) -> Seq<char> {
        match self {
            IpAddress::V4(o) => ipv4_text(o@),
            IpAddress::V6(seg) => ipv6_text(seg@),
        }
    }
}

/// The address and the port, joined by a colon (no brackets, also for IPv6).
pub open spec fn socket_text(addr: IpAddress, port: u16) -> Seq<char> {
    addr.text() + seq![':'] + decimal_text(port as nat)
}

/// The text of an address and a port is the address's text, a colon, and
/// the decimal numeral of the whole port: digits standing for the port,
/// with no leading zero, for every port.
pub proof fn lemma_socket_text_parts(addr: IpAddress, port: u16)
    ensures
        ({
            let t = socket_text(addr, port);
            let k = addr.text().len();
            &&& t.take(k as int) == addr.text()
            &&& t[k as int] == ':'
            &&& is_decimal_numeral_of(t.skip(k as int + 1), port as nat)
        }),
{
    let t = socket_text(addr, port);
    let k = addr.text().len();
    lemma_decimal_text_is_numeral(port as nat);
    assert(t.take(k as int) =~= addr.text());
    assert(t.skip(k as int + 1) =~= decimal_text(port as nat));
}

/// There is one longest run at most: two that both are one coincide.
pub proof fn lemma_longest_zero_run_unique(seg: Seq<u16>, s1: int, l1: int, s2: int, l2: int)
    requires
        is_longest_zero_run(seg, s1, l1),
        is_longest_zero_run(seg, s2, l2),
    ensures
        s1 == s2,
        l1 == l2,
{
    assert(is_zero_run(seg, s2, l2));
    assert(is_zero_run(seg, s1, l1));
}

/// Finds the longest run of zero groups, the first one on a tie.
pub fn longest_zero_run(seg: [u16; 8]) -> (r: (usize, usize))
    ensures
        is_longest_zero_run(seg@, r.0 as int, r.1 as int),
{
    let mut best_s: usize = 0;
    let mut best_l: usize = 0;
    let mut cur_s: usize = 0;
    let mut cur_l: usize = 0;
    let mut i: usize = 0;
    while i < 8
        invariant
            i <= 8,
            seg@.len() == 8,
            is_zero_run(seg@, best_s as int, best_l as int),
            best_s + best_l <= i,
            best_l == 0 ==> best_s == 0,
            is_zero_run(seg@, cur_s as int, cur_l as int),
            cur_s + cur_l == i,
            cur_l <= best_l,
            cur_s == 0 || seg@[cur_s - 1] != 0,
            forall|s2: int, l2: int|
                #[trigger] is_zero_run(seg@, s2, l2) && s2 + l2 <= i ==> l2 <= best_l && (l2
                    == best_l && best_l > 0 ==> best_s <= s2),
        decreases 8 - i,
    {
        let ghost old_cur_s = cur_s;
        let ghost old_best_s = best_s;
        let ghost old_best_l = best_l;
        if seg[i] == 0 {
            cur_l = cur_l + 1;
            if cur_l > best_l {
                best_s = cur_s;
                best_l = cur_l;
            }
        } else {
            cur_s = i + 1;
            cur_l = 0;
        }
        proof {
            assert forall|s2: int, l2: int|
                #[trigger] is_zero_run(seg@, s2, l2) && s2 + l2 <= i + 1 implies l2 <= best_l && (
                l2 == best_l && best_l > 0 ==> best_s <= s2) by {
                if s2 + l2 <= i {
                } else if l2 > 0 {
                    assert(seg@[i as int] == 0);
                    if s2 < old_cur_s {
                        assert(seg@[old_cur_s - 1] == 0);
                    }
                }
            }
        }
        i = i + 1;
    }
    (best_s, best_l)
}

/// Appends the colon-joined hexadecimal groups `seg[from..to]` to `s`.
pub fn push_hex_groups(s: &mut String, seg: [u16; 8], from: usize, to: usize)
    requires
        from <= to <= 8,
    ensures
        final(s)@ == old(s)@ + hex_groups(seg@.subrange(from as int, to as int)),
{
    let ghost start = s@;
    let mut i = from;
    while i < to
        invariant
            from <= i <= to <= 8,
            seg@.len() == 8,
            s@ == start + hex_groups(seg@.subrange(from as int, i as int)),
        decreases to - i,
    {
        let ghost before = s@;
        if i > from {
            push_char(s, ':');
        }
        push_numeral(s, seg[i] as u64, 16);
        proof {
            let sub = seg@.subrange(from as int, i + 1);
            assert(sub.drop_last() =~= seg@.subrange(from as int, i as int));
            assert(sub.last() == seg@[i as int]);
            if i == from {
                assert(seg@.subrange(from as int, i as int).len() == 0);
            }
        }
        i = i + 1;
    }
}

/// Appends the dotted-decimal text of four octets to `s`.
pub fn push_ipv4(s: &mut String, o: [u8; 4])
    ensures
        final(s)@ == old(s)@ + ipv4_text(o@),
{
    let ghost start = s@;
    push_numeral(s, o[0] as u64, 10);
    push_char(s, '.');
    push_numeral(s, o[1] as u64, 10);
    push_char(s, '.');
    push_numeral(s, o[2] as u64, 10);
    push_char(s, '.');
    push_numeral(s, o[3] as u64, 10);
    assert(s@ =~= start + ipv4_text(o@));
}

/// Appends the text of an IPv6 address to `s`.
pub fn push_ipv6(s: &mut String, seg: [u16; 8])
    ensures
        final(s)@ == old(s)@ + ipv6_text(seg@),
{
    let ghost start = s@;
    if seg[0] == 0 && seg[1] == 0 && seg[2] == 0 && seg[3] == 0 && seg[4] == 0 && seg[5]
        == 0xffff {
        push_char(s, ':');
        push_char(s, ':');
        push_char(s, 'f');
        push_char(s, 'f');
        push_char(s, 'f');
        push_char(s, 'f');
        push_char(s, ':');
        let o: [u8; 4] = [
            (seg[6] / 256) as u8,
            (seg[6] % 256) as u8,
            (seg[7] / 256) as u8,
            (seg[7] % 256) as u8,
        ];
        push_ipv4(s, o);
        assert(o@ =~= mapped_octets(seg@));
        assert(s@ =~= start + ipv6_text(seg@));
    } else {
        let (rs, rl) = longest_zero_run(seg);
        proof {
            let (cs, cl) = choose|cs: int, cl: int| is_longest_zero_run(seg@, cs, cl);
            lemma_longest_zero_run_unique(seg@, rs as int, rl as int, cs, cl);
        }
        if rl > 1 {
            push_hex_groups(s, seg, 0, rs);
            push_char(s, ':');
            push_char(s, ':');
            push_hex_groups(s, seg, rs + rl, 8);
            assert(s@ =~= start + ipv6_text_with_run(seg@, rs as int, rl as int));
        } else {
            push_hex_groups(s, seg, 0, 8);
            assert(seg@.subrange(0, 8) =~= seg@);
        }
    }
}

impl IpAddress {
    /// Appends the text of the address to `s`.
    pub fn push_text(&self, s: &mut String)
        ensures
            final(s)@ == old(s)@ + self.text(),
    {
        match self {
            IpAddress::V4(o) => push_ipv4(s, *o),
            IpAddress::V6(seg) => push_ipv6(s, *seg),
        }
    }

    /// The text of the address, as `to_string` writes it.
    pub fn to_text(&self) -> (r: String)
        ensures
            r@ == self.text(),
    {
        let mut s = String::new();
        self.push_text(&mut s);
        s
    }

    /// The IPv4 loopback address 127.0.0.1.
    pub fn localhost_v4() -> (r: IpAddress)
        ensures
            r == IpAddress::V4([127u8, 0u8, 0u8, 1u8]),
    {
        IpAddress::V4([127u8, 0u8, 0u8, 1u8])
    }
}

/// The text `address:port`.
pub fn socket_string(addr: &IpAddress, port: u16) -> (r: String)
    ensures
        r@ == socket_text(*addr, port),
{
    let mut s = String::new();
    addr.push_text(&mut s);
    push_char(&mut s, ':');
    push_numeral(&mut s, port as u64, 10);
    s
}

} // verus!
