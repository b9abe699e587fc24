//! Network addresses held as plain integers, and their textual forms.
use vstd::prelude::*;
use vstd::string::StringExecFns;

verus! {

/// The character of a digit below sixteen, in lower case.
pub open spec fn digit_char(d: int) -> char {
    if d == 0 { '0' }
    else if d == 1 { '1' }
    else if d == 2 { '2' }
    else if d == 3 { '3' }
    else if d == 4 { '4' }
    else if d == 5 { '5' }
    else if d == 6 { '6' }
    else if d == 7 { '7' }
    else if d == 8 { '8' }
    else if d == 9 { '9' }
    else if d == 10 { 'a' }
    else if d == 11 { 'b' }
    else if d == 12 { 'c' }
    else if d == 13 { 'd' }
    else if d == 14 { 'e' }
    else { 'f' }
}

/// Decimal digits of `n`, most significant first, without leading zeros.
pub open spec fn dec_text(n: nat) -> Seq<char>
    decreases n,
{
    if n < 10 {
        seq![digit_char(n as int)]
    } else {
        dec_text(n / 10) + seq![digit_char((n % 10) as int)]
    }
}

/// Lower-case hexadecimal digits of `n`, most significant first, without
/// leading zeros.
pub open spec fn hex_text(n: nat) -> Seq<char>
    decreases n,
{
    if n < 16 {
        seq![digit_char(n as int)]
    } else {
        hex_text(n / 16) + seq![digit_char((n % 16) as int)]
    }
}

/// Relies on `ToString` of `u32` (its `Display`): the decimal digits of the
/// number, without sign or leading zeros.
#[verifier::external_body]
fn decimal_string(n: u32) -> (r: String)
    ensures
        r@ == dec_text(n as nat),
{
    n.to_string()
}

/// Relies on `LowerHex` of `u16` through `format!("{:x}")`: the lower-case
/// hexadecimal digits of the number, without prefix or leading zeros.
#[verifier::external_body]
fn hex_string(n: u16) -> (r: String)
    ensures
        r@ == hex_text(n as nat),
{
    format!("{:x}", n)
}

/// Decimal text of a number below 2^32, as a connect string writes a port.
pub fn number_text(n: u32) -> (r: String)
    ensures
        r@ == dec_text(n as nat),
{
    decimal_string(n)
}

/// An IP address: version 4 as its 32-bit value, version 6 as its 128-bit
/// value, most significant byte first in the usual notation.
#[derive(Clone, Copy, Debug, PartialEq, Eq, Hash, Structural)]
pub enum IpAddress {
    V4(u32),
    V6(u128),
}

/// Weight of the octet at position `k` (0 to 3) of an IPv4 address.
pub open spec fn octet_weight(k: int) -> int {
    if k == 0 { 0x1000000 } else if k == 1 { 0x10000 } else if k == 2 { 0x100 } else { 1 }
}

/// Weight of the 16-bit group at position `k` (0 to 7) of an IPv6 address.
pub open spec fn group_weight(k: int) -> int {
    if k == 0 { 0x10000000000000000000000000000 }
    else if k == 1 { 0x1000000000000000000000000 }
    else if k == 2 { 0x100000000000000000000 }
    else if k == 3 { 0x10000000000000000 }
    else if k == 4 { 0x1000000000000 }
    else if k == 5 { 0x100000000 }
    else if k == 6 { 0x10000 }
    else { 1 }
}

/// The octet at position `k` of an IPv4 address.
pub open spec fn octet(x: u32, k: int) -> nat {
    ((x as int / octet_weight(k)) % 256) as nat
}

/// The 16-bit group at position `k` of an IPv6 address.
pub open spec fn group(x: u128, k: int) -> nat {
    ((x as int / group_weight(k)) % 0x10000) as nat
}

/// Dotted decimal notation of an IPv4 address.
pub open spec fn ipv4_text(x: u32) -> Seq<char> {
    dec_text(octet(x, 0)) + seq!['.'] + dec_text(octet(x, 1)) + seq!['.'] + dec_text(octet(x, 2))
        + seq!['.'] + dec_text(octet(x, 3))
}

/// Groups `a` to `b - 1` of an IPv6 address in hexadecimal without leading
/// zeros, joined by colons; empty where `b <= a`.
pub open spec fn groups_text(x: u128, a: int, b: int) -> Seq<char>
    decreases b - a,
{
    if b <= a {
        seq![]
    } else if b == a + 1 {
        hex_text(group(x, a))
    } else {
        groups_text(x, a, b - 1) + seq![':'] + hex_text(group(x, b - 1))
    }
}

/// Groups `s` to `s + l - 1` of an IPv6 address are all zero.
pub open spec fn zero_run(x: u128, s: int, l: int) -> bool {
    &&& 0 <= s
    &&& 0 <= l
    &&& s + l <= 8
    &&& forall|i: int| s <= i < s + l ==> group(x, i) == 0
}

/// `(s, l)` is the longest run of zero groups of an IPv6 address, the first
/// one where several are equally long; `(0, 0)` where no group is zero.
pub open spec fn longest_zero_run(x: u128, s: int, l: int) -> bool {
    &&& 0 <= s < 8
    &&& 0 <= l
    &&& s + l <= 8
    &&& l > 0 ==> zero_run(x, s, l)
    &&& l == 0 ==> s == 0
    &&& forall|s2: int, l2: int|
        l2 > 0 && #[trigger] zero_run(x, s2, l2) ==> l2 < l || (l2 == l && s <= s2)
}

/// An IPv6 address that maps an IPv4 address: `::ffff:a.b.c.d`.
pub open spec fn is_ipv4_mapped(x: u128) -> bool {
    x as int / 0x1_0000_0000 == 0xffff
}

/// Canonical text of an IPv6 address: a mapped IPv4 address as `::ffff:`
/// and the dotted quad; otherwise the groups in hexadecimal joined by
/// colons, with the longest run of two or more zero groups (the first such
/// run on a tie) written `::`.
pub open spec fn ipv6_text(x: u128) -> Seq<char> {
    if is_ipv4_mapped(x) {
        seq![':', ':', 'f', 'f', 'f', 'f', ':'] + ipv4_text((x as int % 0x1_0000_0000) as u32)
    } else {
        let run = choose|run: (int, int)| longest_zero_run(x, run.0, run.1);
        if run.1 > 1 {
            groups_text(x, 0, run.0) + seq![':', ':'] + groups_text(x, run.0 + run.1, 8)
        } else {
            groups_text(x, 0, 8)
        }
    }
}

/// Textual form of an IP address: dotted decimal for version 4, the
/// canonical form `ipv6_text` for version 6.
pub open spec fn ip_text(ip: IpAddress) -> Seq<char> {
    match ip {
        IpAddress::V4(x) => ipv4_text(x),
        IpAddress::V6(x) => ipv6_text(x),
    }
}

/// Number of zero groups from group `s` on, up to the first non-zero one.
pub open spec fn zero_len(x: u128, s: int) -> int
    decreases 8 - s,
{
    if s < 0 || s >= 8 || group(x, s) != 0 {
        0
    } else {
        1 + zero_len(x, s + 1)
    }
}

proof fn lemma_zero_len(x: u128, s: int)
    requires
        0 <= s <= 8,
    ensures
        zero_run(x, s, zero_len(x, s)),
        forall|l: int| #[trigger] zero_run(x, s, l) ==> l <= zero_len(x, s),
    decreases 8 - s,
{
    if s < 8 && group(x, s) == 0 {
        lemma_zero_len(x, s + 1);
        assert forall|l: int| #[trigger] zero_run(x, s, l) implies l <= zero_len(x, s) by {
            if l > 0 {
                assert(zero_run(x, s + 1, l - 1));
            }
        }
    } else {
        assert forall|l: int| #[trigger] zero_run(x, s, l) implies l <= zero_len(x, s) by {
            if l > 0 {
                assert(group(x, s) == 0);
            }
        }
    }
}

proof fn lemma_longest_zero_run_unique(x: u128, s1: int, l1: int, s2: int, l2: int)
    requires
        longest_zero_run(x, s1, l1),
        longest_zero_run(x, s2, l2),
    ensures
        s1 == s2 && l1 == l2,
{
    if l1 > 0 {
        assert(zero_run(x, s1, l1));
    }
    if l2 > 0 {
        assert(zero_run(x, s2, l2));
    }
}

fn octet_weight_of(k: usize) -> (r: u32)
    requires
        k < 4,
    ensures
        r as int == octet_weight(k as int),
{
    if k == 0 { 0x1000000 } else if k == 1 { 0x10000 } else if k == 2 { 0x100 } else { 1 }
}

fn group_weight_of(k: usize) -> (r: u128)
    requires
        k < 8,
    ensures
        r as int == group_weight(k as int),
{
    if k == 0 { 0x10000000000000000000000000000 }
    else if k == 1 { 0x1000000000000000000000000 }
    else if k == 2 { 0x100000000000000000000 }
    else if k == 3 { 0x10000000000000000 }
    else if k == 4 { 0x1000000000000 }
    else if k == 5 { 0x100000000 }
    else if k == 6 { 0x10000 }
    else { 1 }
}

fn octet_text(x: u32, k: usize) -> (r: String)
    requires
        k < 4,
    ensures
        r@ == dec_text(octet(x, k as int)),
{
    let w = octet_weight_of(k);
    let o: u32 = (x / w) % 256;
    decimal_string(o)
}

fn group_of(x: u128, k: usize) -> (r: u16)
    requires
        k < 8,
    ensures
        r as nat == group(x, k as int),
{
    let w = group_weight_of(k);
    ((x / w) % 0x10000) as u16
}

fn group_text(x: u128, k: usize) -> (r: String)
    requires
        k < 8,
    ensures
        r@ == hex_text(group(x, k as int)),
{
    hex_string(group_of(x, k))
}

fn ipv4_to_text(x: u32) -> (r: String)
    ensures
        r@ == ipv4_text(x),
{
    proof {
        reveal_strlit(".");
    }
    let s = octet_text(x, 0).concat(".").concat(octet_text(x, 1).as_str()).concat(".").concat(
        octet_text(x, 2).as_str(),
    ).concat(".").concat(octet_text(x, 3).as_str());
    assert(s@ =~= ipv4_text(x));
    s
}

/// Groups `a` to `b - 1` of an IPv6 address, as `groups_text` gives them.
fn groups_to_text(x: u128, a: usize, b: usize) -> (r: String)
    requires
        a <= b <= 8,
    ensures
        r@ == groups_text(x, a as int, b as int),
{
    if a == b {
        return String::new();
    }
    let mut s = group_text(x, a);
    let mut k: usize = a + 1;
    while k < b
        invariant
            a < k <= b <= 8,
            s@ == groups_text(x, a as int, k as int),
        decreases b - k,
    {
        proof {
            reveal_strlit(":");
        }
        s = s.concat(":");
        let t = group_text(x, k);
        s = s.concat(t.as_str());
        proof {
            assert(s@ =~= groups_text(x, a as int, k as int + 1));
        }
        k = k + 1;
    }
    s
}

/// Number of zero groups from group `s` on, as `zero_len` gives it.
fn zero_len_from(x: u128, s: usize) -> (r: usize)
    requires
        s < 8,
    ensures
        r as int == zero_len(x, s as int),
{
    let mut k: usize = s;
    while k < 8 && group_of(x, k) == 0
        invariant
            s <= k <= 8,
            zero_len(x, s as int) == (k - s) + zero_len(x, k as int),
        decreases 8 - k,
    {
        k = k + 1;
    }
    k - s
}

/// The longest run of zero groups, the first of equally long ones.
fn find_longest_zero_run(x: u128) -> (r: (usize, usize))
    ensures
        longest_zero_run(x, r.0 as int, r.1 as int),
{
    let mut best_s: usize = 0;
    let mut best_len: usize = 0;
    let mut s: usize = 0;
    while s < 8
        invariant
            0 <= s <= 8,
            best_s < 8,
            best_len <= 8,
            best_len == 0 ==> best_s == 0,
            best_len > 0 ==> best_s < s && zero_len(x, best_s as int) == best_len,
            forall|s2: int| 0 <= s2 < s ==> #[trigger] zero_len(x, s2) <= best_len,
            forall|s2: int| 0 <= s2 < best_s ==> #[trigger] zero_len(x, s2) < best_len,
        decreases 8 - s,
    {
        let l = zero_len_from(x, s);
        proof {
            lemma_zero_len(x, s as int);
        }
        if l > best_len {
            best_s = s;
            best_len = l;
        }
        s = s + 1;
    }
    proof {
        if best_len > 0 {
            lemma_zero_len(x, best_s as int);
        }
        assert forall|s2: int, l2: int|
            l2 > 0 && #[trigger] zero_run(x, s2, l2) implies l2 < best_len || (l2 == best_len
            && best_s <= s2) by {
            lemma_zero_len(x, s2);
        }
    }
    (best_s, best_len)
}

impl IpAddress {
    /// The IPv4 address `a.b.c.d`.
    pub fn v4(a: u8, b: u8, c: u8, d: u8) -> (r: IpAddress)
        ensures
            r == IpAddress::V4((a as int * 0x1000000 + b as int * 0x10000 + c as int * 0x100
                + d as int) as u32),
    {
        IpAddress::V4((a as u32) * 0x1000000 + (b as u32) * 0x10000 + (c as u32) * 0x100 + d as u32)
    }

    /// The IPv6 address whose eight 16-bit groups are given in order.
    pub fn v6(g0: u16, g1: u16, g2: u16, g3: u16, g4: u16, g5: u16, g6: u16, g7: u16) -> (r:
        IpAddress)
        ensures
            r == IpAddress::V6((g0 as int * group_weight(0) + g1 as int * group_weight(1) + g2 as int
                * group_weight(2) + g3 as int * group_weight(3) + g4 as int * group_weight(4)
                + g5 as int * group_weight(5) + g6 as int * group_weight(6) + g7 as int) as u128),
    {
        IpAddress::V6(
            (g0 as u128) * 0x10000000000000000000000000000 + (g1 as u128)
                * 0x1000000000000000000000000 + (g2 as u128) * 0x100000000000000000000 + (g3 as u128)
                * 0x10000000000000000 + (g4 as u128) * 0x1000000000000 + (g5 as u128) * 0x100000000
                + (g6 as u128) * 0x10000 + g7 as u128,
        )
    }

    /// The unspecified IPv6 address `::`.
    pub fn unspecified_v6() -> (r: IpAddress)
        ensures
            r == IpAddress::V6(0),
    {
        IpAddress::V6(0)
    }

    pub fn is_ipv4(&self) -> (r: bool)
        ensures
            r == (*self is V4),
    {
        match self {
            IpAddress::V4(_) => true,
            IpAddress::V6(_) => false,
        }
    }

    /// Textual form of the address, as `ip_text` gives it.
    pub fn to_text(&self) -> (r: String)
        ensures
            r@ == ip_text(*self),
    {
        match self {
            IpAddress::V4(x) => ipv4_to_text(*x),
            IpAddress::V6(x) => {
                let x = *x;
                if x / 0x1_0000_0000 == 0xffff {
                    proof {
                        reveal_strlit("::ffff:");
                    }
                    let v4 = ipv4_to_text((x % 0x1_0000_0000) as u32);
                    String::from_str("::ffff:").concat(v4.as_str())
                } else {
                    let (s, l) = find_longest_zero_run(x);
                    proof {
                        let run = choose|run: (int, int)| longest_zero_run(x, run.0, run.1);
                        lemma_longest_zero_run_unique(x, s as int, l as int, run.0, run.1);
                        reveal_strlit("::");
                    }
                    if l > 1 {
                        groups_to_text(x, 0, s).concat("::").concat(groups_to_text(x, s + l, 8).as_str())
                    } else {
                        groups_to_text(x, 0, 8)
                    }
                }
            },
        }
    }
}

/// An IP address with a port.
#[derive(Clone, Copy, Debug, PartialEq, Eq, Hash, Structural)]
pub struct SocketAddress {
    pub ip: IpAddress,
    pub port: u16,
}

} // verus!
