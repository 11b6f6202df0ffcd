//! The small grammars of the address arguments, over bytes: decimal
//! numbers, ports, dotted-quad IPv4 addresses, and IPv4 addresses with a port.

use vstd::prelude::*;
use vstd::slice::slice_subrange;

verus! {

/// ASCII `+`.
pub const PLUS: u8 = 0x2b;

/// ASCII `.`.
pub const DOT: u8 = 0x2e;

/// ASCII `0`.
pub const ZERO: u8 = 0x30;

/// ASCII `:`.
pub const COLON: u8 = 0x3a;

/// Whether `b` is an ASCII decimal digit.
pub open spec fn is_digit(b: u8) -> bool {
    0x30 <= b <= 0x39
}

/// Whether every byte of `s` is a decimal digit.
pub open spec fn all_digits(s: Seq<u8>) -> bool {
    forall|i: int| 0 <= i < s.len() ==> is_digit(#[trigger] s[i])
}

/// The number that a string of decimal digits denotes.
pub open spec fn decimal(s: Seq<u8>) -> nat
    decreases s.len(),
{
    if s.len() == 0 {
        0
    } else {
        decimal(s.drop_last()) * 10 + (s.last() - 0x30) as nat
    }
}

/// The number written as `s`: one or more decimal digits, leading zeros
/// allowed, denoting at most `max`.
pub open spec fn number_text(s: Seq<u8>, max: nat) -> Option<nat> {
    if s.len() > 0 && all_digits(s) && decimal(s) <= max {
        Some(decimal(s))
    } else {
        None
    }
}

/// The port written as `s`: a number up to 65535, with an optional `+` in front.
pub open spec fn port_text(s: Seq<u8>) -> Option<u16> {
    let digits = if s.len() > 0 && s[0] == PLUS {
        s.skip(1)
    } else {
        s
    };
    match number_text(digits, 65535) {
        Some(v) => Some(v as u16),
        None => None,
    }
}

/// The octet written as `s`: one to three digits denoting at most 255,
/// without a leading zero unless it is the single digit `0`.
pub open spec fn octet_text(s: Seq<u8>) -> Option<u8> {
    if s.len() <= 3 && (s.len() == 1 || s[0] != ZERO) {
        match number_text(s, 255) {
            Some(v) => Some(v as u8),
            None => None,
        }
    } else {
        None
    }
}

/// Whether `i` is where `b` first occurs in `s`, or the length of `s` if it never does.
pub open spec fn is_first_index(s: Seq<u8>, b: u8, i: int) -> bool {
    &&& 0 <= i <= s.len()
    &&& forall|j: int| 0 <= j < i ==> s[j] != b
    &&& i < s.len() ==> s[i] == b
}

/// Where `b` first occurs in `s`, or the length of `s` if it never does.
pub open spec fn first_index(s: Seq<u8>, b: u8) -> int {
    choose|i: int| is_first_index(s, b, i)
}

/// The IPv4 address written as `s`: four octets separated by three dots.
pub open spec fn ipv4_text(s: Seq<u8>) -> Option<[u8; 4]> {
    let i0 = first_index(s, DOT);
    let r1 = s.skip(i0 + 1);
    let i1 = first_index(r1, DOT);
    let r2 = r1.skip(i1 + 1);
    let i2 = first_index(r2, DOT);
    let r3 = r2.skip(i2 + 1);
    if i0 < s.len() && i1 < r1.len() && i2 < r2.len() {
        match (octet_text(s.take(i0)), octet_text(r1.take(i1)), octet_text(r2.take(i2)), octet_text(r3)) {
            (Some(a), Some(b), Some(c), Some(d)) => Some([a, b, c, d]),
            _ => None,
        }
    } else {
        None
    }
}

/// The IPv4 socket address written as `s`: a dotted quad, a colon, and a
/// port in decimal digits without a sign.
pub open spec fn socket_v4_text(s: Seq<u8>) -> Option<([u8; 4], u16)> {
    let colon = first_index(s, COLON);
    if colon < s.len() {
        match (ipv4_text(s.take(colon)), number_text(s.skip(colon + 1), 65535)) {
            (Some(octets), Some(port)) => Some((octets, port as u16)),
            _ => None,
        }
    } else {
        None
    }
}

/// There is exactly one first index.
pub proof fn lemma_first_index(s: Seq<u8>, b: u8, i: int)
    requires
        is_first_index(s, b, i),
    ensures
        first_index(s, b) == i,
{
    let k = first_index(s, b);
    assert(is_first_index(s, b, k));
    if k < i {
        assert(s[k] != b);
    }
    if i < k {
        assert(s[i] != b);
    }
}

/// A digit string denotes at least what any of its prefixes denotes.
pub proof fn lemma_decimal_prefix(s: Seq<u8>, k: int)
    requires
        all_digits(s),
        0 <= k <= s.len(),
    ensures
        decimal(s.take(k)) <= decimal(s),
    decreases s.len() - k,
{
    if k == s.len() {
        assert(s.take(k) =~= s);
    } else {
        lemma_decimal_prefix(s, k + 1);
        let longer = s.take(k + 1);
        assert(longer.drop_last() =~= s.take(k));
        assert(is_digit(s[k]));
        assert(longer.last() == s[k]);
    }
}

/// Finds where `b` first occurs in `s[from..]`, counted from `from`.
pub(crate) fn find_byte(s: &[u8], from: usize, b: u8) -> (i: usize)
    requires
        from <= s@.len(),
    ensures
        from + i <= s@.len(),
        i == first_index(s@.skip(from as int), b),
{
    let mut i: usize = from;
    while i < s.len() && s[i] != b
        invariant
            from <= i <= s@.len(),
            forall|j: int| from <= j < i ==> s@[j] != b,
        decreases s@.len() - i,
    {
        i += 1;
    }
    proof {
        let rest = s@.skip(from as int);
        assert forall|j: int| 0 <= j < i - from implies rest[j] != b by {
            assert(rest[j] == s@[from + j]);
        }
        lemma_first_index(rest, b, i - from);
    }
    i - from
}

/// Reads `s[from..to]` as a number of at most `max`.
fn parse_number(s: &[u8], from: usize, to: usize, max: u32) -> (r: Option<u32>)
    requires
        from <= to <= s@.len(),
        max <= 65535,
    ensures
        match r {
            Some(v) => number_text(s@.subrange(from as int, to as int), max as nat) == Some(
                v as nat,
            ),
            None => number_text(s@.subrange(from as int, to as int), max as nat) is None,
        },
{
    let ghost text = s@.subrange(from as int, to as int);
    if from == to {
        return None;
    }
    let mut acc: u32 = 0;
    let mut i: usize = from;
    assert(text.take(0) =~= Seq::<u8>::empty());
    while i < to
        invariant
            from <= i <= to <= s@.len(),
            max <= 65535,
            text == s@.subrange(from as int, to as int),
            all_digits(text.take(i - from)),
            acc == decimal(text.take(i - from)),
            acc <= max,
        decreases to - i,
    {
        let b = s[i];
        let ghost longer = text.take(i - from + 1);
        proof {
            assert(longer.drop_last() =~= text.take(i - from));
            assert(longer.last() == b);
        }
        if b < 0x30 || b > 0x39 {
            proof {
                assert(!is_digit(text[i - from]));
            }
            return None;
        }
        let next = acc * 10 + (b - 0x30) as u32;
        if next > max {
            proof {
                if all_digits(text) {
                    lemma_decimal_prefix(text, i - from + 1);
                }
            }
            return None;
        }
        proof {
            assert forall|j: int| 0 <= j < longer.len() implies is_digit(#[trigger] longer[j]) by {
                if j < i - from {
                    assert(text.take(i - from)[j] == longer[j]);
                }
            }
        }
        acc = next;
        i += 1;
    }
    assert(text.take(to - from) =~= text);
    Some(acc)
}

/// Reads `s` as a port.
pub fn parse_port(s: &[u8]) -> (r: Option<u16>)
    ensures
        r == port_text(s@),
{
    let from: usize = if s.len() > 0 && s[0] == PLUS {
        1
    } else {
        0
    };
    assert(s@.subrange(from as int, s@.len() as int) =~= s@.skip(from as int));
    assert(s@.skip(0) =~= s@);
    match parse_number(s, from, s.len(), 65535) {
        Some(v) => Some(v as u16),
        None => None,
    }
}

/// Reads `s[from..to]` as one octet of a dotted quad.
fn parse_octet(s: &[u8], from: usize, to: usize) -> (r: Option<u8>)
    requires
        from <= to <= s@.len(),
    ensures
        r == octet_text(s@.subrange(from as int, to as int)),
{
    let ghost text = s@.subrange(from as int, to as int);
    let n = to - from;
    if n > 3 {
        return None;
    }
    if n != 1 && n != 0 && s[from] == ZERO {
        assert(text[0] == s@[from as int]);
        return None;
    }
    proof {
        if n > 1 {
            assert(text[0] == s@[from as int]);
        }
    }
    match parse_number(s, from, to, 255) {
        Some(v) => Some(v as u8),
        None => None,
    }
}

/// Reads `s` as a dotted-quad IPv4 address.
pub fn parse_ipv4(s: &[u8]) -> (r: Option<[u8; 4]>)
    ensures
        r == ipv4_text(s@),
{
    let n = s.len();
    let ghost r0 = s@;
    let i0 = find_byte(s, 0, DOT);
    assert(s@.skip(0) =~= s@);
    if i0 >= n {
        return None;
    }
    let s1 = i0 + 1;
    let ghost r1 = s@.skip(s1 as int);
    let i1 = find_byte(s, s1, DOT);
    if s1 + i1 >= n {
        return None;
    }
    let s2 = s1 + i1 + 1;
    let ghost r2 = s@.skip(s2 as int);
    assert(r1.skip(i1 + 1) =~= r2);
    let i2 = find_byte(s, s2, DOT);
    if s2 + i2 >= n {
        return None;
    }
    let s3 = s2 + i2 + 1;
    let ghost r3 = s@.skip(s3 as int);
    assert(r2.skip(i2 + 1) =~= r3);
    assert(s@.subrange(0, i0 as int) =~= r0.take(i0 as int));
    assert(s@.subrange(s1 as int, s1 + i1) =~= r1.take(i1 as int));
    assert(s@.subrange(s2 as int, s2 + i2) =~= r2.take(i2 as int));
    assert(s@.subrange(s3 as int, n as int) =~= r3);
    let a = parse_octet(s, 0, i0);
    let b = parse_octet(s, s1, s1 + i1);
    let c = parse_octet(s, s2, s2 + i2);
    let d = parse_octet(s, s3, n);
    match (a, b, c, d) {
        (Some(a), Some(b), Some(c), Some(d)) => Some([a, b, c, d]),
        _ => None,
    }
}

/// Reads `s` as an IPv4 socket address.
pub fn parse_socket_v4(s: &[u8]) -> (r: Option<([u8; 4], u16)>)
    ensures
        r == socket_v4_text(s@),
{
    let colon = find_byte(s, 0, COLON);
    assert(s@.skip(0) =~= s@);
    if colon >= s.len() {
        return None;
    }
    let before = slice_subrange(s, 0, colon);
    assert(before@ =~= s@.take(colon as int));
    assert(s@.subrange(colon + 1, s@.len() as int) =~= s@.skip(colon + 1));
    match (parse_ipv4(before), parse_number(s, colon + 1, s.len(), 65535)) {
        (Some(octets), Some(port)) => Some((octets, port as u16)),
        _ => None,
    }
}

} // verus!
