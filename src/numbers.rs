//! Reading numbers and IPv4 addresses written in decimal.

use vstd::prelude::*;
use crate::text::chars_of;
use crate::http::request::bounds_view;
use crate::parser::inline::{find_from, lemma_find_from};

verus! {

pub open spec fn is_digit(c: char) -> bool {
    '0' <= c && c <= '9'
}

pub open spec fn digit_value(c: char) -> nat {
    ((c as u32) - ('0' as u32)) as nat
}

/// The value of the decimal digits `d`, most significant first.
pub open spec fn digits_value(d: Seq<char>) -> nat
    decreases d.len(),
{
    if d.len() == 0 {
        0
    } else {
        digits_value(d.drop_last()) * 10 + digit_value(d.last())
    }
}

pub open spec fn all_digits(d: Seq<char>) -> bool {
    forall|i: int| 0 <= i < d.len() ==> is_digit(#[trigger] d[i])
}

/// The port number `s` writes: an optional `+`, then one or more decimal digits, with a
/// value of at most 65535.
pub open spec fn port_of(s: Seq<char>) -> Option<u16> {
    let d = if s.len() > 0 && s[0] == '+' { s.drop_first() } else { s };
    if d.len() > 0 && all_digits(d) && digits_value(d) <= 65535 {
        Some(digits_value(d) as u16)
    } else {
        None
    }
}

/// The value of one part of an IPv4 address: one to three digits, no leading zero
/// unless the part is `0`, at most 255.
pub open spec fn octet_of(d: Seq<char>) -> Option<u8> {
    if 1 <= d.len() <= 3 && all_digits(d) && !(d.len() > 1 && d[0] == '0') && digits_value(d) <= 255 {
        Some(digits_value(d) as u8)
    } else {
        None
    }
}

/// The bounds of the parts of `s` from `start` on, between the characters `c`.
pub open spec fn split_bounds(s: Seq<char>, start: int, c: char) -> Seq<(int, int)>
    decreases s.len() + 1 - start,
{
    if start < 0 || start > s.len() {
        Seq::empty()
    } else {
        match find_from(s, start, c) {
            None => seq![(start, s.len() as int)],
            Some(k) => {
                proof {
                    lemma_find_from(s, start, c);
                }
                seq![(start, k)] + split_bounds(s, k + 1, c)
            },
        }
    }
}

/// The parts of `s` between dots.
pub open spec fn dot_parts(s: Seq<char>) -> Seq<Seq<char>> {
    split_bounds(s, 0, '.').map_values(|b: (int, int)| s.subrange(b.0, b.1))
}

/// The address `s` writes in dotted decimal: four parts, each as `octet_of` reads it.
pub open spec fn ipv4_of(s: Seq<char>) -> Option<[u8; 4]> {
    let p = dot_parts(s);
    if p.len() == 4 && octet_of(p[0]) is Some && octet_of(p[1]) is Some && octet_of(p[2]) is Some
        && octet_of(p[3]) is Some {
        Some([octet_of(p[0])->0, octet_of(p[1])->0, octet_of(p[2])->0, octet_of(p[3])->0])
    } else {
        None
    }
}

/// The bounds of the parts of `v` between the characters `c`.
fn split_on(v: &Vec<char>, c: char) -> (r: Vec<(usize, usize)>)
    ensures
        bounds_view(r@) == split_bounds(v@, 0, c),
        forall|m: int| 0 <= m < r@.len() ==> (#[trigger] r@[m]).0 <= r@[m].1 <= v@.len(),
{
    let ghost s = v@;
    let mut out: Vec<(usize, usize)> = Vec::new();
    let mut start: usize = 0;
    let mut i: usize = 0;
    while i < v.len()
        invariant
            s == v@,
            start <= i <= v.len(),
            find_from(s, start as int, c) == find_from(s, i as int, c),
            split_bounds(s, 0, c) == bounds_view(out@) + split_bounds(s, start as int, c),
            forall|m: int| 0 <= m < out@.len() ==> (#[trigger] out@[m]).0 <= out@[m].1 <= v@.len(),
        decreases v.len() - i,
    {
        if v[i] == c {
            proof {
                assert(split_bounds(s, start as int, c) == seq![(start as int, i as int)] + split_bounds(s, i + 1, c));
                assert(bounds_view(out@.push((start, i))) =~= bounds_view(out@).push((start as int, i as int)));
                assert(bounds_view(out@) + (seq![(start as int, i as int)] + split_bounds(s, i + 1, c)) =~= bounds_view(out@).push((start as int, i as int)) + split_bounds(s, i + 1, c));
            }
            out.push((start, i));
            start = i + 1;
        }
        i = i + 1;
    }
    proof {
        assert(split_bounds(s, start as int, c) == seq![(start as int, s.len() as int)]);
        assert(bounds_view(out@.push((start, v.len()))) =~= bounds_view(out@) + seq![(start as int, s.len() as int)]);
    }
    out.push((start, v.len()));
    out
}

/// The value of the digits `v[a..b]`, if they are all digits and the value is at most `max`.
fn bounded_digits(v: &Vec<char>, a: usize, b: usize, max: u32) -> (r: Option<u32>)
    requires
        a <= b <= v.len(),
    ensures
        match r {
            Some(n) => all_digits(v@.subrange(a as int, b as int)) && n == digits_value(v@.subrange(a as int, b as int))
                && n <= max,
            None => !(all_digits(v@.subrange(a as int, b as int)) && digits_value(v@.subrange(a as int, b as int)) <= max),
        },
{
    let ghost d = v@.subrange(a as int, b as int);
    let mut n: u32 = 0;
    let mut i = a;
    while i < b
        invariant
            a <= i <= b <= v.len(),
            d == v@.subrange(a as int, b as int),
            all_digits(v@.subrange(a as int, i as int)),
            n == digits_value(v@.subrange(a as int, i as int)),
            n <= max,
        decreases b - i,
    {
        let c = v[i];
        let ghost pre = v@.subrange(a as int, i as int);
        let ghost next = v@.subrange(a as int, i + 1);
        assert(next.drop_last() =~= pre);
        if !('0' <= c && c <= '9') {
            proof {
                assert(!is_digit(d[i - a]));
            }
            return None;
        }
        let dv = (c as u32) - ('0' as u32);
        assert(dv <= 9);
        assert(digits_value(next) == n * 10 + dv);
        if max < dv || n > (max - dv) / 10 {
            proof {
                assert(n * 10 + dv > max) by (nonlinear_arith)
                    requires
                        max < dv || n > (max - dv) / 10,
                        dv <= 9,
                ;
                lemma_digits_monotone(d, i - a + 1);
                assert(d.take(i - a + 1) =~= next);
            }
            return None;
        }
        assert(n * 10 + dv <= max) by (nonlinear_arith)
            requires
                dv <= max,
                n <= (max - dv) / 10,
        ;
        n = n * 10 + dv;
        i = i + 1;
    }
    Some(n)
}

/// The value of a prefix of digits never exceeds the value of the whole.
proof fn lemma_digits_monotone(d: Seq<char>, k: int)
    requires
        0 <= k <= d.len(),
        all_digits(d.take(k)) ==> true,
    ensures
        all_digits(d) ==> digits_value(d.take(k)) <= digits_value(d),
    decreases d.len() - k,
{
    if k < d.len() && all_digits(d) {
        lemma_digits_monotone(d, k + 1);
        assert(d.take(k + 1).drop_last() =~= d.take(k));
    }
    if k == d.len() {
        assert(d.take(k) =~= d);
    }
}

/// Reads a port number, as `port_of` describes.
pub fn parse_port(s: &str) -> (r: Option<u16>)
    ensures
        r == port_of(s@),
{
    let v = chars_of(s);
    let a: usize = if v.len() > 0 && v[0] == '+' { 1 } else { 0 };
    proof {
        let d = if s@.len() > 0 && s@[0] == '+' { s@.drop_first() } else { s@ };
        assert(d =~= v@.subrange(a as int, v@.len() as int));
    }
    if a >= v.len() {
        return None;
    }
    match bounded_digits(&v, a, v.len(), 65535) {
        Some(n) => Some(n as u16),
        None => None,
    }
}

/// Reads one part of an IPv4 address, as `octet_of` describes.
fn parse_octet(v: &Vec<char>, a: usize, b: usize) -> (r: Option<u8>)
    requires
        a <= b <= v.len(),
    ensures
        r == octet_of(v@.subrange(a as int, b as int)),
{
    if b - a < 1 || b - a > 3 {
        return None;
    }
    if b - a > 1 && v[a] == '0' {
        return None;
    }
    match bounded_digits(v, a, b, 255) {
        Some(n) => Some(n as u8),
        None => None,
    }
}

/// Reads an IPv4 address in dotted decimal, as `ipv4_of` describes.
pub fn parse_ipv4(s: &str) -> (r: Option<[u8; 4]>)
    ensures
        r == ipv4_of(s@),
{
    let v = chars_of(s);
    let parts = split_on(&v, '.');
    proof {
        assert(dot_parts(s@).len() == parts@.len());
        assert forall|m: int| 0 <= m < parts@.len() implies dot_parts(s@)[m] == v@.subrange(
            (#[trigger] parts@[m]).0 as int,
            parts@[m].1 as int,
        ) by {
            assert(bounds_view(parts@)[m] == (parts@[m].0 as int, parts@[m].1 as int));
        }
    }
    if parts.len() != 4 {
        return None;
    }
    let o0 = match parse_octet(&v, parts[0].0, parts[0].1) { Some(o) => o, None => return None };
    let o1 = match parse_octet(&v, parts[1].0, parts[1].1) { Some(o) => o, None => return None };
    let o2 = match parse_octet(&v, parts[2].0, parts[2].1) { Some(o) => o, None => return None };
    let o3 = match parse_octet(&v, parts[3].0, parts[3].1) { Some(o) => o, None => return None };
    let r = [o0, o1, o2, o3];
    assert(r@ =~= ipv4_of(s@)->0@);
    Some(r)
}

} // verus!
