//! IP addresses as plain values: a textual IPv4 parser with an exact
//! grammar-level contract, and the classification of addresses that the
//! webhook validator refuses to contact.

use vstd::prelude::*;

verus! {

/// An IP address held as plain integers. The version-six form carries the
/// eight 16-bit groups of the address.
#[derive(Clone, Copy, Debug, PartialEq, Eq, Structural)]
pub enum IpAddress {
    V4(u8, u8, u8, u8),
    V6(u16, u16, u16, u16, u16, u16, u16, u16),
}

/// An address the webhook validator treats as internal: private, loopback,
/// link-local, broadcast, documentation or unspecified ranges for version
/// four; loopback or unspecified for version six.
pub open spec fn spec_is_private_ip(ip: IpAddress) -> bool {
    match ip {
        IpAddress::V4(a, b, c, d) => {
            ||| a == 10
            ||| (a == 172 && 16 <= b && b <= 31)
            ||| (a == 192 && b == 168)
            ||| a == 127
            ||| (a == 169 && b == 254)
            ||| (a == 255 && b == 255 && c == 255 && d == 255)
            ||| (a == 192 && b == 0 && c == 2)
            ||| (a == 198 && b == 51 && c == 100)
            ||| (a == 203 && b == 0 && c == 113)
            ||| (a == 0 && b == 0 && c == 0 && d == 0)
        },
        IpAddress::V6(g0, g1, g2, g3, g4, g5, g6, g7) => {
            ||| (g0 == 0 && g1 == 0 && g2 == 0 && g3 == 0 && g4 == 0 && g5 == 0 && g6 == 0 && g7
                == 1)
            ||| (g0 == 0 && g1 == 0 && g2 == 0 && g3 == 0 && g4 == 0 && g5 == 0 && g6 == 0 && g7
                == 0)
        },
    }
}

/// Decides whether an address is one the webhook validator must refuse.
pub fn is_private_ip(ip: &IpAddress) -> (r: bool)
    ensures
        r == spec_is_private_ip(*ip),
{
    match *ip {
        IpAddress::V4(a, b, c, d) => {
            (a == 10) || (a == 172 && 16 <= b && b <= 31) || (a == 192 && b == 168) || (a == 127)
                || (a == 169 && b == 254) || (a == 255 && b == 255 && c == 255 && d == 255) || (a
                == 192 && b == 0 && c == 2) || (a == 198 && b == 51 && c == 100) || (a == 203 && b
                == 0 && c == 113) || (a == 0 && b == 0 && c == 0 && d == 0)
        },
        IpAddress::V6(g0, g1, g2, g3, g4, g5, g6, g7) => {
            g0 == 0 && g1 == 0 && g2 == 0 && g3 == 0 && g4 == 0 && g5 == 0 && g6 == 0 && (g7 == 1
                || g7 == 0)
        },
    }
}

/// A decimal digit character.
pub open spec fn spec_is_dec_digit(c: char) -> bool {
    48 <= c as u32 && c as u32 <= 57
}

/// The numeric value of a run of decimal digit characters, most significant
/// first.
pub open spec fn spec_dec_value(s: Seq<char>) -> int
    decreases s.len(),
{
    if s.len() == 0 {
        0
    } else {
        spec_dec_value(s.drop_last()) * 10 + (s.last() as u32 as int - 48)
    }
}

/// A well-formed textual octet: one to three decimal digits, no leading
/// zero, value at most 255.
pub open spec fn spec_octet_text_valid(s: Seq<char>) -> bool {
    &&& 1 <= s.len() <= 3
    &&& (forall|i: int| 0 <= i < s.len() ==> spec_is_dec_digit(#[trigger] s[i]))
    &&& (s.len() > 1 ==> s[0] != '0')
    &&& spec_dec_value(s) <= 255
}

/// What a well-formed textual octet denotes.
pub open spec fn spec_parse_octet(s: Seq<char>) -> Option<u8> {
    if spec_octet_text_valid(s) {
        Some(spec_dec_value(s) as u8)
    } else {
        None
    }
}

/// The position of the first `c` in `s` at or after `from` and before `to`,
/// or a negative result if there is none.
pub open spec fn spec_find_in(s: Seq<char>, c: char, from: int, to: int) -> int
    decreases to - from when from <= to
{
    if from >= to || from < 0 || to > s.len() {
        -1
    } else if s[from] == c {
        from
    } else {
        spec_find_in(s, c, from + 1, to)
    }
}

proof fn lemma_find_in_bounds(s: Seq<char>, c: char, from: int, to: int)
    requires
        0 <= from <= to <= s.len(),
    ensures
        spec_find_in(s, c, from, to) == -1 || (from <= spec_find_in(s, c, from, to) < to),
    decreases to - from,
{
    if from < to && s[from] != c {
        lemma_find_in_bounds(s, c, from + 1, to);
    }
}

/// The textual form of a version-four address in `s[from..to]`: four
/// well-formed octets separated by dots, and nothing else.
pub open spec fn spec_parse_ipv4_in(s: Seq<char>, from: int, to: int) -> Option<(u8, u8, u8, u8)> {
    let i = spec_find_in(s, '.', from, to);
    if i < 0 {
        None
    } else {
        let j = spec_find_in(s, '.', i + 1, to);
        if j < 0 {
            None
        } else {
            let k = spec_find_in(s, '.', j + 1, to);
            if k < 0 {
                None
            } else if spec_find_in(s, '.', k + 1, to) >= 0 {
                None
            } else {
                let p0 = spec_parse_octet(s.subrange(from, i));
                let p1 = spec_parse_octet(s.subrange(i + 1, j));
                let p2 = spec_parse_octet(s.subrange(j + 1, k));
                let p3 = spec_parse_octet(s.subrange(k + 1, to));
                if p0 is Some && p1 is Some && p2 is Some && p3 is Some {
                    Some((p0->0, p1->0, p2->0, p3->0))
                } else {
                    None
                }
            }
        }
    }
}

/// The textual form of a version-four address: four well-formed octets
/// separated by dots, and nothing else.
pub open spec fn spec_parse_ipv4(s: Seq<char>) -> Option<(u8, u8, u8, u8)> {
    spec_parse_ipv4_in(s, 0, s.len() as int)
}

/// Parses the characters of `s` between `from` and `to` as one octet.
fn parse_octet_range(s: &str, from: usize, to: usize) -> (r: Option<u8>)
    requires
        from <= to <= s@.len(),
    ensures
        r == spec_parse_octet(s@.subrange(from as int, to as int)),
{
    let ghost p = s@.subrange(from as int, to as int);
    let len = to - from;
    if len == 0 || len > 3 {
        return None;
    }
    if len > 1 && s.get_char(from) == '0' {
        proof {
            assert(p[0] == '0');
        }
        return None;
    }
    let mut value: u32 = 0;
    let mut i: usize = 0;
    while i < len
        invariant
            from <= to <= s@.len(),
            p == s@.subrange(from as int, to as int),
            len == to - from,
            1 <= len <= 3,
            i <= len,
            value == spec_dec_value(p.take(i as int)),
            i == 0 ==> value == 0,
            i == 1 ==> value <= 9,
            i == 2 ==> value <= 99,
            i == 3 ==> value <= 999,
            forall|j: int| 0 <= j < i ==> spec_is_dec_digit(#[trigger] p[j]),
        decreases len - i,
    {
        let c = s.get_char(from + i);
        proof {
            assert(p[i as int] == c);
        }
        let code = c as u32;
        if code < 48 || code > 57 {
            return None;
        }
        proof {
            assert(p.take(i + 1).drop_last() =~= p.take(i as int));
            assert(p.take(i + 1).last() == c);
        }
        value = value * 10 + (code - 48);
        i += 1;
    }
    proof {
        assert(p.take(len as int) =~= p);
    }
    if value > 255 {
        return None;
    }
    Some(value as u8)
}

/// Parses the characters of `s` between `from` and `to` as a dotted-quad
/// version-four address.
fn parse_ipv4_range(s: &str, from: usize, to: usize) -> (r: Option<(u8, u8, u8, u8)>)
    requires
        from <= to <= s@.len(),
    ensures
        r == spec_parse_ipv4_in(s@, from as int, to as int),
{
    let i = match find_char_in(s, '.', from, to) {
        Some(i) => i,
        None => {
            return None;
        },
    };
    proof {
        lemma_find_in_bounds(s@, '.', from as int, to as int);
    }
    let j = match find_char_in(s, '.', i + 1, to) {
        Some(j) => j,
        None => {
            return None;
        },
    };
    proof {
        lemma_find_in_bounds(s@, '.', i + 1, to as int);
    }
    let k = match find_char_in(s, '.', j + 1, to) {
        Some(k) => k,
        None => {
            return None;
        },
    };
    proof {
        lemma_find_in_bounds(s@, '.', j + 1, to as int);
    }
    if let Some(_) = find_char_in(s, '.', k + 1, to) {
        return None;
    }
    let p0 = parse_octet_range(s, from, i);
    let p1 = parse_octet_range(s, i + 1, j);
    let p2 = parse_octet_range(s, j + 1, k);
    let p3 = parse_octet_range(s, k + 1, to);
    match (p0, p1, p2, p3) {
        (Some(a), Some(b), Some(c), Some(d)) => Some((a, b, c, d)),
        _ => None,
    }
}

/// Parses a textual version-four address. The result is exactly what the
/// dotted-quad grammar of `spec_parse_ipv4` assigns to the input.
pub fn parse_ipv4(s: &str) -> (r: Option<(u8, u8, u8, u8)>)
    ensures
        r == spec_parse_ipv4(s@),
{
    let len = s.unicode_len();
    parse_ipv4_range(s, 0, len)
}

/// The canonical dotted-quad text of a version-four address.
pub open spec fn spec_ipv4_text(a: u8, b: u8, c: u8, d: u8) -> Seq<char> {
    crate::text::spec_u64_dec(a as nat) + seq!['.'] + crate::text::spec_u64_dec(b as nat)
        + seq!['.'] + crate::text::spec_u64_dec(c as nat) + seq!['.'] + crate::text::spec_u64_dec(
        d as nat,
    )
}

proof fn lemma_digit_val(d: int)
    requires
        0 <= d < 10,
    ensures
        spec_is_dec_digit(crate::text::spec_digit(d)),
        crate::text::spec_digit(d) as u32 == 48 + d,
{
}

proof fn lemma_u64_dec_digits(n: nat)
    ensures
        forall|i: int|
            0 <= i < crate::text::spec_u64_dec(n).len() ==> spec_is_dec_digit(
                #[trigger] crate::text::spec_u64_dec(n)[i],
            ),
    decreases n,
{
    let t = crate::text::spec_u64_dec(n);
    lemma_digit_val((n % 10) as int);
    if n < 10 {
        assert(t == seq![crate::text::spec_digit(n as int)]);
        assert(t[0] == crate::text::spec_digit(n as int));
    } else {
        lemma_u64_dec_digits(n / 10);
        let t0 = crate::text::spec_u64_dec(n / 10);
        assert(t == t0.push(crate::text::spec_digit((n % 10) as int)));
        assert forall|i: int| 0 <= i < t.len() implies spec_is_dec_digit(#[trigger] t[i]) by {
            if i < t0.len() {
                assert(t[i] == t0[i]);
            } else {
                assert(t[i] == crate::text::spec_digit((n % 10) as int));
            }
        }
    }
}

proof fn lemma_u64_dec_value(n: nat)
    ensures
        spec_dec_value(crate::text::spec_u64_dec(n)) == n,
    decreases n,
{
    let t = crate::text::spec_u64_dec(n);
    lemma_digit_val((n % 10) as int);
    if n < 10 {
        assert(t == seq![crate::text::spec_digit(n as int)]);
        assert(t.last() == crate::text::spec_digit(n as int));
        assert(t.drop_last() =~= Seq::<char>::empty());
        assert(spec_dec_value(Seq::<char>::empty()) == 0);
        lemma_digit_val(n as int);
        assert(spec_dec_value(t) == 0 * 10 + (t.last() as u32 as int - 48));
    } else {
        lemma_u64_dec_value(n / 10);
        let t0 = crate::text::spec_u64_dec(n / 10);
        assert(t == t0.push(crate::text::spec_digit((n % 10) as int)));
        assert(t.last() == crate::text::spec_digit((n % 10) as int));
        assert(t.drop_last() =~= t0);
        assert(spec_dec_value(t) == spec_dec_value(t0) * 10 + (n % 10));
        assert(spec_dec_value(t0) * 10 + n % 10 == (n / 10) * 10 + n % 10);
        assert((n / 10) * 10 + n % 10 == n) by {
            vstd::arithmetic::div_mod::lemma_fundamental_div_mod(n as int, 10);
        }
    }
}

proof fn lemma_u64_dec_no_leading_zero(n: nat)
    requires
        n >= 1,
    ensures
        crate::text::spec_u64_dec(n)[0] != '0',
    decreases n,
{
    if n < 10 {
        lemma_digit_val(n as int);
    } else {
        lemma_u64_dec_no_leading_zero(n / 10);
        assert(crate::text::spec_u64_dec(n)[0] == crate::text::spec_u64_dec(n / 10)[0]);
    }
}

proof fn lemma_u64_dec_octet_valid(n: nat)
    requires
        n <= 255,
    ensures
        spec_octet_text_valid(crate::text::spec_u64_dec(n)),
        spec_parse_octet(crate::text::spec_u64_dec(n)) == Some(n as u8),
{
    let t = crate::text::spec_u64_dec(n);
    lemma_u64_dec_digits(n);
    lemma_u64_dec_value(n);
    if n >= 10 {
        assert(t.len() == crate::text::spec_u64_dec(n / 10).len() + 1);
        if n >= 100 {
            assert(crate::text::spec_u64_dec(n / 10).len() == crate::text::spec_u64_dec(
                n / 100,
            ).len() + 1);
            assert(n / 100 < 10);
        }
        lemma_u64_dec_no_leading_zero(n);
    }
}

proof fn lemma_find_in_exact(s: Seq<char>, c: char, from: int, to: int, pos: int)
    requires
        0 <= from <= pos < to <= s.len(),
        s[pos] == c,
        forall|j: int| from <= j < pos ==> s[j] != c,
    ensures
        spec_find_in(s, c, from, to) == pos,
    decreases pos - from,
{
    if from < pos {
        lemma_find_in_exact(s, c, from + 1, to, pos);
    }
}

proof fn lemma_find_in_absent(s: Seq<char>, c: char, from: int, to: int)
    requires
        0 <= from <= to <= s.len(),
        forall|j: int| from <= j < to ==> s[j] != c,
    ensures
        spec_find_in(s, c, from, to) == -1,
    decreases to - from,
{
    if from < to {
        lemma_find_in_absent(s, c, from + 1, to);
    }
}

/// Law: the dotted-quad grammar accepts every canonical rendering and reads
/// the address back out of it — parsing inverts rendering.
pub proof fn lemma_ipv4_round_trip(a: u8, b: u8, c: u8, d: u8)
    ensures
        spec_parse_ipv4(spec_ipv4_text(a, b, c, d)) == Some((a, b, c, d)),
{
    let ta = crate::text::spec_u64_dec(a as nat);
    let tb = crate::text::spec_u64_dec(b as nat);
    let tc = crate::text::spec_u64_dec(c as nat);
    let td = crate::text::spec_u64_dec(d as nat);
    let s = spec_ipv4_text(a, b, c, d);
    let la = ta.len() as int;
    let lb = tb.len() as int;
    let lc = tc.len() as int;
    let ld = td.len() as int;
    let i = la;
    let j = la + 1 + lb;
    let k = la + 1 + lb + 1 + lc;
    let to = s.len() as int;
    lemma_u64_dec_octet_valid(a as nat);
    lemma_u64_dec_octet_valid(b as nat);
    lemma_u64_dec_octet_valid(c as nat);
    lemma_u64_dec_octet_valid(d as nat);
    assert(to == k + 1 + ld);
    assert forall|x: int| 0 <= x < i implies s[x] != '.' by {
        assert(s[x] == ta[x]);
        assert(spec_is_dec_digit(ta[x]));
    }
    assert(s[i] == '.');
    lemma_find_in_exact(s, '.', 0, to, i);
    assert forall|x: int| i + 1 <= x < j implies s[x] != '.' by {
        assert(s[x] == tb[x - (i + 1)]);
        assert(spec_is_dec_digit(tb[x - (i + 1)]));
    }
    assert(s[j] == '.');
    lemma_find_in_exact(s, '.', i + 1, to, j);
    assert forall|x: int| j + 1 <= x < k implies s[x] != '.' by {
        assert(s[x] == tc[x - (j + 1)]);
        assert(spec_is_dec_digit(tc[x - (j + 1)]));
    }
    assert(s[k] == '.');
    lemma_find_in_exact(s, '.', j + 1, to, k);
    assert forall|x: int| k + 1 <= x < to implies s[x] != '.' by {
        assert(s[x] == td[x - (k + 1)]);
        assert(spec_is_dec_digit(td[x - (k + 1)]));
    }
    lemma_find_in_absent(s, '.', k + 1, to);
    assert(s.subrange(0, i) =~= ta);
    assert(s.subrange(i + 1, j) =~= tb);
    assert(s.subrange(j + 1, k) =~= tc);
    assert(s.subrange(k + 1, to) =~= td);
}

/// A hexadecimal digit character.
pub open spec fn spec_is_hex_digit(c: char) -> bool {
    ||| (48 <= c as u32 && c as u32 <= 57)
    ||| (97 <= c as u32 && c as u32 <= 102)
    ||| (65 <= c as u32 && c as u32 <= 70)
}

/// The numeric value of a hexadecimal digit character.
pub open spec fn spec_hex_digit_val(c: char) -> int {
    if 48 <= c as u32 && c as u32 <= 57 {
        c as u32 as int - 48
    } else if 97 <= c as u32 && c as u32 <= 102 {
        c as u32 as int - 87
    } else {
        c as u32 as int - 55
    }
}

/// The numeric value of a run of hexadecimal digit characters, most
/// significant first.
pub open spec fn spec_hex_value(s: Seq<char>) -> int
    decreases s.len(),
{
    if s.len() == 0 {
        0
    } else {
        spec_hex_value(s.drop_last()) * 16 + spec_hex_digit_val(s.last())
    }
}

/// A well-formed 16-bit group of a version-six address: one to four
/// hexadecimal digits.
pub open spec fn spec_hex_group_valid(s: Seq<char>) -> bool {
    &&& 1 <= s.len() <= 4
    &&& (forall|i: int| 0 <= i < s.len() ==> spec_is_hex_digit(#[trigger] s[i]))
}

/// What a well-formed group denotes.
pub open spec fn spec_parse_hex_group(s: Seq<char>) -> Option<u16> {
    if spec_hex_group_valid(s) {
        Some(spec_hex_value(s) as u16)
    } else {
        None
    }
}

/// The position of the first `::` in `s` at or after `from`, or a negative
/// result if there is none.
pub open spec fn spec_find_dd(s: Seq<char>, from: int) -> int
    decreases s.len() - from when from <= s.len()
{
    if from < 0 || from + 1 >= s.len() {
        -1
    } else if s[from] == ':' && s[from + 1] == ':' {
        from
    } else {
        spec_find_dd(s, from + 1)
    }
}

proof fn lemma_find_dd_bounds(s: Seq<char>, from: int)
    requires
        0 <= from <= s.len(),
    ensures
        spec_find_dd(s, from) == -1 || (from <= spec_find_dd(s, from) && spec_find_dd(s, from) + 1
            < s.len()),
    decreases s.len() - from,
{
    if from + 1 < s.len() && !(s[from] == ':' && s[from + 1] == ':') {
        lemma_find_dd_bounds(s, from + 1);
    }
}

/// The groups denoted by colon-separated hexadecimal groups in
/// `s[from..to]`, or nothing where any piece is malformed.
pub open spec fn spec_parse_hex_groups(s: Seq<char>, from: int, to: int) -> Option<Seq<u16>>
    decreases to - from when 0 <= from <= to <= s.len()
{
    let j = spec_find_in(s, ':', from, to);
    if j < 0 {
        match spec_parse_hex_group(s.subrange(from, to)) {
            Some(g) => Some(seq![g]),
            None => None,
        }
    } else if j < from || j >= to {
        None
    } else {
        match (spec_parse_hex_group(s.subrange(from, j)), spec_parse_hex_groups(s, j + 1, to)) {
            (Some(g), Some(rest)) => Some(seq![g] + rest),
            _ => None,
        }
    }
}

/// Like `spec_parse_hex_groups`, but the last piece may instead be a
/// dotted-quad version-four address, which stands for two groups.
pub open spec fn spec_parse_tail_groups(s: Seq<char>, from: int, to: int) -> Option<Seq<u16>>
    decreases to - from when 0 <= from <= to <= s.len()
{
    let j = spec_find_in(s, ':', from, to);
    if j < 0 {
        match spec_parse_hex_group(s.subrange(from, to)) {
            Some(g) => Some(seq![g]),
            None => match spec_parse_ipv4_in(s, from, to) {
                Some((a, b, c, d)) => Some(
                    seq![(a as u16 * 256 + b as u16) as u16, (c as u16 * 256 + d as u16) as u16],
                ),
                None => None,
            },
        }
    } else if j < from || j >= to {
        None
    } else {
        match (spec_parse_hex_group(s.subrange(from, j)), spec_parse_tail_groups(s, j + 1, to)) {
            (Some(g), Some(rest)) => Some(seq![g] + rest),
            _ => None,
        }
    }
}

/// The textual form of a version-six address: eight hexadecimal groups
/// separated by colons, with at most one `::` standing for the missing
/// groups, and optionally a dotted-quad version-four address as the last
/// two groups. The result always holds eight groups.
pub open spec fn spec_parse_ipv6(s: Seq<char>) -> Option<Seq<u16>> {
    let dd = spec_find_dd(s, 0);
    if dd < 0 {
        if s.len() == 0 {
            None
        } else {
            match spec_parse_tail_groups(s, 0, s.len() as int) {
                Some(g) => if g.len() == 8 {
                    Some(g)
                } else {
                    None
                },
                None => None,
            }
        }
    } else {
        let left = if dd == 0 {
            Some(Seq::<u16>::empty())
        } else {
            spec_parse_hex_groups(s, 0, dd)
        };
        let right = if dd + 2 == s.len() {
            Some(Seq::<u16>::empty())
        } else if spec_find_dd(s, dd + 2) >= 0 {
            None
        } else {
            spec_parse_tail_groups(s, dd + 2, s.len() as int)
        };
        match (left, right) {
            (Some(l), Some(r)) => if l.len() + r.len() <= 7 {
                Some(l + Seq::new((8 - l.len() - r.len()) as nat, |i: int| 0u16) + r)
            } else {
                None
            },
            _ => None,
        }
    }
}

/// Finds the first `c` in `s` at or after `from` and before `to`.
fn find_char_in(s: &str, c: char, from: usize, to: usize) -> (r: Option<usize>)
    requires
        from <= to <= s@.len(),
    ensures
        match r {
            Some(i) => i == spec_find_in(s@, c, from as int, to as int),
            None => spec_find_in(s@, c, from as int, to as int) == -1,
        },
{
    let mut i = from;
    while i < to
        invariant
            from <= i <= to <= s@.len(),
            spec_find_in(s@, c, from as int, to as int) == spec_find_in(s@, c, i as int, to as int),
        decreases to - i,
    {
        if s.get_char(i) == c {
            return Some(i);
        }
        i += 1;
    }
    None
}

/// Finds the first `::` in `s` at or after `from`.
fn find_double_colon(s: &str, from: usize) -> (r: Option<usize>)
    requires
        from <= s@.len(),
    ensures
        match r {
            Some(i) => i == spec_find_dd(s@, from as int),
            None => spec_find_dd(s@, from as int) == -1,
        },
{
    let len = s.unicode_len();
    if len < 2 {
        return None;
    }
    let mut i = from;
    while i < len - 1
        invariant
            from <= i <= len,
            2 <= len == s@.len(),
            spec_find_dd(s@, from as int) == spec_find_dd(s@, i as int),
        decreases len - i,
    {
        if s.get_char(i) == ':' && s.get_char(i + 1) == ':' {
            return Some(i);
        }
        i += 1;
    }
    None
}

/// Parses the characters of `s` between `from` and `to` as one group.
fn parse_hex_group_range(s: &str, from: usize, to: usize) -> (r: Option<u16>)
    requires
        from <= to <= s@.len(),
    ensures
        r == spec_parse_hex_group(s@.subrange(from as int, to as int)),
{
    let ghost p = s@.subrange(from as int, to as int);
    let len = to - from;
    if len == 0 || len > 4 {
        return None;
    }
    let mut value: u32 = 0;
    let mut i: usize = 0;
    while i < len
        invariant
            from <= to <= s@.len(),
            p == s@.subrange(from as int, to as int),
            len == to - from,
            1 <= len <= 4,
            i <= len,
            value == spec_hex_value(p.take(i as int)),
            i == 0 ==> value == 0,
            i == 1 ==> value <= 0xf,
            i == 2 ==> value <= 0xff,
            i == 3 ==> value <= 0xfff,
            i == 4 ==> value <= 0xffff,
            forall|j: int| 0 <= j < i ==> spec_is_hex_digit(#[trigger] p[j]),
        decreases len - i,
    {
        let c = s.get_char(from + i);
        proof {
            assert(p[i as int] == c);
        }
        let code = c as u32;
        let digit: u32 = if 48 <= code && code <= 57 {
            code - 48
        } else if 97 <= code && code <= 102 {
            code - 87
        } else if 65 <= code && code <= 70 {
            code - 55
        } else {
            return None;
        };
        proof {
            assert(p.take(i + 1).drop_last() =~= p.take(i as int));
            assert(p.take(i + 1).last() == c);
        }
        value = value * 16 + digit;
        i += 1;
    }
    proof {
        assert(p.take(len as int) =~= p);
    }
    Some(value as u16)
}

/// Parses colon-separated hexadecimal groups in `s[from..to]`.
fn parse_hex_groups_range(s: &str, from: usize, to: usize) -> (r: Option<Vec<u16>>)
    requires
        from <= to <= s@.len(),
    ensures
        match r {
            Some(v) => spec_parse_hex_groups(s@, from as int, to as int) == Some(v@),
            None => spec_parse_hex_groups(s@, from as int, to as int) is None,
        },
    decreases to - from,
{
    match find_char_in(s, ':', from, to) {
        None => {
            match parse_hex_group_range(s, from, to) {
                Some(g) => {
                    let v = vec![g];
                    proof {
                        assert(v@ =~= seq![g]);
                    }
                    Some(v)
                },
                None => None,
            }
        },
        Some(j) => {
            proof {
                lemma_find_in_bounds(s@, ':', from as int, to as int);
            }
            let g = match parse_hex_group_range(s, from, j) {
                Some(g) => g,
                None => {
                    return None;
                },
            };
            match parse_hex_groups_range(s, j + 1, to) {
                Some(rest) => {
                    let mut v = vec![g];
                    let mut rest = rest;
                    v.append(&mut rest);
                    proof {
                        assert(v@ =~= seq![g] + spec_parse_hex_groups(s@, j + 1, to as int)->0);
                    }
                    Some(v)
                },
                None => None,
            }
        },
    }
}

/// Parses colon-separated groups in `s[from..to]` whose last piece may be a
/// dotted-quad version-four address.
fn parse_tail_groups_range(s: &str, from: usize, to: usize) -> (r: Option<Vec<u16>>)
    requires
        from <= to <= s@.len(),
    ensures
        match r {
            Some(v) => spec_parse_tail_groups(s@, from as int, to as int) == Some(v@),
            None => spec_parse_tail_groups(s@, from as int, to as int) is None,
        },
    decreases to - from,
{
    match find_char_in(s, ':', from, to) {
        None => {
            if let Some(g) = parse_hex_group_range(s, from, to) {
                let v = vec![g];
                proof {
                    assert(v@ =~= seq![g]);
                }
                return Some(v);
            }
            match parse_ipv4_range(s, from, to) {
                Some((a, b, c, d)) => {
                    let hi: u16 = (a as u16) * 256 + (b as u16);
                    let lo: u16 = (c as u16) * 256 + (d as u16);
                    let v = vec![hi, lo];
                    proof {
                        assert(v@ =~= seq![hi, lo]);
                    }
                    Some(v)
                },
                None => None,
            }
        },
        Some(j) => {
            proof {
                lemma_find_in_bounds(s@, ':', from as int, to as int);
            }
            let g = match parse_hex_group_range(s, from, j) {
                Some(g) => g,
                None => {
                    return None;
                },
            };
            match parse_tail_groups_range(s, j + 1, to) {
                Some(rest) => {
                    let mut v = vec![g];
                    let mut rest = rest;
                    v.append(&mut rest);
                    proof {
                        assert(v@ =~= seq![g] + spec_parse_tail_groups(s@, j + 1, to as int)->0);
                    }
                    Some(v)
                },
                None => None,
            }
        },
    }
}

/// Parses a textual version-six address into its eight groups.
pub fn parse_ipv6(s: &str) -> (r: Option<Vec<u16>>)
    ensures
        match r {
            Some(v) => spec_parse_ipv6(s@) == Some(v@) && v@.len() == 8,
            None => spec_parse_ipv6(s@) is None,
        },
{
    let len = s.unicode_len();
    match find_double_colon(s, 0) {
        None => {
            if len == 0 {
                return None;
            }
            match parse_tail_groups_range(s, 0, len) {
                Some(v) => {
                    if v.len() == 8 {
                        Some(v)
                    } else {
                        None
                    }
                },
                None => None,
            }
        },
        Some(dd) => {
            proof {
                lemma_find_dd_bounds(s@, 0);
            }
            let left: Vec<u16> = if dd == 0 {
                Vec::new()
            } else {
                match parse_hex_groups_range(s, 0, dd) {
                    Some(v) => v,
                    None => {
                        return None;
                    },
                }
            };
            let right: Vec<u16> = if dd + 2 == len {
                Vec::new()
            } else {
                if let Some(_) = find_double_colon(s, dd + 2) {
                    return None;
                }
                match parse_tail_groups_range(s, dd + 2, len) {
                    Some(v) => v,
                    None => {
                        return None;
                    },
                }
            };
            if left.len() > 7 || right.len() > 7 - left.len() {
                return None;
            }
            let fill = 8 - left.len() - right.len();
            let mut v = left;
            let mut k: usize = 0;
            let ghost l = v@;
            while k < fill
                invariant
                    k <= fill,
                    v@ == l + Seq::new(k as nat, |i: int| 0u16),
                decreases fill - k,
            {
                v.push(0);
                proof {
                    assert(v@ =~= l + Seq::new((k + 1) as nat, |i: int| 0u16));
                }
                k += 1;
            }
            let mut right = right;
            let ghost rv = right@;
            v.append(&mut right);
            proof {
                assert(v@ =~= l + Seq::new(fill as nat, |i: int| 0u16) + rv);
            }
            Some(v)
        },
    }
}

/// The address, if any, that a host or bind string denotes as a literal:
/// a dotted-quad version-four address, or a version-six address.
pub open spec fn spec_parse_ip(s: Seq<char>) -> Option<IpAddress> {
    match spec_parse_ipv4(s) {
        Some((a, b, c, d)) => Some(IpAddress::V4(a, b, c, d)),
        None => match spec_parse_ipv6(s) {
            Some(g) => Some(IpAddress::V6(g[0], g[1], g[2], g[3], g[4], g[5], g[6], g[7])),
            None => None,
        },
    }
}

/// Parses a host or bind string as a literal IP address.
pub fn parse_ip(s: &str) -> (r: Option<IpAddress>)
    ensures
        r == spec_parse_ip(s@),
{
    if let Some((a, b, c, d)) = parse_ipv4(s) {
        return Some(IpAddress::V4(a, b, c, d));
    }
    match parse_ipv6(s) {
        Some(v) => Some(IpAddress::V6(v[0], v[1], v[2], v[3], v[4], v[5], v[6], v[7])),
        None => None,
    }
}

} // verus!
