//! Parsing IP addresses from text. An IPv4 address is four decimal octets
//! separated by dots, each 0 to 255, without leading zeroes. An IPv6 address
//! is eight groups of one to four hexadecimal digits separated by colons; one
//! `::` may stand for a run of zero groups, and an embedded IPv4 address may
//! close the text, standing for the last two groups. A string with a colon is
//! read as IPv6, any other as IPv4.

use vstd::prelude::*;
use crate::addr::IpAddress;

verus! {

/// Whether the character is a decimal digit.
pub open spec fn spec_is_digit(c: char) -> bool {
    48 <= c as u32 <= 57
}

/// The value of a decimal digit.
pub open spec fn spec_digit_val(c: char) -> int {
    c as u32 - 48
}

/// Whether the character is a hexadecimal digit.
pub open spec fn spec_is_hex(c: char) -> bool {
    ||| 48 <= c as u32 <= 57
    ||| 97 <= c as u32 <= 102
    ||| 65 <= c as u32 <= 70
}

/// The value of a hexadecimal digit.
pub open spec fn spec_hex_val(c: char) -> int {
    if 48 <= c as u32 <= 57 {
        c as u32 - 48
    } else if 97 <= c as u32 <= 102 {
        c as u32 - 87
    } else {
        c as u32 - 55
    }
}

/// A decimal octet: one to three digits, no leading zero, value at most 255.
pub open spec fn spec_parse_octet(s: Seq<char>) -> Option<u8> {
    if s.len() == 1 && spec_is_digit(s[0]) {
        Some(spec_digit_val(s[0]) as u8)
    } else if s.len() == 2 && spec_is_digit(s[0]) && spec_is_digit(s[1]) && s[0] != '0' {
        Some((spec_digit_val(s[0]) * 10 + spec_digit_val(s[1])) as u8)
    } else if s.len() == 3 && spec_is_digit(s[0]) && spec_is_digit(s[1]) && spec_is_digit(s[2])
        && s[0] != '0' && spec_digit_val(s[0]) * 100 + spec_digit_val(s[1]) * 10 + spec_digit_val(
        s[2],
    ) <= 255 {
        Some((spec_digit_val(s[0]) * 100 + spec_digit_val(s[1]) * 10 + spec_digit_val(s[2])) as u8)
    } else {
        None
    }
}

/// A hexadecimal group: one to four hexadecimal digits.
pub open spec fn spec_parse_group(s: Seq<char>) -> Option<u16> {
    if s.len() == 1 && spec_is_hex(s[0]) {
        Some(spec_hex_val(s[0]) as u16)
    } else if s.len() == 2 && spec_is_hex(s[0]) && spec_is_hex(s[1]) {
        Some((spec_hex_val(s[0]) * 16 + spec_hex_val(s[1])) as u16)
    } else if s.len() == 3 && spec_is_hex(s[0]) && spec_is_hex(s[1]) && spec_is_hex(s[2]) {
        Some((spec_hex_val(s[0]) * 256 + spec_hex_val(s[1]) * 16 + spec_hex_val(s[2])) as u16)
    } else if s.len() == 4 && spec_is_hex(s[0]) && spec_is_hex(s[1]) && spec_is_hex(s[2])
        && spec_is_hex(s[3]) {
        Some(
            (spec_hex_val(s[0]) * 4096 + spec_hex_val(s[1]) * 256 + spec_hex_val(s[2]) * 16
                + spec_hex_val(s[3])) as u16,
        )
    } else {
        None
    }
}

/// The index of the first occurrence of the character, or the length when it
/// does not occur.
pub open spec fn spec_find(s: Seq<char>, c: char) -> int
    decreases s.len(),
{
    if s.len() == 0 {
        0
    } else if s.first() == c {
        0
    } else {
        1 + spec_find(s.drop_first(), c)
    }
}

/// What the first occurrence means: nothing before it is the character, and
/// it is the character unless the character does not occur at all.
pub proof fn lemma_find(s: Seq<char>, c: char)
    ensures
        0 <= spec_find(s, c) <= s.len(),
        spec_find(s, c) < s.len() ==> s[spec_find(s, c)] == c,
        forall|k: int| 0 <= k < spec_find(s, c) ==> s[k] != c,
    decreases s.len(),
{
    if s.len() > 0 && s.first() != c {
        lemma_find(s.drop_first(), c);
        let i = spec_find(s, c);
        assert forall|k: int| 0 <= k < i implies s[k] != c by {
            if k > 0 {
                assert(s.drop_first()[k - 1] != c);
            }
        }
    }
}

/// The first occurrence is pinned by its meaning.
pub proof fn lemma_find_is(s: Seq<char>, c: char, i: int)
    requires
        0 <= i <= s.len(),
        i < s.len() ==> s[i] == c,
        forall|k: int| 0 <= k < i ==> s[k] != c,
        i == s.len() ==> forall|k: int| 0 <= k < s.len() ==> s[k] != c,
    ensures
        spec_find(s, c) == i,
{
    lemma_find(s, c);
    let f = spec_find(s, c);
    if f < i {
        assert(s[f] == c);
    } else if i < f {
        assert(s[i] != c);
    }
}

/// The four octets of a dotted quad, read left to right: `groups` octets
/// remain, the last of them running to the end of the text.
pub open spec fn spec_parse_ipv4_parts(s: Seq<char>, groups: nat) -> Option<Seq<u8>>
    decreases groups,
{
    if groups <= 1 {
        match spec_parse_octet(s) {
            Some(v) => Some(seq![v]),
            None => None,
        }
    } else {
        let i = spec_find(s, '.');
        if i == s.len() {
            None
        } else {
            match spec_parse_octet(s.take(i)) {
                Some(v) => match spec_parse_ipv4_parts(s.skip(i + 1), (groups - 1) as nat) {
                    Some(rest) => Some(seq![v] + rest),
                    None => None,
                },
                None => None,
            }
        }
    }
}

/// The numeric value of four octets.
pub open spec fn spec_ipv4_value(p: Seq<u8>) -> u32 {
    (p[0] * 0x1000000 + p[1] * 0x10000 + p[2] * 0x100 + p[3]) as u32
}

/// An IPv4 address: four octets, and their value.
pub open spec fn spec_parse_ipv4(s: Seq<char>) -> Option<u32> {
    match spec_parse_ipv4_parts(s, 4) {
        Some(p) => Some(spec_ipv4_value(p)),
        None => None,
    }
}

/// Whether the text holds a `::`.
pub open spec fn spec_has_dc(s: Seq<char>) -> bool {
    exists|i: int| 0 <= i && i + 1 < s.len() && #[trigger] s[i] == ':' && s[i + 1] == ':'
}

/// The index of the first `::`, or the length when there is none.
pub open spec fn spec_find_dc(s: Seq<char>) -> int
    decreases s.len(),
{
    if s.len() < 2 {
        s.len() as int
    } else if s[0] == ':' && s[1] == ':' {
        0
    } else {
        1 + spec_find_dc(s.drop_first())
    }
}

/// What the first `::` means.
pub proof fn lemma_find_dc(s: Seq<char>)
    ensures
        0 <= spec_find_dc(s) <= s.len(),
        spec_find_dc(s) + 1 < s.len() ==> s[spec_find_dc(s)] == ':' && s[spec_find_dc(s) + 1] == ':',
        spec_find_dc(s) + 1 >= s.len() ==> spec_find_dc(s) == s.len() && !spec_has_dc(s),
        forall|k: int| 0 <= k < spec_find_dc(s) && k + 1 < s.len()
            ==> !(#[trigger] s[k] == ':' && s[k + 1] == ':'),
    decreases s.len(),
{
    if s.len() >= 2 && !(s[0] == ':' && s[1] == ':') {
        lemma_find_dc(s.drop_first());
        let d = spec_find_dc(s);
        assert forall|k: int| 0 <= k < d && k + 1 < s.len()
            implies !(#[trigger] s[k] == ':' && s[k + 1] == ':') by {
            if k > 0 {
                assert(s.drop_first()[k - 1] == s[k]);
                assert(s.drop_first()[k] == s[k + 1]);
                assert(!(s.drop_first()[k - 1] == ':' && s.drop_first()[k] == ':'));
            }
        }
        if spec_find_dc(s.drop_first()) + 1 >= s.drop_first().len() {
            assert(d == s.len());
            assert forall|i: int| 0 <= i && i + 1 < s.len() implies !(#[trigger] s[i] == ':' && s[i
                + 1] == ':') by {
                if i > 0 {
                    assert(!(s.drop_first()[i - 1] == ':' && s.drop_first()[i] == ':'));
                    assert(s.drop_first()[i - 1] == s[i]);
                    assert(s.drop_first()[i] == s[i + 1]);
                }
            }
        }
    } else if s.len() < 2 {
        assert forall|i: int| 0 <= i && i + 1 < s.len() implies !(#[trigger] s[i] == ':' && s[i + 1]
            == ':') by {}
    }
}

/// The text split at every colon; a trailing or doubled colon yields an empty
/// part.
pub open spec fn spec_split_colon(s: Seq<char>) -> Seq<Seq<char>>
    decreases s.len(),
{
    let i = spec_find(s, ':');
    if 0 <= i && i < s.len() {
        seq![s.take(i)] + spec_split_colon(s.skip(i + 1))
    } else {
        seq![s]
    }
}

/// Whether every part is a hexadecimal group.
pub open spec fn spec_groups_valid(parts: Seq<Seq<char>>) -> bool {
    forall|k: int| 0 <= k < parts.len() ==> spec_parse_group(#[trigger] parts[k]) is Some
}

/// The values of the parts, each a hexadecimal group.
pub open spec fn spec_group_vals(parts: Seq<Seq<char>>) -> Seq<u16> {
    parts.map_values(|p: Seq<char>| spec_parse_group(p)->0)
}

/// The numeric value of eight groups.
pub open spec fn spec_ipv6_value(g: Seq<u16>) -> u128 {
    (g[0] * 0x10000000000000000000000000000 + g[1] * 0x1000000000000000000000000 + g[2]
        * 0x100000000000000000000 + g[3] * 0x10000000000000000 + g[4] * 0x1000000000000 + g[5]
        * 0x100000000 + g[6] * 0x10000 + g[7]) as u128
}

/// A trailing embedded IPv4 address: its dotted quad as the last two groups.
pub open spec fn spec_parse_tail_v4(p: Seq<char>) -> Option<Seq<u16>> {
    match spec_parse_ipv4(p) {
        Some(v) => Some(seq![(v / 0x10000) as u16, (v % 0x10000) as u16]),
        None => None,
    }
}

/// An IPv6 address. Without `::` the text is eight groups, or six groups and
/// a trailing embedded IPv4 address standing for the last two. With one `::`
/// the groups to its left and right are read, a trailing embedded IPv4
/// address again counting as two, together at most seven, and the missing
/// groups in between are zero; a second `::`, or an empty part on either
/// side, rejects the text.
pub open spec fn spec_parse_ipv6(s: Seq<char>) -> Option<u128> {
    if !spec_has_dc(s) {
        let parts = spec_split_colon(s);
        if parts.len() == 8 && spec_groups_valid(parts) {
            Some(spec_ipv6_value(spec_group_vals(parts)))
        } else if parts.len() == 7 && spec_groups_valid(parts.drop_last())
            && spec_parse_tail_v4(parts.last()) is Some {
            Some(spec_ipv6_value(
                spec_group_vals(parts.drop_last()) + spec_parse_tail_v4(parts.last())->0,
            ))
        } else {
            None
        }
    } else {
        let d = spec_find_dc(s);
        let left = s.take(d);
        let right = s.skip(d + 2);
        let lparts = if left.len() == 0 {
            Seq::<Seq<char>>::empty()
        } else {
            spec_split_colon(left)
        };
        let rparts = if right.len() == 0 {
            Seq::<Seq<char>>::empty()
        } else {
            spec_split_colon(right)
        };
        if !spec_has_dc(right) && lparts.len() + rparts.len() <= 7 && spec_groups_valid(lparts)
            && spec_groups_valid(rparts) {
            let zeros = Seq::<u16>::new((8 - lparts.len() - rparts.len()) as nat, |i: int| 0u16);
            Some(spec_ipv6_value(spec_group_vals(lparts) + zeros + spec_group_vals(rparts)))
        } else if rparts.len() >= 1 && !spec_has_dc(right) && lparts.len() + rparts.len() + 1 <= 7
            && spec_groups_valid(lparts) && spec_groups_valid(rparts.drop_last())
            && spec_parse_tail_v4(rparts.last()) is Some {
            let zeros = Seq::<u16>::new(
                (7 - lparts.len() - rparts.len()) as nat,
                |i: int| 0u16,
            );
            Some(spec_ipv6_value(
                spec_group_vals(lparts) + zeros + spec_group_vals(rparts.drop_last())
                    + spec_parse_tail_v4(rparts.last())->0,
            ))
        } else {
            None
        }
    }
}

/// An IP address in text: with a colon the text is read as IPv6, otherwise
/// as IPv4.
pub open spec fn spec_parse_ip(s: Seq<char>) -> Option<IpAddress> {
    if spec_find(s, ':') < s.len() {
        match spec_parse_ipv6(s) {
            Some(v) => Some(IpAddress::V6(v)),
            None => None,
        }
    } else {
        match spec_parse_ipv4(s) {
            Some(v) => Some(IpAddress::V4(v)),
            None => None,
        }
    }
}

/// The characters of the text, one by one.
pub fn chars_of(s: &str) -> (r: Vec<char>)
    ensures
        r@ == s@,
{
    let n = s.unicode_len();
    let mut r: Vec<char> = Vec::new();
    let mut i: usize = 0;
    while i < n
        invariant
            n == s@.len(),
            0 <= i <= n,
            r@ == s@.subrange(0, i as int),
        decreases n - i,
    {
        r.push(s.get_char(i));
        proof {
            assert(r@ =~= s@.subrange(0, i + 1));
        }
        i = i + 1;
    }
    proof {
        assert(s@.subrange(0, n as int) =~= s@);
    }
    r
}

/// Whether the character is a decimal digit.
fn is_digit(c: char) -> (r: bool)
    ensures
        r == spec_is_digit(c),
{
    let u = c as u32;
    48 <= u && u <= 57
}

/// Whether the character is a hexadecimal digit.
fn is_hex(c: char) -> (r: bool)
    ensures
        r == spec_is_hex(c),
{
    let u = c as u32;
    (48 <= u && u <= 57) || (97 <= u && u <= 102) || (65 <= u && u <= 70)
}

/// The value of a hexadecimal digit.
fn hex_val(c: char) -> (r: u32)
    requires
        spec_is_hex(c),
    ensures
        r == spec_hex_val(c),
{
    let u = c as u32;
    if 48 <= u && u <= 57 {
        u - 48
    } else if 97 <= u && u <= 102 {
        u - 87
    } else {
        u - 55
    }
}

/// The index of the first occurrence of the character at or after `start`,
/// or the length when it does not occur there.
fn find_char_from(v: &Vec<char>, start: usize, c: char) -> (r: usize)
    requires
        start <= v@.len(),
    ensures
        start <= r <= v@.len(),
        r - start == spec_find(v@.skip(start as int), c),
        r < v@.len() ==> v@[r as int] == c,
{
    let n = v.len();
    let mut i: usize = start;
    while i < n
        invariant
            start <= i <= n,
            n == v@.len(),
            forall|k: int| start <= k < i ==> v@[k] != c,
        decreases n - i,
    {
        if v[i] == c {
            proof {
                let s = v@.skip(start as int);
                lemma_find_is(s, c, i - start);
            }
            return i;
        }
        i = i + 1;
    }
    proof {
        let s = v@.skip(start as int);
        lemma_find_is(s, c, n - start);
    }
    n
}

/// The characters between the two indices.
fn subvec(v: &Vec<char>, start: usize, end: usize) -> (r: Vec<char>)
    requires
        start <= end <= v@.len(),
    ensures
        r@ == v@.subrange(start as int, end as int),
{
    let mut r: Vec<char> = Vec::new();
    let mut i: usize = start;
    while i < end
        invariant
            start <= i <= end,
            end <= v@.len(),
            r@ == v@.subrange(start as int, i as int),
        decreases end - i,
    {
        r.push(v[i]);
        proof {
            assert(r@ =~= v@.subrange(start as int, i + 1));
        }
        i = i + 1;
    }
    r
}

/// Read a decimal octet between the two indices.
fn parse_octet_range(v: &Vec<char>, start: usize, end: usize) -> (r: Option<u8>)
    requires
        start <= end <= v@.len(),
    ensures
        r == spec_parse_octet(v@.subrange(start as int, end as int)),
{
    let len = end - start;
    if len == 1 && is_digit(v[start]) {
        Some((v[start] as u32 - 48) as u8)
    } else if len == 2 && is_digit(v[start]) && is_digit(v[start + 1]) && v[start] != '0' {
        let val = (v[start] as u32 - 48) * 10 + (v[start + 1] as u32 - 48);
        Some(val as u8)
    } else if len == 3 && is_digit(v[start]) && is_digit(v[start + 1]) && is_digit(v[start + 2])
        && v[start] != '0' {
        let val = (v[start] as u32 - 48) * 100 + (v[start + 1] as u32 - 48) * 10 + (v[start
            + 2] as u32 - 48);
        if val <= 255 {
            Some(val as u8)
        } else {
            None
        }
    } else {
        None
    }
}

/// Read a hexadecimal group of the whole vector.
fn parse_group(v: &Vec<char>) -> (r: Option<u16>)
    ensures
        r == spec_parse_group(v@),
{
    let len = v.len();
    if len == 1 && is_hex(v[0]) {
        Some(hex_val(v[0]) as u16)
    } else if len == 2 && is_hex(v[0]) && is_hex(v[1]) {
        Some((hex_val(v[0]) * 16 + hex_val(v[1])) as u16)
    } else if len == 3 && is_hex(v[0]) && is_hex(v[1]) && is_hex(v[2]) {
        Some((hex_val(v[0]) * 256 + hex_val(v[1]) * 16 + hex_val(v[2])) as u16)
    } else if len == 4 && is_hex(v[0]) && is_hex(v[1]) && is_hex(v[2]) && is_hex(v[3]) {
        Some((hex_val(v[0]) * 4096 + hex_val(v[1]) * 256 + hex_val(v[2]) * 16 + hex_val(v[3])) as u16)
    } else {
        None
    }
}

/// Read the remaining octets of a dotted quad, from `start` to the end.
fn parse_ipv4_from(v: &Vec<char>, start: usize, groups: u8) -> (r: Option<Vec<u8>>)
    requires
        start <= v@.len(),
        1 <= groups,
    ensures
        match spec_parse_ipv4_parts(v@.skip(start as int), groups as nat) {
            Some(p) => r matches Some(q) && q@ == p,
            None => r is None,
        },
    decreases groups,
{
    let ghost s = v@.skip(start as int);
    if groups == 1 {
        proof {
            assert(s =~= v@.subrange(start as int, v@.len() as int));
        }
        match parse_octet_range(v, start, v.len()) {
            Some(o) => {
                let mut out: Vec<u8> = Vec::new();
                out.push(o);
                proof {
                    assert(out@ =~= seq![o]);
                }
                Some(out)
            },
            None => None,
        }
    } else {
        let j = find_char_from(v, start, '.');
        if j == v.len() {
            proof {
                assert(spec_find(s, '.') == s.len());
            }
            None
        } else {
            proof {
                let i = spec_find(s, '.');
                assert(i == j - start);
                assert(s.take(i) =~= v@.subrange(start as int, j as int));
            }
            match parse_octet_range(v, start, j) {
                Some(o) => {
                    proof {
                        let i = spec_find(s, '.');
                        assert(s.skip(i + 1) =~= v@.skip(j + 1));
                    }
                    match parse_ipv4_from(v, j + 1, groups - 1) {
                        Some(mut rest) => {
                            let mut out: Vec<u8> = Vec::new();
                            out.push(o);
                            out.append(&mut rest);
                            proof {
                                let i = spec_find(s, '.');
                                let spec_rest = spec_parse_ipv4_parts(
                                    s.skip(i + 1),
                                    (groups - 1) as nat,
                                );
                                assert(out@ =~= seq![o] + spec_rest->0);
                            }
                            Some(out)
                        },
                        None => None,
                    }
                },
                None => None,
            }
        }
    }
}

/// Read a whole dotted quad.
fn parse_ipv4(v: &Vec<char>) -> (r: Option<u32>)
    ensures
        r == spec_parse_ipv4(v@),
{
    proof {
        assert(v@.skip(0) =~= v@);
    }
    match parse_ipv4_from(v, 0, 4) {
        Some(p) => {
            let ghost sp = spec_parse_ipv4_parts(v@, 4)->0;
            proof {
                assert(p@ == sp);
                assert(sp.len() == 4) by {
                    lemma_ipv4_parts_len(v@, 4);
                }
            }
            let val: u32 = (p[0] as u32) * 0x1000000 + (p[1] as u32) * 0x10000 + (p[2] as u32)
                * 0x100 + (p[3] as u32);
            Some(val)
        },
        None => None,
    }
}

/// A successful read of a dotted quad yields as many octets as were asked
/// for.
proof fn lemma_ipv4_parts_len(s: Seq<char>, groups: nat)
    requires
        1 <= groups,
        spec_parse_ipv4_parts(s, groups) is Some,
    ensures
        spec_parse_ipv4_parts(s, groups)->0.len() == groups,
    decreases groups,
{
    if groups > 1 {
        let i = spec_find(s, '.');
        if i != s.len() && spec_parse_octet(s.take(i)) is Some {
            lemma_ipv4_parts_len(s.skip(i + 1), (groups - 1) as nat);
        }
    }
}

/// The index of the first `::`, or the length when there is none.
fn find_dc(v: &Vec<char>) -> (r: usize)
    ensures
        r == spec_find_dc(v@),
        (r == v@.len()) == !spec_has_dc(v@),
{
    let n = v.len();
    proof {
        lemma_find_dc(v@);
    }
    if n < 2 {
        proof {
            lemma_find_dc_is(v@, n as int);
        }
        return n;
    }
    let mut i: usize = 0;
    while i + 1 < n
        invariant
            n == v@.len(),
            n >= 2,
            0 <= i < n,
            forall|k: int| 0 <= k < i ==> !(#[trigger] v@[k] == ':' && v@[k + 1] == ':'),
        decreases n - i,
    {
        if v[i] == ':' && v[i + 1] == ':' {
            proof {
                lemma_find_dc_is(v@, i as int);
            }
            return i;
        }
        i = i + 1;
    }
    proof {
        lemma_find_dc_is(v@, n as int);
    }
    n
}

/// The first `::` is pinned by its meaning.
proof fn lemma_find_dc_is(s: Seq<char>, i: int)
    requires
        0 <= i <= s.len(),
        i < s.len() ==> i + 1 < s.len() && s[i] == ':' && s[i + 1] == ':',
        forall|k: int| 0 <= k < i && k + 1 < s.len()
            ==> !(#[trigger] s[k] == ':' && s[k + 1] == ':'),
    ensures
        spec_find_dc(s) == i,
        (i == s.len()) == !spec_has_dc(s),
{
    lemma_find_dc(s);
    let f = spec_find_dc(s);
    if i < s.len() {
        assert(spec_has_dc(s));
        if f < i {
            assert(!(s[f] == ':' && s[f + 1] == ':'));
        } else if i < f {
            assert(!(s[i] == ':' && s[i + 1] == ':'));
        }
    } else {
        assert(!spec_has_dc(s));
        if f + 1 < s.len() {
            assert(s[f] == ':' && s[f + 1] == ':');
            assert(spec_has_dc(s));
        }
    }
}

/// Split the text at every colon, from `start` to the end.
fn split_colon_from(v: &Vec<char>, start: usize) -> (r: Vec<Vec<char>>)
    requires
        start <= v@.len(),
    ensures
        r@.map_values(|p: Vec<char>| p@) == spec_split_colon(v@.skip(start as int)),
        r@.len() >= 1,
    decreases v@.len() - start,
{
    let ghost s = v@.skip(start as int);
    let j = find_char_from(v, start, ':');
    if j == v.len() {
        proof {
            assert(spec_find(s, ':') == s.len());
            assert(s =~= v@.subrange(start as int, v@.len() as int));
        }
        let part = subvec(v, start, v.len());
        let mut r: Vec<Vec<char>> = Vec::new();
        r.push(part);
        proof {
            assert(r@.map_values(|p: Vec<char>| p@) =~= seq![s]);
        }
        r
    } else {
        proof {
            let i = spec_find(s, ':');
            assert(i == j - start);
            assert(0 <= i && i < s.len());
            assert(s.take(i) =~= v@.subrange(start as int, j as int));
            assert(s.skip(i + 1) =~= v@.skip(j + 1));
        }
        let part = subvec(v, start, j);
        let mut rest = split_colon_from(v, j + 1);
        let mut r: Vec<Vec<char>> = Vec::new();
        r.push(part);
        r.append(&mut rest);
        proof {
            let i = spec_find(s, ':');
            assert(r@.map_values(|p: Vec<char>| p@) =~= seq![s.take(i)] + spec_split_colon(
                s.skip(i + 1),
            ));
        }
        r
    }
}

/// Read every part as a hexadecimal group; the first part that is no group
/// rejects the whole list.
fn parse_groups(parts: &Vec<Vec<char>>) -> (r: Option<Vec<u16>>)
    ensures
        ({
            let views = parts@.map_values(|p: Vec<char>| p@);
            if spec_groups_valid(views) {
                r matches Some(g) && g@ == spec_group_vals(views)
            } else {
                r is None
            }
        }),
{
    let ghost views = parts@.map_values(|p: Vec<char>| p@);
    let n = parts.len();
    let mut out: Vec<u16> = Vec::new();
    let mut i: usize = 0;
    while i < n
        invariant
            n == parts@.len(),
            n == views.len(),
            views == parts@.map_values(|p: Vec<char>| p@),
            0 <= i <= n,
            out@.len() == i,
            forall|k: int| 0 <= k < i ==> spec_parse_group(#[trigger] views[k]) is Some,
            forall|k: int| 0 <= k < i ==> out@[k] == spec_parse_group(#[trigger] views[k])->0,
        decreases n - i,
    {
        proof {
            assert(views[i as int] == parts@[i as int]@);
        }
        match parse_group(&parts[i]) {
            Some(g) => {
                out.push(g);
            },
            None => {
                proof {
                    assert(!spec_groups_valid(views));
                }
                return None;
            },
        }
        i = i + 1;
    }
    proof {
        assert(out@ =~= spec_group_vals(views));
    }
    Some(out)
}

/// The numeric value of eight groups.
fn ipv6_value(g: &Vec<u16>) -> (r: u128)
    requires
        g@.len() == 8,
    ensures
        r == spec_ipv6_value(g@),
{
    (g[0] as u128) * 0x10000000000000000000000000000 + (g[1] as u128) * 0x1000000000000000000000000
        + (g[2] as u128) * 0x100000000000000000000 + (g[3] as u128) * 0x10000000000000000 + (
    g[4] as u128) * 0x1000000000000 + (g[5] as u128) * 0x100000000 + (g[6] as u128) * 0x10000 + (
    g[7] as u128)
}

/// The last two groups an embedded IPv4 tail stands for.
fn tail_groups(part: &Vec<char>) -> (r: Option<(u16, u16)>)
    ensures
        match spec_parse_tail_v4(part@) {
            Some(t) => r matches Some(p) && t == seq![p.0, p.1],
            None => r is None,
        },
{
    match parse_ipv4(part) {
        Some(v) => Some(((v / 0x10000) as u16, (v % 0x10000) as u16)),
        None => None,
    }
}

/// The groups of an address laid out in order: the leading groups, the run
/// of zeros, then the trailing groups.
fn assemble_groups(lv: &Vec<u16>, zeros: usize, rv: &Vec<u16>) -> (r: Vec<u16>)
    ensures
        r@ == lv@ + Seq::new(zeros as nat, |i: int| 0u16) + rv@,
{
    let mut groups: Vec<u16> = Vec::new();
    let lcount = lv.len();
    let rcount = rv.len();
    let mut i: usize = 0;
    while i < lcount
        invariant
            0 <= i <= lcount,
            lcount == lv@.len(),
            groups@ == lv@.subrange(0, i as int),
        decreases lcount - i,
    {
        groups.push(lv[i]);
        proof {
            assert(groups@ =~= lv@.subrange(0, i + 1));
        }
        i = i + 1;
    }
    proof {
        assert(lv@.subrange(0, lcount as int) =~= lv@);
    }
    let mut z: usize = 0;
    while z < zeros
        invariant
            0 <= z <= zeros,
            groups@.len() == lv@.len() + z,
            groups@ == lv@ + Seq::new(z as nat, |k: int| 0u16),
        decreases zeros - z,
    {
        groups.push(0);
        proof {
            assert(groups@ =~= lv@ + Seq::new((z + 1) as nat, |k: int| 0u16));
        }
        z = z + 1;
    }
    let mut j: usize = 0;
    while j < rcount
        invariant
            0 <= j <= rcount,
            rcount == rv@.len(),
            groups@ == lv@ + Seq::new(zeros as nat, |k: int| 0u16) + rv@.subrange(0, j as int),
        decreases rcount - j,
    {
        groups.push(rv[j]);
        proof {
            assert(groups@ =~= lv@ + Seq::new(zeros as nat, |k: int| 0u16) + rv@.subrange(
                0,
                j + 1,
            ));
        }
        j = j + 1;
    }
    proof {
        assert(rv@.subrange(0, rcount as int) =~= rv@);
    }
    groups
}

/// Read a whole IPv6 address.
#[verifier::rlimit(60)]
fn parse_ipv6(v: &Vec<char>) -> (r: Option<u128>)
    ensures
        r == spec_parse_ipv6(v@),
{
    let n = v.len();
    let d = find_dc(v);
    if d == n {
        proof {
            assert(v@.skip(0) =~= v@);
        }
        let mut parts = split_colon_from(v, 0);
        if parts.len() == 8 {
            match parse_groups(&parts) {
                Some(g) => Some(ipv6_value(&g)),
                None => None,
            }
        } else if parts.len() == 7 {
            let ghost views = parts@.map_values(|p: Vec<char>| p@);
            let last = match parts.pop() {
                Some(l) => l,
                None => {
                    return None;
                },
            };
            proof {
                assert(parts@.map_values(|p: Vec<char>| p@) =~= views.drop_last());
                assert(last@ == views.last());
            }
            match (parse_groups(&parts), tail_groups(&last)) {
                (Some(g6), Some((hi, lo))) => {
                    let mut tail: Vec<u16> = Vec::new();
                    tail.push(hi);
                    tail.push(lo);
                    proof {
                        assert(tail@ =~= seq![hi, lo]);
                    }
                    let groups = assemble_groups(&g6, 0, &tail);
                    proof {
                        assert(groups@ =~= spec_group_vals(views.drop_last())
                            + spec_parse_tail_v4(views.last())->0);
                    }
                    Some(ipv6_value(&groups))
                },
                _ => None,
            }
        } else {
            None
        }
    } else {
        proof {
            lemma_find_dc(v@);
        }
        let left = subvec(v, 0, d);
        let right = subvec(v, d + 2, n);
        proof {
            assert(left@ =~= v@.take(d as int));
            assert(right@ =~= v@.skip(d + 2));
        }
        let rdc = find_dc(&right);
        if rdc != right.len() {
            return None;
        }
        let lparts: Vec<Vec<char>> = if left.len() == 0 {
            Vec::new()
        } else {
            split_colon_from(&left, 0)
        };
        let mut rparts: Vec<Vec<char>> = if right.len() == 0 {
            Vec::new()
        } else {
            split_colon_from(&right, 0)
        };
        proof {
            if left@.len() != 0 {
                assert(left@.skip(0) =~= left@);
            }
            if right@.len() != 0 {
                assert(right@.skip(0) =~= right@);
            }
            if left@.len() == 0 {
                assert(lparts@.map_values(|p: Vec<char>| p@) =~= Seq::<Seq<char>>::empty());
            }
            if right@.len() == 0 {
                assert(rparts@.map_values(|p: Vec<char>| p@) =~= Seq::<Seq<char>>::empty());
            }
        }
        let lv = match parse_groups(&lparts) {
            Some(g) => g,
            None => {
                return None;
            },
        };
        let lc = lparts.len();
        let rc = rparts.len();
        if lc <= 7 && rc <= 7 - lc {
            if let Some(rv) = parse_groups(&rparts) {
                let zeros = 8 - lc - rc;
                let groups = assemble_groups(&lv, zeros, &rv);
                return Some(ipv6_value(&groups));
            }
        }
        // The plain reading failed: try a trailing embedded IPv4 address.
        if rc == 0 || lc > 6 || rc > 6 - lc {
            return None;
        }
        let ghost rviews = rparts@.map_values(|p: Vec<char>| p@);
        let last = match rparts.pop() {
            Some(l) => l,
            None => {
                return None;
            },
        };
        proof {
            assert(rparts@.map_values(|p: Vec<char>| p@) =~= rviews.drop_last());
            assert(last@ == rviews.last());
        }
        let rv = match parse_groups(&rparts) {
            Some(g) => g,
            None => {
                return None;
            },
        };
        let (hi, lo) = match tail_groups(&last) {
            Some(t) => t,
            None => {
                return None;
            },
        };
        let mut rv_tail = rv;
        rv_tail.push(hi);
        rv_tail.push(lo);
        proof {
            assert(rv_tail@ =~= spec_group_vals(rviews.drop_last()) + seq![hi, lo]);
        }
        let zeros = 7 - lc - rc;
        let groups = assemble_groups(&lv, zeros, &rv_tail);
        proof {
            assert(groups@ =~= spec_group_vals(lparts@.map_values(|p: Vec<char>| p@))
                + Seq::new(zeros as nat, |i: int| 0u16) + spec_group_vals(rviews.drop_last())
                + spec_parse_tail_v4(rviews.last())->0);
        }
        Some(ipv6_value(&groups))
    }
}

/// Read an IP address from text: with a colon as IPv6, otherwise as IPv4.
pub fn parse_ip(s: &str) -> (r: Option<IpAddress>)
    ensures
        r == spec_parse_ip(s@),
{
    let v = chars_of(s);
    proof {
        assert(v@.skip(0) =~= v@);
    }
    let j = find_char_from(&v, 0, ':');
    if j < v.len() {
        match parse_ipv6(&v) {
            Some(x) => Some(IpAddress::V6(x)),
            None => None,
        }
    } else {
        match parse_ipv4(&v) {
            Some(x) => Some(IpAddress::V4(x)),
            None => None,
        }
    }
}

} // verus!
