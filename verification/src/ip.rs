//! IPv4 addresses as numbers, and their dotted text.
use crate::text;
use crate::text::{chars_of, decimal_of, parse_uint, split_text, IntFault};
use vstd::prelude::*;
use vstd::string::*;

verus! {

/// The address with the given four octets, the most significant first.
pub open spec fn ip_of(a: nat, b: nat, c: nat, d: nat) -> nat {
    a * 16777216 + b * 65536 + c * 256 + d
}

/// The address with the given four octets, the most significant first.
pub fn ipv4(a: u8, b: u8, c: u8, d: u8) -> (ip: u32)
    ensures
        ip == ip_of(a as nat, b as nat, c as nat, d as nat),
{
    a as u32 * 16777216 + b as u32 * 65536 + c as u32 * 256 + d as u32
}

/// The dotted text of an address.
pub open spec fn ip_text(ip: u32) -> Seq<char> {
    text::decimal((ip / 16777216) as nat) + "."@ + text::decimal((ip / 65536 % 256) as nat) + "."@ + text::decimal(
        (ip / 256 % 256) as nat,
    ) + "."@ + text::decimal((ip % 256) as nat)
}

/// The dotted text of an address.
pub fn format_ip(ip: u32) -> (s: String)
    ensures
        s@ == ip_text(ip),
{
    let mut s = decimal_of((ip / 16777216) as u64);
    s.append(".");
    s.append(decimal_of((ip / 65536 % 256) as u64).as_str());
    s.append(".");
    s.append(decimal_of((ip / 256 % 256) as u64).as_str());
    s.append(".");
    s.append(decimal_of((ip % 256) as u64).as_str());
    s
}

/// The value of one octet: one to three digits, at most 255, no leading zero.
pub open spec fn octet_value(s: Seq<char>) -> Option<nat> {
    if s.len() < 1 || s.len() > 3 || (s.len() > 1 && s[0] == '0') {
        None
    } else {
        match text::digits_value(s, 10, 255) {
            Ok(v) => Some(v),
            Err(_) => None,
        }
    }
}

/// The address that a text stands for: four octets with dots between them.
pub open spec fn ip_value(s: Seq<char>) -> Option<u32> {
    let parts = text::split(s, '.');
    if parts.len() == 4 && octet_value(parts[0]) is Some && octet_value(parts[1]) is Some
        && octet_value(parts[2]) is Some && octet_value(parts[3]) is Some {
        Some(
            ip_of(
                octet_value(parts[0])->0,
                octet_value(parts[1])->0,
                octet_value(parts[2])->0,
                octet_value(parts[3])->0,
            ) as u32,
        )
    } else {
        None
    }
}

proof fn lemma_digits_bound(s: Seq<char>, radix: nat, max: nat)
    ensures
        text::digits_value(s, radix, max) matches Ok(v) ==> v <= max,
    decreases s.len(),
{
    if s.len() > 0 {
        lemma_digits_bound(s.drop_last(), radix, max);
    }
}

fn parse_octet(s: &str) -> (r: Option<u8>)
    ensures
        match r {
            Some(v) => octet_value(s@) == Some(v as nat),
            None => octet_value(s@) is None,
        },
{
    let v = chars_of(s);
    if v.len() < 1 || v.len() > 3 || (v.len() > 1 && v[0] == '0') {
        return None;
    }
    if v[0] == '+' {
        proof {
            assert(s@.take(1).drop_last() =~= seq![]);
            assert(s@.take(1).last() == '+');
            assert(text::digits_value(s@.take(1).drop_last(), 10, 255) == Ok::<nat, IntFault>(0));
            assert(text::digits_value(s@.take(1), 10, 255) is Err);
            crate::text::lemma_digits_fault(s@, 1, 10, 255);
        }
        return None;
    }
    match parse_uint(s, 10, 255) {
        Ok(n) => {
            proof {
                lemma_digits_bound(s@, 10, 255);
            }
            Some(n as u8)
        },
        Err(_) => None,
    }
}

/// The address that a text stands for, or `None` if it stands for none.
pub fn parse_ip(s: &str) -> (r: Option<u32>)
    ensures
        r == ip_value(s@),
{
    let parts = split_text(s, '.');
    proof {
        assert(text::texts(parts@).len() == parts@.len());
        assert(forall|i: int| 0 <= i < parts@.len() ==> text::texts(parts@)[i] == parts@[i]@);
    }
    if parts.len() != 4 {
        return None;
    }
    match (
        parse_octet(parts[0].as_str()),
        parse_octet(parts[1].as_str()),
        parse_octet(parts[2].as_str()),
        parse_octet(parts[3].as_str()),
    ) {
        (Some(a), Some(b), Some(c), Some(d)) => Some(ipv4(a, b, c, d)),
        _ => None,
    }
}

/// A number below 256 in decimal is an octet with that value and holds no dot.
proof fn lemma_octet_round_trip(n: nat)
    requires
        n < 256,
    ensures
        octet_value(text::decimal(n)) == Some(n),
        !text::decimal(n).contains('.'),
{
    reveal_with_fuel(text::decimal, 3);
    reveal_with_fuel(text::digits_value, 4);
    let s = text::decimal(n);
    if n < 10 {
        assert(s.drop_last() =~= seq![]);
    } else if n < 100 {
        assert(s.drop_last() =~= text::decimal(n / 10));
        assert(s.drop_last().drop_last() =~= seq![]);
    } else {
        assert(s.drop_last() =~= text::decimal(n / 10));
        assert(s.drop_last().drop_last() =~= text::decimal(n / 10 / 10));
        assert(s.drop_last().drop_last().drop_last() =~= seq![]);
    }
}

/// Four texts without dots are the pieces of the text that joins them with dots.
proof fn lemma_split_four(a: Seq<char>, b: Seq<char>, c: Seq<char>, d: Seq<char>)
    requires
        !a.contains('.'),
        !b.contains('.'),
        !c.contains('.'),
        !d.contains('.'),
    ensures
        text::split(a + "."@ + b + "."@ + c + "."@ + d, '.') == seq![a, b, c, d],
{
    reveal_strlit(".");
    let ab = a.push('.') + b;
    let abc = ab.push('.') + c;
    crate::text::lemma_split_whole(a, '.');
    crate::text::lemma_split_last(a, '.', b);
    crate::text::lemma_split_last(ab, '.', c);
    crate::text::lemma_split_last(abc, '.', d);
    assert(a + "."@ + b + "."@ + c + "."@ + d =~= abc.push('.') + d);
    assert(seq![a].push(b).push(c).push(d) =~= seq![a, b, c, d]);
}

/// An address is put together again from its octets.
proof fn lemma_octets(ip: u32)
    ensures
        ip_of(
            (ip / 16777216) as nat,
            (ip / 65536 % 256) as nat,
            (ip / 256 % 256) as nat,
            (ip % 256) as nat,
        ) == ip,
        ip / 16777216 < 256,
{
}

/// Parsing the dotted text of an address gives the address back.
pub proof fn parse_inverts_format(ip: u32)
    ensures
        ip_value(ip_text(ip)) == Some(ip),
{
    lemma_octets(ip);
    lemma_octet_round_trip((ip / 16777216) as nat);
    lemma_octet_round_trip((ip / 65536 % 256) as nat);
    lemma_octet_round_trip((ip / 256 % 256) as nat);
    lemma_octet_round_trip((ip % 256) as nat);
    lemma_split_four(
        text::decimal((ip / 16777216) as nat),
        text::decimal((ip / 65536 % 256) as nat),
        text::decimal((ip / 256 % 256) as nat),
        text::decimal((ip % 256) as nat),
    );
}

/// The octets that an address was made of.
proof fn lemma_octets_of(a: u8, b: u8, c: u8, d: u8, ip: u32)
    by (bit_vector)
    requires
        ip == a * 0x100_0000 + b * 0x1_0000 + c * 0x100 + d,
    ensures
        ip / 16777216 == a,
        ip / 65536 % 256 == b,
        ip / 256 % 256 == c,
        ip % 256 == d,
{
}

/// The octets of an address stand in its text in their order, the most significant first.
pub proof fn octets_stand_in_order(a: u8, b: u8, c: u8, d: u8)
    ensures
        ip_text((a * 16777216 + b * 65536 + c * 256 + d) as u32) == text::decimal(a as nat) + "."@
            + text::decimal(b as nat) + "."@ + text::decimal(c as nat) + "."@ + text::decimal(
            d as nat,
        ),
        ip_of(a as nat, b as nat, c as nat, d as nat) == a * 16777216 + b * 65536 + c * 256 + d,
{
    let n = a * 16777216 + b * 65536 + c * 256 + d;
    assert(0 <= n <= u32::MAX);
    let ip = n as u32;
    assert(ip == n);
    lemma_octets_of(a, b, c, d, ip);
}

} // verus!
