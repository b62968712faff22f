//! The text format of the kernel's connection tables: fields separated by
//! white space, endpoints written as hexadecimal `ADDRESS:PORT`.

use vstd::prelude::*;
use crate::network::IpAddress;
use crate::numeral::{is_space, is_space_char, numeral_up_to, parse_unsigned};
use crate::text::{chars_of, text_of, texts};

verus! {

/// The length of the run of characters other than white space that `s`
/// begins with.
pub open spec fn run_len(s: Seq<char>) -> nat
    decreases s.len(),
{
    if s.len() == 0 || is_space(s[0]) {
        0
    } else {
        1 + run_len(s.drop_first())
    }
}

/// The fields of a line: its maximal runs of characters other than white
/// space, in order.
pub open spec fn fields(s: Seq<char>) -> Seq<Seq<char>>
    decreases s.len(),
{
    if s.len() == 0 {
        Seq::empty()
    } else if is_space(s[0]) {
        fields(s.drop_first())
    } else {
        let n = run_len(s) as int;
        if 0 < n <= s.len() {
            seq![s.take(n)] + fields(s.skip(n))
        } else {
            Seq::empty()
        }
    }
}

proof fn lemma_run(s: Seq<char>, n: int)
    requires
        0 <= n <= s.len(),
        forall|k: int| 0 <= k < n ==> !is_space(#[trigger] s[k]),
        n == s.len() || is_space(s[n]),
    ensures
        run_len(s) == n,
    decreases n,
{
    if n > 0 {
        let rest = s.drop_first();
        assert forall|k: int| 0 <= k < n - 1 implies !is_space(#[trigger] rest[k]) by {
            assert(rest[k] == s[k + 1]);
        }
        if n < s.len() {
            assert(rest[n - 1] == s[n]);
        }
        lemma_run(rest, n - 1);
    }
}

/// Splits a line into its fields.
pub fn split_fields(line: &str) -> (r: Vec<String>)
    ensures
        texts(r@) == fields(line@),
{
    let chars = chars_of(line);
    let mut out: Vec<String> = Vec::new();
    let mut i: usize = 0;
    proof {
        assert(chars@.skip(0) =~= chars@);
        assert(texts(out@) + fields(chars@.skip(0)) =~= fields(chars@));
    }
    while i < chars.len()
        invariant
            i <= chars.len(),
            chars@ == line@,
            texts(out@) + fields(chars@.skip(i as int)) == fields(chars@),
        decreases chars.len() - i,
    {
        let ghost rest = chars@.skip(i as int);
        proof {
            assert(rest[0] == chars@[i as int]);
        }
        if is_space_char(chars[i]) {
            proof {
                assert(rest.drop_first() =~= chars@.skip(i + 1));
            }
            i += 1;
        } else {
            let start = i;
            let mut j: usize = i + 1;
            while j < chars.len() && !is_space_char(chars[j])
                invariant
                    start < j <= chars.len(),
                    forall|k: int| start <= k < j ==> !is_space(#[trigger] chars@[k]),
                decreases chars.len() - j,
            {
                j += 1;
            }
            let ghost done = texts(out@);
            out.push(text_of(&chars, start, j));
            proof {
                let n = (j - start) as int;
                assert forall|k: int| 0 <= k < n implies !is_space(#[trigger] rest[k]) by {
                    assert(rest[k] == chars@[start + k]);
                }
                if j < chars.len() {
                    assert(rest[n] == chars@[j as int]);
                }
                lemma_run(rest, n);
                assert(rest.take(n) =~= chars@.subrange(start as int, j as int));
                assert(rest.skip(n) =~= chars@.skip(j as int));
                assert(texts(out@) =~= done.push(rest.take(n)));
                assert(texts(out@) + fields(chars@.skip(j as int)) =~= done + fields(rest));
            }
            i = j;
        }
    }
    proof {
        assert(chars@.skip(i as int) =~= Seq::<char>::empty());
        assert(texts(out@) + Seq::<Seq<char>>::empty() =~= texts(out@));
    }
    out
}

/// The number that a hexadecimal numeral writes: at least one digit, with
/// an optional `+` before the digits and nothing else, at most `max`.
pub open spec fn radix16_up_to(s: Seq<char>, max: nat) -> Option<nat> {
    numeral_up_to(s, 16, max)
}

/// Reads the hexadecimal numeral `chars[from..to]` where its value is at
/// most `max`.
pub fn parse_hex(chars: &Vec<char>, from: usize, to: usize, max: u32) -> (r: Option<u32>)
    requires
        from <= to <= chars.len(),
    ensures
        match r {
            Some(v) => radix16_up_to(chars@.subrange(from as int, to as int), max as nat) == Some(
                v as nat,
            ),
            None => radix16_up_to(chars@.subrange(from as int, to as int), max as nat).is_none(),
        },
{
    match parse_unsigned(chars, from, to, 16, max as u64) {
        Some(v) => Some(v as u32),
        None => None,
    }
}

/// Every character is in the ASCII range.
pub open spec fn ascii_only(s: Seq<char>) -> bool {
    forall|i: int| 0 <= i < s.len() ==> (#[trigger] s[i]) as u32 <= 127
}

fn is_ascii_only(chars: &Vec<char>) -> (r: bool)
    ensures
        r == ascii_only(chars@),
{
    let mut i: usize = 0;
    while i < chars.len()
        invariant
            i <= chars.len(),
            forall|j: int| 0 <= j < i ==> (#[trigger] chars@[j]) as u32 <= 127,
        decreases chars.len() - i,
    {
        if chars[i] as u32 > 127 {
            return false;
        }
        i += 1;
    }
    true
}

/// The number `v` with its four bytes in the opposite order.
pub open spec fn swapped(v: nat) -> nat {
    (v % 256) * 0x100_0000 + ((v / 0x100) % 256) * 0x1_0000 + ((v / 0x1_0000) % 256) * 0x100 + (v
        / 0x100_0000) % 256
}

/// The byte that the two characters at `2 * i` write in hexadecimal, zero
/// where they do not write a number.
pub open spec fn byte_at(s: Seq<char>, i: int) -> nat {
    match radix16_up_to(s.subrange(2 * i, 2 * i + 2), 255) {
        Some(v) => v,
        None => 0,
    }
}

/// The number whose eight bytes, from the most significant, are the bytes
/// `from` to `from + 7` of the text.
pub open spec fn eight_bytes(s: Seq<char>, from: int) -> nat {
    byte_at(s, from) * 0x100_0000_0000_0000 + byte_at(s, from + 1) * 0x1_0000_0000_0000 + byte_at(
        s,
        from + 2,
    ) * 0x100_0000_0000 + byte_at(s, from + 3) * 0x1_0000_0000 + byte_at(s, from + 4) * 0x100_0000
        + byte_at(s, from + 5) * 0x1_0000 + byte_at(s, from + 6) * 0x100 + byte_at(s, from + 7)
}

/// The address that a field of a connection table writes. Eight characters
/// are a version 4 address, written as the number that holds its four bytes
/// in memory order on a little-endian host. Thirty-two characters are a
/// version 6 address, byte after byte, a pair that is no numeral counting
/// as zero. Anything else, and any text with a character outside ASCII, is
/// no address.
pub open spec fn hex_ip(s: Seq<char>) -> Option<IpAddress> {
    if !ascii_only(s) {
        None
    } else if s.len() == 8 {
        match radix16_up_to(s, 0xFFFF_FFFF) {
            Some(v) => Some(IpAddress::V4(swapped(v) as u32)),
            None => None,
        }
    } else if s.len() == 32 {
        Some(
            IpAddress::V6(
                (eight_bytes(s, 0) * 0x1_0000_0000_0000_0000 + eight_bytes(s, 8)) as u128,
            ),
        )
    } else {
        None
    }
}

fn byte_of(chars: &Vec<char>, i: usize) -> (r: u64)
    requires
        chars.len() == 32,
        i < 16,
    ensures
        r == byte_at(chars@, i as int),
        r <= 255,
{
    match parse_hex(chars, 2 * i, 2 * i + 2, 255) {
        Some(v) => v as u64,
        None => 0,
    }
}

fn eight_bytes_of(chars: &Vec<char>, from: usize) -> (r: u64)
    requires
        chars.len() == 32,
        from == 0 || from == 8,
    ensures
        r == eight_bytes(chars@, from as int),
{
    let b0 = byte_of(chars, from);
    let b1 = byte_of(chars, from + 1);
    let b2 = byte_of(chars, from + 2);
    let b3 = byte_of(chars, from + 3);
    let b4 = byte_of(chars, from + 4);
    let b5 = byte_of(chars, from + 5);
    let b6 = byte_of(chars, from + 6);
    let b7 = byte_of(chars, from + 7);
    b0 * 0x100_0000_0000_0000 + b1 * 0x1_0000_0000_0000 + b2 * 0x100_0000_0000 + b3
        * 0x1_0000_0000 + b4 * 0x100_0000 + b5 * 0x1_0000 + b6 * 0x100 + b7
}

fn parse_ip_chars(chars: &Vec<char>) -> (r: Option<IpAddress>)
    ensures
        r == hex_ip(chars@),
{
    if !is_ascii_only(chars) {
        return None;
    }
    if chars.len() == 8 {
        proof {
            assert(chars@.subrange(0, 8) =~= chars@);
        }
        match parse_hex(chars, 0, 8, 0xFFFF_FFFF) {
            Some(v) => {
                let swapped: u32 = (v % 256) * 0x100_0000 + ((v / 0x100) % 256) * 0x1_0000 + ((v
                    / 0x1_0000) % 256) * 0x100 + (v / 0x100_0000) % 256;
                Some(IpAddress::V4(swapped))
            },
            None => None,
        }
    } else if chars.len() == 32 {
        let hi = eight_bytes_of(chars, 0);
        let lo = eight_bytes_of(chars, 8);
        Some(IpAddress::V6((hi as u128) * 0x1_0000_0000_0000_0000 + (lo as u128)))
    } else {
        None
    }
}

/// Reads the address of an endpoint.
pub fn parse_hex_ip(hex_str: &str) -> (r: Option<IpAddress>)
    ensures
        r == hex_ip(hex_str@),
{
    let chars = chars_of(hex_str);
    parse_ip_chars(&chars)
}

/// `p` is the place of the only colon of `s`.
pub open spec fn only_colon(s: Seq<char>, p: int) -> bool {
    &&& 0 <= p < s.len()
    &&& s[p] == ':'
    &&& forall|k: int| 0 <= k < s.len() && k != p ==> s[k] != ':'
}

/// An endpoint written as `ADDRESS:PORT` with exactly one colon, the
/// address as `hex_ip` reads it and the port a hexadecimal numeral of at
/// most sixteen bits.
pub open spec fn endpoint(s: Seq<char>) -> Option<(IpAddress, u16)> {
    if exists|p: int| only_colon(s, p) {
        let p = choose|p: int| only_colon(s, p);
        match (hex_ip(s.take(p)), radix16_up_to(s.skip(p + 1), 0xFFFF)) {
            (Some(ip), Some(port)) => Some((ip, port as u16)),
            _ => None,
        }
    } else {
        None
    }
}

/// Reads an endpoint.
pub fn parse_endpoint(text: &str) -> (r: Option<(IpAddress, u16)>)
    ensures
        r == endpoint(text@),
{
    let chars = chars_of(text);
    let mut p: usize = 0;
    while p < chars.len() && chars[p] != ':'
        invariant
            p <= chars.len(),
            chars@ == text@,
            forall|k: int| 0 <= k < p ==> chars@[k] != ':',
        decreases chars.len() - p,
    {
        p += 1;
    }
    if p == chars.len() {
        proof {
            assert(!exists|q: int| only_colon(chars@, q));
        }
        return None;
    }
    let mut k: usize = p + 1;
    while k < chars.len()
        invariant
            p < k <= chars.len(),
            chars@ == text@,
            chars@[p as int] == ':',
            forall|j: int| 0 <= j < p ==> chars@[j] != ':',
            forall|j: int| p < j < k ==> chars@[j] != ':',
        decreases chars.len() - k,
    {
        if chars[k] == ':' {
            proof {
                assert forall|q: int| !only_colon(chars@, q) by {
                    if only_colon(chars@, q) {
                        if q == p {
                            assert(chars@[k as int] != ':');
                        } else {
                            assert(chars@[p as int] != ':');
                        }
                    }
                }
            }
            return None;
        }
        k += 1;
    }
    proof {
        assert(only_colon(chars@, p as int));
        let q = choose|q: int| only_colon(chars@, q);
        assert(q == p) by {
            if q != p {
                assert(chars@[p as int] != ':');
            }
        }
    }
    let mut address: Vec<char> = Vec::new();
    let mut i: usize = 0;
    while i < p
        invariant
            i <= p < chars.len(),
            address@ == chars@.take(i as int),
        decreases p - i,
    {
        address.push(chars[i]);
        proof {
            assert(chars@.take(i as int).push(chars@[i as int]) =~= chars@.take(i + 1));
        }
        i += 1;
    }
    let ip = parse_ip_chars(&address);
    proof {
        assert(chars@.subrange(p + 1, chars@.len() as int) =~= chars@.skip(p + 1));
    }
    let port = parse_hex(&chars, p + 1, chars.len(), 0xFFFF);
    match (ip, port) {
        (Some(ip), Some(port)) => Some((ip, port as u16)),
        _ => None,
    }
}

/// The local and the remote endpoint of a line of a connection table: its
/// second and third field.
pub open spec fn tcp_connection(line: Seq<char>) -> Option<(IpAddress, u16, IpAddress, u16)> {
    let f = fields(line);
    if f.len() < 3 {
        None
    } else {
        match (endpoint(f[1]), endpoint(f[2])) {
            (Some(local), Some(remote)) => Some((local.0, local.1, remote.0, remote.1)),
            _ => None,
        }
    }
}

/// Reads the endpoints of one line of a connection table.
pub fn parse_tcp_connection(line: &str) -> (r: Option<(IpAddress, u16, IpAddress, u16)>)
    ensures
        r == tcp_connection(line@),
{
    let parts = split_fields(line);
    if parts.len() < 3 {
        return None;
    }
    proof {
        assert(texts(parts@)[1] == parts@[1]@);
        assert(texts(parts@)[2] == parts@[2]@);
    }
    let local = parse_endpoint(parts[1].as_str());
    let remote = parse_endpoint(parts[2].as_str());
    match (local, remote) {
        (Some(l), Some(r)) => Some((l.0, l.1, r.0, r.1)),
        _ => None,
    }
}

} // verus!
