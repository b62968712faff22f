//! Numerals in text: digits in a radix, signs, and white space around them.

use vstd::prelude::*;
use crate::text::chars_of;

verus! {

/// `c` is white space in the sense of Unicode.
pub open spec fn is_space(c: char) -> bool {
    let u = c as u32;
    (9 <= u <= 13) || u == 32 || u == 0x85 || u == 0xA0 || u == 0x1680 || (0x2000 <= u <= 0x200A)
        || u == 0x2028 || u == 0x2029 || u == 0x202F || u == 0x205F || u == 0x3000
}

pub fn is_space_char(c: char) -> (r: bool)
    ensures
        r == is_space(c),
{
    let u = c as u32;
    (9 <= u && u <= 13) || u == 32 || u == 0x85 || u == 0xA0 || u == 0x1680 || (0x2000 <= u && u
        <= 0x200A) || u == 0x2028 || u == 0x2029 || u == 0x202F || u == 0x205F || u == 0x3000
}

/// The value of a digit or of a letter from `a` to `f`, upper or lower case.
pub open spec fn hex_digit(c: char) -> Option<nat> {
    let u = c as u32;
    if 48 <= u <= 57 {
        Some((u - 48) as nat)
    } else if 97 <= u <= 102 {
        Some((u - 87) as nat)
    } else if 65 <= u <= 70 {
        Some((u - 55) as nat)
    } else {
        None
    }
}

/// The value of `c` as a digit of the radix, if it is one.
pub open spec fn digit(c: char, radix: nat) -> Option<nat> {
    match hex_digit(c) {
        Some(d) => if d < radix {
            Some(d)
        } else {
            None
        },
        None => None,
    }
}

/// Every character is a digit of the radix.
pub open spec fn all_digits(s: Seq<char>, radix: nat) -> bool {
    forall|i: int| 0 <= i < s.len() ==> (#[trigger] digit(s[i], radix)).is_some()
}

/// The number that digits of the radix write.
pub open spec fn digits_value(s: Seq<char>, radix: nat) -> nat
    decreases s.len(),
{
    if s.len() == 0 {
        0
    } else {
        digits_value(s.drop_last(), radix) * radix + match digit(s.last(), radix) {
            Some(d) => d,
            None => 0,
        }
    }
}

/// The number that digits write where there is at least one digit, nothing
/// but digits, and the number is at most `max`.
pub open spec fn digits_up_to(s: Seq<char>, radix: nat, max: nat) -> Option<nat> {
    if s.len() > 0 && all_digits(s, radix) && digits_value(s, radix) <= max {
        Some(digits_value(s, radix))
    } else {
        None
    }
}

/// The text without a leading `+`.
pub open spec fn without_plus(s: Seq<char>) -> Seq<char> {
    if s.len() > 0 && s[0] == '+' {
        s.drop_first()
    } else {
        s
    }
}

/// The number that an unsigned numeral writes: digits with an optional `+`
/// before them and nothing else, at most `max`.
pub open spec fn numeral_up_to(s: Seq<char>, radix: nat, max: nat) -> Option<nat> {
    digits_up_to(without_plus(s), radix, max)
}

/// The number that a signed decimal numeral writes: digits with an optional
/// `+` or `-` before them and nothing else.
pub open spec fn signed_numeral(s: Seq<char>) -> Option<int> {
    if s.len() > 0 && s[0] == '-' {
        if s.len() > 1 && all_digits(s.drop_first(), 10) {
            Some(-(digits_value(s.drop_first(), 10) as int))
        } else {
            None
        }
    } else if without_plus(s).len() > 0 && all_digits(without_plus(s), 10) {
        Some(digits_value(without_plus(s), 10) as int)
    } else {
        None
    }
}

proof fn lemma_value_prefix(d: Seq<char>, radix: nat, k: int)
    requires
        0 <= k <= d.len(),
        radix >= 1,
    ensures
        digits_value(d.take(k), radix) <= digits_value(d, radix),
    decreases d.len() - k,
{
    if k == d.len() {
        assert(d.take(k) =~= d);
    } else {
        lemma_value_prefix(d.drop_last(), radix, k);
        assert(d.drop_last().take(k) =~= d.take(k));
        let v = digits_value(d.drop_last(), radix);
        assert(v * radix >= v) by (nonlinear_arith)
            requires
                radix >= 1,
                v >= 0,
        ;
    }
}

fn digit_of(c: char, radix: u32) -> (r: Option<u64>)
    requires
        radix <= 16,
    ensures
        match r {
            Some(d) => digit(c, radix as nat) == Some(d as nat) && d < radix,
            None => digit(c, radix as nat).is_none(),
        },
{
    let u = c as u32;
    let value: u32 = if 48 <= u && u <= 57 {
        u - 48
    } else if 97 <= u && u <= 102 {
        u - 87
    } else if 65 <= u && u <= 70 {
        u - 55
    } else {
        return None;
    };
    if value < radix {
        Some(value as u64)
    } else {
        None
    }
}

/// Reads the digits `chars[from..to]` in the radix where they write a
/// number of at most `max`.
pub fn parse_digits(chars: &Vec<char>, from: usize, to: usize, radix: u32, max: u64) -> (r: Option<
    u64,
>)
    requires
        from <= to <= chars.len(),
        2 <= radix <= 16,
    ensures
        match r {
            Some(v) => digits_up_to(
                chars@.subrange(from as int, to as int),
                radix as nat,
                max as nat,
            ) == Some(v as nat),
            None => digits_up_to(
                chars@.subrange(from as int, to as int),
                radix as nat,
                max as nat,
            ).is_none(),
        },
{
    let ghost d = chars@.subrange(from as int, to as int);
    if from == to {
        return None;
    }
    let mut acc: u64 = 0;
    let mut i: usize = from;
    proof {
        assert(d.take(0) =~= Seq::<char>::empty());
    }
    while i < to
        invariant
            from <= i <= to <= chars.len(),
            from < to,
            2 <= radix <= 16,
            d == chars@.subrange(from as int, to as int),
            all_digits(d.take(i - from), radix as nat),
            acc == digits_value(d.take(i - from), radix as nat),
            acc <= max,
        decreases to - i,
    {
        let ghost seen = d.take(i - from);
        let ghost more = d.take(i - from + 1);
        proof {
            assert(more.drop_last() =~= seen);
            assert(more.last() == chars@[i as int]);
        }
        match digit_of(chars[i], radix) {
            Some(v) => {
                proof {
                    assert(acc * radix <= 0xFFFF_FFFF_FFFF_FFFF * 16) by (nonlinear_arith)
                        requires
                            acc <= 0xFFFF_FFFF_FFFF_FFFF,
                            radix <= 16,
                    ;
                }
                let next: u128 = (acc as u128) * (radix as u128) + (v as u128);
                proof {
                    assert(next == digits_value(more, radix as nat));
                    assert forall|k: int| 0 <= k < more.len() implies (#[trigger] digit(
                        more[k],
                        radix as nat,
                    )).is_some() by {
                        if k < seen.len() {
                            assert(more[k] == seen[k]);
                        }
                    }
                    lemma_value_prefix(d, radix as nat, i - from + 1);
                }
                if next > max as u128 {
                    return None;
                }
                acc = next as u64;
            },
            None => {
                proof {
                    assert(digit(d[i - from], radix as nat).is_none());
                }
                return None;
            },
        }
        i += 1;
    }
    proof {
        assert(d.take(to - from) =~= d);
    }
    Some(acc)
}

/// Reads the unsigned numeral `chars[from..to]` in the radix where it
/// writes a number of at most `max`.
pub fn parse_unsigned(chars: &Vec<char>, from: usize, to: usize, radix: u32, max: u64) -> (r:
    Option<u64>)
    requires
        from <= to <= chars.len(),
        2 <= radix <= 16,
    ensures
        match r {
            Some(v) => numeral_up_to(
                chars@.subrange(from as int, to as int),
                radix as nat,
                max as nat,
            ) == Some(v as nat),
            None => numeral_up_to(
                chars@.subrange(from as int, to as int),
                radix as nat,
                max as nat,
            ).is_none(),
        },
{
    let first = if from < to && chars[from] == '+' {
        from + 1
    } else {
        from
    };
    proof {
        assert(without_plus(chars@.subrange(from as int, to as int)) =~= chars@.subrange(
            first as int,
            to as int,
        ));
    }
    parse_digits(chars, first, to, radix, max)
}

/// Reads the signed decimal numeral `chars[from..to]` where the number fits
/// sixty-four bits.
pub fn parse_i64(chars: &Vec<char>, from: usize, to: usize) -> (r: Option<i64>)
    requires
        from <= to <= chars.len(),
    ensures
        match signed_numeral(chars@.subrange(from as int, to as int)) {
            Some(v) => if i64::MIN <= v <= i64::MAX {
                r == Some(v as i64)
            } else {
                r.is_none()
            },
            None => r.is_none(),
        },
{
    let ghost s = chars@.subrange(from as int, to as int);
    if from < to && chars[from] == '-' {
        proof {
            assert(s.drop_first() =~= chars@.subrange(from + 1, to as int));
        }
        match parse_digits(chars, from + 1, to, 10, 0x8000_0000_0000_0000) {
            Some(magnitude) => {
                if magnitude == 0x8000_0000_0000_0000 {
                    Some(i64::MIN)
                } else {
                    Some(-(magnitude as i64))
                }
            },
            None => None,
        }
    } else {
        proof {
            assert(from < to ==> s[0] == chars@[from as int]);
        }
        match parse_unsigned(chars, from, to, 10, 0x7FFF_FFFF_FFFF_FFFF) {
            Some(v) => Some(v as i64),
            None => None,
        }
    }
}

/// How many characters of white space `s` begins with.
pub open spec fn leading_spaces(s: Seq<char>) -> nat
    decreases s.len(),
{
    if s.len() > 0 && is_space(s[0]) {
        1 + leading_spaces(s.drop_first())
    } else {
        0
    }
}

/// How many characters of white space `s` ends with.
pub open spec fn trailing_spaces(s: Seq<char>) -> nat
    decreases s.len(),
{
    if s.len() > 0 && is_space(s.last()) {
        1 + trailing_spaces(s.drop_last())
    } else {
        0
    }
}

/// The text without the white space at its ends.
pub open spec fn trimmed(s: Seq<char>) -> Seq<char> {
    let a = leading_spaces(s) as int;
    let b = trailing_spaces(s) as int;
    if a + b >= s.len() {
        Seq::empty()
    } else {
        s.subrange(a, s.len() - b)
    }
}

proof fn lemma_leading(s: Seq<char>, n: int)
    requires
        0 <= n <= s.len(),
        forall|k: int| 0 <= k < n ==> is_space(#[trigger] s[k]),
        n == s.len() || !is_space(s[n]),
    ensures
        leading_spaces(s) == n,
    decreases n,
{
    if n > 0 {
        let rest = s.drop_first();
        assert forall|k: int| 0 <= k < n - 1 implies is_space(#[trigger] rest[k]) by {
            assert(rest[k] == s[k + 1]);
        }
        if n < s.len() {
            assert(rest[n - 1] == s[n]);
        }
        lemma_leading(rest, n - 1);
    }
}

proof fn lemma_trailing(s: Seq<char>, n: int)
    requires
        0 <= n <= s.len(),
        forall|k: int| s.len() - n <= k < s.len() ==> is_space(#[trigger] s[k]),
        n == s.len() || !is_space(s[s.len() - n - 1]),
    ensures
        trailing_spaces(s) == n,
    decreases n,
{
    if n > 0 {
        let rest = s.drop_last();
        assert forall|k: int| rest.len() - (n - 1) <= k < rest.len() implies is_space(
            #[trigger] rest[k],
        ) by {
            assert(rest[k] == s[k]);
        }
        if n < s.len() {
            assert(rest[rest.len() - (n - 1) - 1] == s[s.len() - n - 1]);
        }
        lemma_trailing(rest, n - 1);
    }
}

/// Where the text without the white space at its ends begins and ends.
pub fn trim_bounds(chars: &Vec<char>) -> (r: (usize, usize))
    ensures
        r.0 <= r.1 <= chars.len(),
        chars@.subrange(r.0 as int, r.1 as int) == trimmed(chars@),
{
    let mut a: usize = 0;
    while a < chars.len() && is_space_char(chars[a])
        invariant
            a <= chars.len(),
            forall|k: int| 0 <= k < a ==> is_space(#[trigger] chars@[k]),
        decreases chars.len() - a,
    {
        a += 1;
    }
    let mut b: usize = 0;
    while b < chars.len() && is_space_char(chars[chars.len() - b - 1])
        invariant
            b <= chars.len(),
            forall|k: int| chars.len() - b <= k < chars.len() ==> is_space(#[trigger] chars@[k]),
        decreases chars.len() - b,
    {
        b += 1;
    }
    proof {
        lemma_leading(chars@, a as int);
        lemma_trailing(chars@, b as int);
    }
    if a >= chars.len() - b {
        proof {
            assert(chars@.subrange(a as int, a as int) =~= Seq::<char>::empty());
        }
        (a, a)
    } else {
        (a, chars.len() - b)
    }
}

/// The number that a text writes in decimal once the white space at its
/// ends is taken off, where that number fits thirty-two bits.
pub open spec fn u32_text(s: Seq<char>) -> Option<nat> {
    numeral_up_to(trimmed(s), 10, 0xFFFF_FFFF)
}

/// Reads an unsigned decimal number of thirty-two bits, white space around
/// it ignored.
pub fn parse_u32(text: &str) -> (r: Option<u32>)
    ensures
        match r {
            Some(v) => u32_text(text@) == Some(v as nat),
            None => u32_text(text@).is_none(),
        },
{
    let chars = chars_of(text);
    let (a, b) = trim_bounds(&chars);
    match parse_unsigned(&chars, a, b, 10, 0xFFFF_FFFF) {
        Some(v) => Some(v as u32),
        None => None,
    }
}

} // verus!
