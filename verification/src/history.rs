//! Queries on the alert log: how far back a search goes.

use vstd::prelude::*;
use crate::numeral::{parse_i64, signed_numeral};
use crate::text::{chars_of, text_of};

verus! {

/// The unit of a time span.
#[derive(Debug, Clone, Copy, PartialEq, Eq, Structural)]
pub enum TimeUnit {
    Hours,
    Minutes,
    Days,
}

/// The unit that a letter stands for.
pub open spec fn unit_of(c: char) -> Option<TimeUnit> {
    if c == 'h' {
        Some(TimeUnit::Hours)
    } else if c == 'm' {
        Some(TimeUnit::Minutes)
    } else if c == 'd' {
        Some(TimeUnit::Days)
    } else {
        None
    }
}

/// The text without the run of `c` at its end.
pub open spec fn without_trailing(s: Seq<char>, c: char) -> Seq<char>
    decreases s.len(),
{
    if s.len() > 0 && s.last() == c {
        without_trailing(s.drop_last(), c)
    } else {
        s
    }
}

/// The span that a text such as `12h`, `30m` or `7d` writes: the letter at
/// its end gives the unit, and what stands before the letters of that unit
/// is a signed decimal number of sixty-four bits.
pub open spec fn time_span(s: Seq<char>) -> Option<(TimeUnit, i64)> {
    if s.len() == 0 {
        None
    } else {
        match (unit_of(s.last()), signed_numeral(without_trailing(s, s.last()))) {
            (Some(unit), Some(v)) => if i64::MIN <= v <= i64::MAX {
                Some((unit, v as i64))
            } else {
                None
            },
            _ => None,
        }
    }
}

proof fn lemma_without_trailing(s: Seq<char>, c: char, end: int)
    requires
        0 <= end <= s.len(),
        forall|k: int| end <= k < s.len() ==> s[k] == c,
        end == 0 || s[end - 1] != c,
    ensures
        without_trailing(s, c) == s.take(end),
    decreases s.len() - end,
{
    if end == s.len() {
        assert(s.take(end) =~= s);
    } else {
        lemma_without_trailing(s.drop_last(), c, end);
        assert(s.drop_last().take(end) =~= s.take(end));
    }
}

/// Reads a time span.
pub fn parse_time_span(text: &str) -> (r: Option<(TimeUnit, i64)>)
    ensures
        r == time_span(text@),
{
    let chars = chars_of(text);
    if chars.len() == 0 {
        return None;
    }
    let last = chars[chars.len() - 1];
    let unit = if last == 'h' {
        TimeUnit::Hours
    } else if last == 'm' {
        TimeUnit::Minutes
    } else if last == 'd' {
        TimeUnit::Days
    } else {
        return None;
    };
    let mut end: usize = chars.len();
    while end > 0 && chars[end - 1] == last
        invariant
            end <= chars.len(),
            forall|k: int| end <= k < chars.len() ==> chars@[k] == last,
        decreases end,
    {
        end -= 1;
    }
    proof {
        lemma_without_trailing(chars@, last, end as int);
        assert(chars@.take(end as int) =~= chars@.subrange(0, end as int));
    }
    match parse_i64(&chars, 0, end) {
        Some(v) => Some((unit, v)),
        None => None,
    }
}

/// The place of the first `c` in `s`, or the length of `s` where there is
/// none.
pub open spec fn first_place(s: Seq<char>, c: char) -> int
    decreases s.len(),
{
    if s.len() == 0 || s[0] == c {
        0
    } else {
        1 + first_place(s.drop_first(), c)
    }
}

/// What stands between the first `[` of a line and its first `]`, where
/// both are there and in this order: the time of a line of the alert log.
pub open spec fn bracketed(line: Seq<char>) -> Option<Seq<char>> {
    let open = first_place(line, '[');
    let close = first_place(line, ']');
    if open < close < line.len() {
        Some(line.subrange(open + 1, close))
    } else {
        None
    }
}

proof fn lemma_first_place(s: Seq<char>, c: char, n: int)
    requires
        0 <= n <= s.len(),
        forall|k: int| 0 <= k < n ==> s[k] != c,
        n == s.len() || s[n] == c,
    ensures
        first_place(s, c) == n,
    decreases n,
{
    if n > 0 {
        let rest = s.drop_first();
        assert(s[0] != c);
        assert forall|k: int| 0 <= k < n - 1 implies rest[k] != c by {
            assert(rest[k] == s[k + 1]);
        }
        if n < s.len() {
            assert(rest[n - 1] == s[n]);
        }
        lemma_first_place(rest, c, n - 1);
    }
}

fn find_first(chars: &Vec<char>, c: char) -> (r: usize)
    ensures
        r == first_place(chars@, c),
        r <= chars.len(),
{
    let mut i: usize = 0;
    while i < chars.len() && chars[i] != c
        invariant
            i <= chars.len(),
            forall|k: int| 0 <= k < i ==> chars@[k] != c,
        decreases chars.len() - i,
    {
        i += 1;
    }
    proof {
        lemma_first_place(chars@, c, i as int);
    }
    i
}

/// Takes the time out of a line of the alert log.
pub fn extract_timestamp_text(line: &str) -> (r: Option<String>)
    ensures
        match r {
            Some(t) => bracketed(line@) == Some(t@),
            None => bracketed(line@).is_none(),
        },
{
    let chars = chars_of(line);
    let open = find_first(&chars, '[');
    let close = find_first(&chars, ']');
    if open < close && close < chars.len() {
        Some(text_of(&chars, open + 1, close))
    } else {
        None
    }
}

/// The seconds of one unit.
pub open spec fn unit_seconds(unit: TimeUnit) -> int {
    match unit {
        TimeUnit::Hours => 3600,
        TimeUnit::Minutes => 60,
        TimeUnit::Days => 86400,
    }
}

/// The seconds of a span, where they fit sixty-four bits.
pub fn span_seconds(unit: TimeUnit, amount: i64) -> (r: Option<i64>)
    ensures
        match r {
            Some(s) => s == amount * unit_seconds(unit),
            None => amount * unit_seconds(unit) < i64::MIN || amount * unit_seconds(unit)
                > i64::MAX,
        },
{
    let factor: i64 = match unit {
        TimeUnit::Hours => 3600,
        TimeUnit::Minutes => 60,
        TimeUnit::Days => 86400,
    };
    let limit: i64 = i64::MAX / factor;
    if amount > limit || amount < -limit {
        None
    } else {
        Some(amount * factor)
    }
}

} // verus!
