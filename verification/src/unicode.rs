//! Ranges of code points, written as text, and the characters they hold.

use crate::number::{parse_unsigned, parse_unsigned_spec};
use crate::text::{
    chars_of, find_first, is_scalar, lemma_split_first, lemma_split_first_at, split_first,
    string_of,
};
use std::ops::RangeInclusive;
use vstd::prelude::*;

verus! {

/// The largest code point.
pub const MAX_CODE_POINT: u32 = 0x10FFFF;

/// Whether `c` is a control character: one of the code points `U+0000` to
/// `U+001F` and `U+007F` to `U+009F`, the general category `Cc`.
pub open spec fn is_control_spec(c: char) -> bool {
    c as u32 <= 0x1F || 0x7F <= c as u32 <= 0x9F
}

/// Whether `c` is a control character.
#[verifier::when_used_as_spec(is_control_spec)]
pub fn is_control(c: char) -> (b: bool)
    ensures
        b == is_control_spec(c),
{
    let n: u32 = c as u32;
    n <= 0x1F || (0x7F <= n && n <= 0x9F)
}

/// Cuts `s` at the first `separator` and gives both parts, neither holding
/// that separator. None if `separator` does not occur in `s`.
pub fn parse_pair(s: &str, separator: char) -> (r: Option<(String, String)>)
    ensures
        match r {
            Some((left, right)) => split_first(s@, separator) == Some((left@, right@)),
            None => split_first(s@, separator) is None,
        },
{
    let chars = chars_of(s);
    proof {
        lemma_split_first(s@, separator);
    }
    match find_first(&chars, separator) {
        None => None,
        Some(i) => {
            proof {
                lemma_split_first_at(s@, separator, i as int);
            }
            let left = s.substring_char(0, i);
            let right = s.substring_char(i + 1, chars.len());
            Some((left.to_owned(), right.to_owned()))
        },
    }
}

/// The character whose code point `s` writes in hexadecimal: an optional
/// `+`, then hexadecimal digits in either case. None if `s` is written
/// otherwise, or writes a surrogate or a number above `0x10FFFF`.
pub open spec fn hex_char_spec(s: Seq<char>) -> Option<char> {
    match parse_unsigned_spec(s, 16, u32::MAX as nat) {
        Some(n) => if is_scalar(n as int) {
            Some(n as char)
        } else {
            None
        },
        None => None,
    }
}

/// The two ends of the range that `s` writes as two hexadecimal code points
/// with the first `sep` between them. None if `sep` does not occur in `s`, or
/// if either side of it writes no character.
pub open spec fn unicode_bounds_spec(s: Seq<char>, sep: char) -> Option<(char, char)> {
    match split_first(s, sep) {
        Some((left, right)) => match (hex_char_spec(left), hex_char_spec(right)) {
            (Some(low), Some(high)) => Some((low, high)),
            _ => None,
        },
        None => None,
    }
}

/// Reads `s` as the hexadecimal code point of a character.
pub fn parse_hex_char(s: &Vec<char>) -> (r: Option<char>)
    ensures
        r == hex_char_spec(s@),
{
    match parse_unsigned(s, 16, u32::MAX) {
        Some(n) => char::from_u32(n),
        None => None,
    }
}

/// Reads `s` as two hexadecimal code points with `separator` between them,
/// and gives the two characters.
pub fn parse_unicode_bounds(s: &str, separator: char) -> (r: Option<(char, char)>)
    ensures
        r == unicode_bounds_spec(s@, separator),
{
    let chars = chars_of(s);
    proof {
        lemma_split_first(s@, separator);
    }
    match find_first(&chars, separator) {
        None => None,
        Some(i) => {
            proof {
                lemma_split_first_at(s@, separator, i as int);
            }
            let mut left: Vec<char> = Vec::new();
            let mut k: usize = 0;
            while k < i
                invariant
                    k <= i < chars.len(),
                    left@ == chars@.subrange(0, k as int),
                decreases i - k,
            {
                left.push(chars[k]);
                assert(chars@.subrange(0, k + 1) =~= chars@.subrange(0, k as int).push(
                    chars@[k as int],
                ));
                k += 1;
            }
            let mut right: Vec<char> = Vec::new();
            let mut k: usize = i + 1;
            while k < chars.len()
                invariant
                    i < k <= chars.len(),
                    right@ == chars@.subrange(i + 1, k as int),
                decreases chars.len() - k,
            {
                right.push(chars[k]);
                assert(chars@.subrange(i + 1, k + 1) =~= chars@.subrange(i + 1, k as int).push(
                    chars@[k as int],
                ));
                k += 1;
            }
            match (parse_hex_char(&left), parse_hex_char(&right)) {
                (Some(low), Some(high)) => Some((low, high)),
                _ => None,
            }
        },
    }
}

/// Reads `s` as two hexadecimal code points with `separator` between them,
/// and gives the range from the first character to the second, both
/// included.
pub fn parse_unicode_range(s: &str, separator: char) -> (r: Option<RangeInclusive<char>>)
    ensures
        match r {
            Some(range) => unicode_bounds_spec(s@, separator) == Some(
                (range@.start, range@.end),
            ) && !range@.exhausted,
            None => unicode_bounds_spec(s@, separator) is None,
        },
{
    match parse_unicode_bounds(s, separator) {
        Some((low, high)) => Some(RangeInclusive::new(low, high)),
        None => None,
    }
}

/// The characters whose code points lie from `low` to `high`, both included,
/// in rising order. There are none if `high` is below `low`.
pub open spec fn scalars_between(low: int, high: int) -> Seq<char>
    decreases high - low + 1,
{
    if high < low {
        Seq::empty()
    } else if is_scalar(high) {
        scalars_between(low, high - 1).push(high as char)
    } else {
        scalars_between(low, high - 1)
    }
}

/// The code point of a character is a scalar value.
proof fn lemma_char_is_scalar(c: char)
    ensures
        is_scalar(c as int),
{
}

/// A range of characters holds each character between its ends once, and
/// nothing else, in rising order.
pub proof fn lemma_scalars_between(low: int, high: int)
    requires
        0 <= low,
        high <= MAX_CODE_POINT,
    ensures
        forall|i: int|
            0 <= i < scalars_between(low, high).len() ==> low <= (#[trigger] scalars_between(
                low,
                high,
            )[i]) as int <= high,
        forall|i: int, j: int|
            0 <= i < j < scalars_between(low, high).len() ==> (scalars_between(low, high)[i] as int)
                < (scalars_between(low, high)[j] as int),
        forall|c: char| low <= c as int <= high ==> scalars_between(low, high).contains(c),
        scalars_between(low, high).len() <= high - low + 1 || high < low,
    decreases high - low + 1,
{
    if high >= low {
        lemma_scalars_between(low, high - 1);
        let before = scalars_between(low, high - 1);
        let all = scalars_between(low, high);
        assert forall|c: char| low <= c as int <= high implies all.contains(c) by {
            if c as int == high {
                lemma_char_is_scalar(c);
                assert(all[all.len() - 1] == c);
            } else {
                assert(before.contains(c));
                let i = choose|i: int| 0 <= i < before.len() && before[i] == c;
                assert(all[i] == c);
            }
        }
    }
}

/// The characters from `low` to `high`, both included, in rising order.
pub fn chars_between(low: char, high: char) -> (v: Vec<char>)
    ensures
        v@ == scalars_between(low as int, high as int),
{
    let mut v: Vec<char> = Vec::new();
    let first: u32 = low as u32;
    let last: u32 = high as u32;
    if last < first {
        return v;
    }
    let mut n: u32 = first;
    assert(scalars_between(first as int, first - 1) =~= Seq::<char>::empty());
    while n <= last
        invariant
            first <= n <= last + 1,
            last <= MAX_CODE_POINT,
            v@ == scalars_between(first as int, n - 1),
        decreases last + 1 - n,
    {
        match char::from_u32(n) {
            Some(c) => {
                v.push(c);
            },
            None => {},
        }
        n += 1;
    }
    v
}

/// The digit `d` in upper-case hexadecimal.
pub open spec fn upper_hex_digit(d: int) -> char {
    if d < 10 {
        ('0' as int + d) as char
    } else {
        ('A' as int + d - 10) as char
    }
}

/// The number `n`, below `0x1000000`, as six upper-case hexadecimal digits.
pub open spec fn hex6(n: int) -> Seq<char> {
    seq![
        upper_hex_digit(n / 0x100000 % 16),
        upper_hex_digit(n / 0x10000 % 16),
        upper_hex_digit(n / 0x1000 % 16),
        upper_hex_digit(n / 0x100 % 16),
        upper_hex_digit(n / 0x10 % 16),
        upper_hex_digit(n % 16),
    ]
}

/// The line that lists `c`: `0x`, its code point as six upper-case
/// hexadecimal digits, a colon and a space, and `c` itself in square
/// brackets. For `A` it is `0x000041: [A]`.
pub open spec fn record_text(c: char) -> Seq<char> {
    seq!['0', 'x'] + hex6(c as int) + seq![':', ' ', '[', c, ']']
}

/// The lines that list the characters of `chars` that are no control
/// characters, one line each, in the order of `chars`.
pub open spec fn records(chars: Seq<char>) -> Seq<Seq<char>>
    decreases chars.len(),
{
    if chars.len() == 0 {
        Seq::empty()
    } else if is_control_spec(chars.last()) {
        records(chars.drop_last())
    } else {
        records(chars.drop_last()).push(record_text(chars.last()))
    }
}

/// The views of the strings of `lines`.
pub open spec fn texts(lines: Seq<String>) -> Seq<Seq<char>> {
    lines.map_values(|line: String| line@)
}

fn hex_digit_char(d: u32) -> (c: char)
    requires
        d < 16,
    ensures
        c == upper_hex_digit(d as int),
{
    let code: u32 = if d < 10 {
        48 + d
    } else {
        65 + d - 10
    };
    match char::from_u32(code) {
        Some(c) => c,
        None => '0',
    }
}

/// The line that lists `c`.
pub fn record(c: char) -> (line: String)
    ensures
        line@ == record_text(c),
{
    let n: u32 = c as u32;
    let mut v: Vec<char> = Vec::new();
    v.push('0');
    v.push('x');
    v.push(hex_digit_char(n / 0x100000 % 16));
    v.push(hex_digit_char(n / 0x10000 % 16));
    v.push(hex_digit_char(n / 0x1000 % 16));
    v.push(hex_digit_char(n / 0x100 % 16));
    v.push(hex_digit_char(n / 0x10 % 16));
    v.push(hex_digit_char(n % 16));
    v.push(':');
    v.push(' ');
    v.push('[');
    v.push(c);
    v.push(']');
    assert(v@ =~= record_text(c));
    string_of(&v)
}

/// Appends to `lines` the lines that list the characters of `chars` that are
/// no control characters.
pub fn push_records(lines: &mut Vec<String>, chars: &Vec<char>)
    ensures
        texts(final(lines)@) == texts(old(lines)@) + records(chars@),
{
    let ghost before = texts(lines@);
    let mut i: usize = 0;
    assert(chars@.take(0) =~= Seq::<char>::empty());
    assert(texts(lines@) =~= before + records(chars@.take(0)));
    while i < chars.len()
        invariant
            i <= chars.len(),
            texts(lines@) == before + records(chars@.take(i as int)),
        decreases chars.len() - i,
    {
        let c = chars[i];
        let ghost seen = chars@.take(i as int);
        let ghost more = chars@.take(i + 1);
        assert(more.drop_last() =~= seen);
        assert(more.last() == c);
        if !is_control(c) {
            let line = record(c);
            let ghost old_lines = lines@;
            lines.push(line);
            assert(texts(lines@) =~= texts(old_lines).push(line@));
            assert(texts(lines@) =~= before + records(more));
        }
        i += 1;
    }
    assert(chars@.take(i as int) =~= chars@);
}

} // verus!
