//! Building text.

use vstd::prelude::*;
use crate::equality::chars_of;

verus! {

/// `String::push` appends one character.
pub assume_specification[ String::push ](s: &mut String, c: char)
    ensures
        final(s)@ == old(s)@.push(c),
;

/// The text made of one character.
pub fn char_text(c: char) -> (r: String)
    ensures
        r@ == seq![c],
{
    let mut s: String = String::new();
    s.push(c);
    assert(s@ =~= seq![c]);
    s
}

/// Where the first line of a text ends, its line break not counted.
pub open spec fn line_end(text: Seq<char>) -> nat
    decreases text.len(),
{
    if text.len() == 0 || text[0] == '\n' {
        0
    } else {
        1 + line_end(text.skip(1))
    }
}

/// The line of a text with the given number; the first one has number 1. A line break is a line
/// feed, or a carriage return and a line feed.
pub open spec fn nth_line(text: Seq<char>, n: nat) -> Option<Seq<char>>
    decreases n,
{
    let end = line_end(text) as int;
    if n == 0 || text.len() == 0 {
        None
    } else if n > 1 {
        if end < text.len() {
            nth_line(text.skip(end + 1), (n - 1) as nat)
        } else {
            None
        }
    } else if 0 < end < text.len() && text[end - 1] == '\r' {
        Some(text.take(end - 1))
    } else {
        Some(text.take(end))
    }
}

proof fn line_end_step(text: Seq<char>, at: int, k: int)
    requires
        0 <= at <= k < text.len(),
        forall|i: int| at <= i < k ==> text[i] != '\n',
    ensures
        text[k] == '\n' ==> line_end(text.skip(at)) == k - at,
        text[k] != '\n' && k + 1 == text.len() ==> line_end(text.skip(at)) == text.len() - at,
    decreases k - at,
{
    assert(text.skip(at)[0] == text[at]);
    assert(text.skip(at).skip(1) =~= text.skip(at + 1));
    if at < k {
        line_end_step(text, at + 1, k);
    } else {
        assert(line_end(Seq::<char>::empty()) == 0);
        if k + 1 == text.len() {
            assert(text.skip(at + 1) =~= Seq::<char>::empty());
        }
    }
}

/// The line of a text with the given number; the first one has number 1.
pub fn find_line(text: &str, n: u32) -> (r: Option<String>)
    ensures
        match r {
            None => nth_line(text@, n as nat) is None,
            Some(line) => nth_line(text@, n as nat) == Some(line@),
        },
{
    if n == 0 {
        return None;
    }
    let chars: Vec<char> = chars_of(text);
    let mut start: usize = 0;
    let mut left: u32 = n;
    assert(chars@.skip(0) =~= text@);
    while left > 1
        invariant
            chars@ == text@,
            1 <= left <= n,
            start <= chars@.len(),
            nth_line(text@, n as nat) == nth_line(chars@.skip(start as int), left as nat),
        decreases left,
    {
        let end: usize = end_of_line(&chars, start);
        if end >= chars.len() {
            return None;
        }
        assert(chars@.skip(start as int).skip(end - start + 1) =~= chars@.skip(end + 1));
        start = end + 1;
        left = left - 1;
    }
    if start >= chars.len() {
        return None;
    }
    let end: usize = end_of_line(&chars, start);
    let mut stop: usize = end;
    if start < end && end < chars.len() && chars[end - 1] == '\r' {
        stop = end - 1;
    }
    let mut line: String = String::new();
    let mut i: usize = start;
    while i < stop
        invariant
            start <= i <= stop <= chars@.len(),
            line@ == chars@.subrange(start as int, i as int),
        decreases stop - i,
    {
        line.push(chars[i]);
        i = i + 1;
        assert(line@ =~= chars@.subrange(start as int, i as int));
    }
    assert(line@ =~= chars@.skip(start as int).take(stop - start));
    Some(line)
}

/// Where the line that starts at a position ends.
fn end_of_line(chars: &Vec<char>, start: usize) -> (r: usize)
    requires
        start <= chars@.len(),
    ensures
        start <= r <= chars@.len(),
        r == start + line_end(chars@.skip(start as int)),
{
    let mut k: usize = start;
    while k < chars.len()
        invariant
            start <= k <= chars@.len(),
            forall|i: int| start <= i < k ==> chars@[i] != '\n',
        decreases chars@.len() - k,
    {
        proof {
            line_end_step(chars@, start as int, k as int);
        }
        if chars[k] == '\n' {
            return k;
        }
        k = k + 1;
    }
    proof {
        if start < k {
            line_end_step(chars@, start as int, k - 1);
        }
    }
    k
}

/// The decimal digit for a number below ten.
pub open spec fn digit_char(d: nat) -> char {
    (48 + d) as char
}

/// The decimal digits of a number, without leading zeros.
pub open spec fn decimal(n: nat) -> Seq<char>
    decreases n,
{
    if n < 10 {
        seq![digit_char(n)]
    } else {
        decimal(n / 10).push(digit_char(n % 10))
    }
}

/// An integer in decimal notation.
pub open spec fn int_text(i: int) -> Seq<char> {
    if i < 0 {
        seq!['-'] + decimal((-i) as nat)
    } else {
        decimal(i as nat)
    }
}

/// The decimal digit for a number below ten.
pub fn decimal_digit(d: u8) -> (r: char)
    requires
        d < 10,
    ensures
        r == digit_char(d as nat),
{
    match d {
        0 => '0',
        1 => '1',
        2 => '2',
        3 => '3',
        4 => '4',
        5 => '5',
        6 => '6',
        7 => '7',
        8 => '8',
        _ => '9',
    }
}

/// A number in decimal notation.
pub fn number_text(n: u64) -> (r: String)
    ensures
        r@ == decimal(n as nat),
    decreases n,
{
    if n < 10 {
        char_text(decimal_digit(n as u8))
    } else {
        let mut s: String = number_text(n / 10);
        s.push(decimal_digit((n % 10) as u8));
        s
    }
}

/// An integer in decimal notation.
pub fn i64_text(i: i64) -> (r: String)
    ensures
        r@ == int_text(i as int),
{
    if i >= 0 {
        return number_text(i as u64);
    }
    let m: u64 = if i == i64::MIN {
        0x8000_0000_0000_0000
    } else {
        (-i) as u64
    };
    char_text('-').concat(number_text(m).as_str())
}

} // verus!
