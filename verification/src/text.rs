//! Text as sequences of characters: conversion between `str`, `String` and
//! `Vec<char>`, joining, numbers in decimal, padding and cutting to a width.

use vstd::prelude::*;
use vstd::string::StringExecFns;

verus! {

/// `String::push` of the standard library, taken at its documented word and
/// not proved here: the string afterwards is the string before with `ch`
/// appended.
pub assume_specification[ String::push ](s: &mut String, ch: char)
    ensures
        final(s)@ == old(s)@.push(ch),
;

/// The characters of `s`, in order.
pub fn chars_of(s: &str) -> (chars: Vec<char>)
    ensures
        chars@ == s@,
{
    let mut chars: Vec<char> = Vec::new();
    for c in iter: s.chars()
        invariant
            iter.seq() == s@,
            chars@ == s@.take(iter.index()),
    {
        assert(s@.take(iter.index() + 1) =~= s@.take(iter.index()).push(c));
        chars.push(c);
    }
    assert(s@.take(s@.len() as int) =~= s@);
    chars
}

/// The string made of the characters of `chars` from position `from` up to,
/// not including, position `to`.
pub fn string_of_range(chars: &Vec<char>, from: usize, to: usize) -> (s: String)
    requires
        from <= to <= chars.len(),
    ensures
        s@ == chars@.subrange(from as int, to as int),
{
    let mut s = String::new();
    let mut i: usize = from;
    while i < to
        invariant
            from <= i <= to <= chars.len(),
            s@ == chars@.subrange(from as int, i as int),
        decreases to - i,
    {
        s.push(chars[i]);
        assert(chars@.subrange(from as int, i + 1) =~= chars@.subrange(from as int, i as int).push(
            chars@[i as int],
        ));
        i += 1;
    }
    s
}

/// The string made of `chars`, in order.
pub fn string_of(chars: &Vec<char>) -> (s: String)
    ensures
        s@ == chars@,
{
    assert(chars@.subrange(0, chars@.len() as int) =~= chars@);
    string_of_range(chars, 0, chars.len())
}

/// The items of `parts` written one after the other with `sep` between neighbours.
pub open spec fn join_with(parts: Seq<Seq<char>>, sep: char) -> Seq<char>
    decreases parts.len(),
{
    if parts.len() == 0 {
        Seq::empty()
    } else if parts.len() == 1 {
        parts[0]
    } else {
        join_with(parts.drop_last(), sep) + seq![sep] + parts.last()
    }
}

/// The views of the items of `items`, in order.
pub open spec fn views<T: View>(items: Seq<T>) -> Seq<T::V> {
    items.map_values(|item: T| item@)
}

/// The path of `child` inside the directory `dir`: the two joined by one slash.
pub open spec fn child_path(dir: Seq<char>, child: Seq<char>) -> Seq<char> {
    dir + seq!['/'] + child
}

/// The path of `child` inside the directory `dir`.
pub fn join_path(dir: &str, child: &str) -> (path: String)
    ensures
        path@ == child_path(dir@, child@),
{
    let mut path = dir.to_owned();
    path.push('/');
    path.append(child);
    path
}

/// The decimal digit for `d`, which is below ten.
pub open spec fn digit(d: nat) -> char {
    seq!['0', '1', '2', '3', '4', '5', '6', '7', '8', '9'][d as int]
}

/// `n` written in decimal, without sign or leading zeros.
pub open spec fn decimal(n: nat) -> Seq<char>
    decreases n,
{
    if n < 10 {
        seq![digit(n)]
    } else {
        decimal(n / 10).push(digit(n % 10))
    }
}

/// The number that the decimal digits `digits` write.
pub open spec fn decimal_value(digits: Seq<char>) -> nat
    decreases digits.len(),
{
    if digits.len() == 0 {
        0
    } else {
        10 * decimal_value(digits.drop_last()) + (digits.last() as u8 - '0' as u8) as nat
    }
}

/// A number's decimal form writes that number, so two numbers with the same
/// decimal form are the same.
pub proof fn lemma_decimal_value(n: nat)
    ensures
        decimal_value(decimal(n)) == n,
        decimal(n).len() > 0,
    decreases n,
{
    if n < 10 {
        assert(decimal(n).drop_last() =~= Seq::<char>::empty());
        assert(decimal_value(decimal(n).drop_last()) == 0);
    } else {
        lemma_decimal_value(n / 10);
        assert(decimal(n).drop_last() =~= decimal(n / 10));
    }
}

fn digit_char(d: u64) -> (c: char)
    requires
        d < 10,
    ensures
        c == digit(d as nat),
{
    match d {
        0 => '0',
        1 => '1',
        2 => '2',
        3 => '3',
        4 => '4',
        5 => '5',
        6 => '6',
        7 => '7',
        8 => '8',
        _ => '9',
    }
}

/// Appends `n` in decimal to `s`.
pub fn push_decimal(s: &mut String, n: u64)
    ensures
        final(s)@ == old(s)@ + decimal(n as nat),
    decreases n,
{
    if n >= 10 {
        push_decimal(s, n / 10);
    }
    s.push(digit_char(n % 10));
    assert(s@ =~= old(s)@ + decimal(n as nat));
}

/// `n` written in decimal.
pub fn decimal_string(n: u64) -> (s: String)
    ensures
        s@ == decimal(n as nat),
{
    let mut s = String::new();
    push_decimal(&mut s, n);
    assert(s@ =~= decimal(n as nat));
    s
}

/// `n` times the character `c`.
pub open spec fn repeated(c: char, n: nat) -> Seq<char> {
    Seq::new(n, |i: int| c)
}

/// `s` brought to `width` characters by copies of `fill` in front; a longer
/// `s` stays as it is.
pub open spec fn padded_left(s: Seq<char>, fill: char, width: nat) -> Seq<char> {
    if s.len() >= width {
        s
    } else {
        repeated(fill, (width - s.len()) as nat) + s
    }
}

/// `s` brought to `width` characters by copies of `fill` on both sides, the
/// odd one behind; a longer `s` stays as it is.
pub open spec fn centered(s: Seq<char>, fill: char, width: nat) -> Seq<char> {
    if s.len() >= width {
        s
    } else {
        let pad = (width - s.len()) as nat;
        repeated(fill, pad / 2) + s + repeated(fill, (pad - pad / 2) as nat)
    }
}

/// The first `max` characters of `s`, or all of `s` where it has no more.
pub open spec fn clipped(s: Seq<char>, max: nat) -> Seq<char> {
    if s.len() > max {
        s.take(max as int)
    } else {
        s
    }
}

/// Appends `n` copies of `c` to `s`.
pub fn push_repeated(s: &mut String, c: char, n: usize)
    ensures
        final(s)@ == old(s)@ + repeated(c, n as nat),
{
    let mut i: usize = 0;
    assert(s@ =~= old(s)@ + repeated(c, 0));
    while i < n
        invariant
            i <= n,
            s@ == old(s)@ + repeated(c, i as nat),
        decreases n - i,
    {
        s.push(c);
        i += 1;
        assert(s@ =~= old(s)@ + repeated(c, i as nat));
    }
}

/// Appends the characters of `chars` to `s`.
pub fn push_chars(s: &mut String, chars: &Vec<char>)
    ensures
        final(s)@ == old(s)@ + chars@,
{
    let mut i: usize = 0;
    assert(s@ =~= old(s)@ + chars@.take(0));
    while i < chars.len()
        invariant
            i <= chars.len(),
            s@ == old(s)@ + chars@.take(i as int),
        decreases chars.len() - i,
    {
        s.push(chars[i]);
        i += 1;
        assert(s@ =~= old(s)@ + chars@.take(i as int));
    }
    assert(chars@.take(chars@.len() as int) =~= chars@);
}

/// Appends `text`, brought to `width` characters by `fill` in front, to `s`.
pub fn push_padded_left(s: &mut String, text: &str, fill: char, width: usize)
    ensures
        final(s)@ == old(s)@ + padded_left(text@, fill, width as nat),
{
    let chars = chars_of(text);
    if chars.len() < width {
        push_repeated(s, fill, width - chars.len());
    }
    push_chars(s, &chars);
    assert(s@ =~= old(s)@ + padded_left(text@, fill, width as nat));
}

/// Appends `text`, brought to `width` characters by `fill` on both sides, to `s`.
pub fn push_centered(s: &mut String, text: &str, fill: char, width: usize)
    ensures
        final(s)@ == old(s)@ + centered(text@, fill, width as nat),
{
    let chars = chars_of(text);
    if chars.len() < width {
        let pad = width - chars.len();
        push_repeated(s, fill, pad / 2);
        push_chars(s, &chars);
        push_repeated(s, fill, pad - pad / 2);
    } else {
        push_chars(s, &chars);
    }
    assert(s@ =~= old(s)@ + centered(text@, fill, width as nat));
}

/// The first `max` characters of `text`, or all of it where it has no more.
pub fn clip(text: &str, max: usize) -> (short: String)
    ensures
        short@ == clipped(text@, max as nat),
{
    let chars = chars_of(text);
    if chars.len() > max {
        assert(chars@.subrange(0, max as int) =~= chars@.take(max as int));
        string_of_range(&chars, 0, max)
    } else {
        text.to_owned()
    }
}

} // verus!
