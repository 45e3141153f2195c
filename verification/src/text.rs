//! Text helpers shared by the codec and the typed-value layer: conversion
//! between strings and character vectors, decimal rendering of integers,
//! and the character classes of the wire grammar.

use vstd::prelude::*;

verus! {

/// The characters of a string, in order.
///
/// Trusted: calls `str::chars` and collects; the contract says that the
/// vector holds exactly the characters of `s`.
#[verifier::external_body]
pub(crate) fn chars_of(s: &str) -> (r: Vec<char>)
    ensures
        r@ == s@,
{
    s.chars().collect()
}

/// The string made of the given characters, in order.
///
/// Trusted: collects the characters with `String::from_iter`; the contract
/// says that the string holds exactly the characters of `v`.
#[verifier::external_body]
pub(crate) fn string_of(v: &Vec<char>) -> (r: String)
    ensures
        r@ == v@,
{
    String::from_iter(v.iter())
}

/// Whether two texts are the same.
pub fn same_text(a: &str, b: &str) -> (r: bool)
    ensures
        r == (a@ == b@),
{
    let left = a.to_string();
    let right = b.to_string();
    left == right
}

/// Whether two character vectors hold the same text.
pub fn same_chars(a: &Vec<char>, b: &Vec<char>) -> (r: bool)
    ensures
        r == (a@ == b@),
{
    if a.len() != b.len() {
        return false;
    }
    let mut i: usize = 0;
    while i < a.len()
        invariant
            i <= a@.len(),
            a@.len() == b@.len(),
            forall|k: int| 0 <= k < i ==> a@[k] == b@[k],
        decreases a@.len() - i,
    {
        if a[i] != b[i] {
            return false;
        }
        i += 1;
    }
    assert(a@ =~= b@);
    true
}

/// The decimal digit for `d` in `0..10`.
pub open spec fn digit_char(d: int) -> char {
    if d == 0 {
        '0'
    } else if d == 1 {
        '1'
    } else if d == 2 {
        '2'
    } else if d == 3 {
        '3'
    } else if d == 4 {
        '4'
    } else if d == 5 {
        '5'
    } else if d == 6 {
        '6'
    } else if d == 7 {
        '7'
    } else if d == 8 {
        '8'
    } else {
        '9'
    }
}

/// The decimal digits of a natural number, most significant first, without
/// leading zeros.
pub open spec fn nat_digits(n: nat) -> Seq<char>
    decreases n,
{
    if n < 10 {
        seq![digit_char(n as int)]
    } else {
        nat_digits(n / 10).push(digit_char((n % 10) as int))
    }
}

/// The decimal text of an integer: a minus sign for negative numbers, then
/// the digits of its magnitude.
pub open spec fn int_text(i: int) -> Seq<char> {
    if i < 0 {
        seq!['-'] + nat_digits((-i) as nat)
    } else {
        nat_digits(i as nat)
    }
}

fn digit(d: u64) -> (c: char)
    requires
        d < 10,
    ensures
        c == digit_char(d as int),
{
    if d == 0 {
        '0'
    } else if d == 1 {
        '1'
    } else if d == 2 {
        '2'
    } else if d == 3 {
        '3'
    } else if d == 4 {
        '4'
    } else if d == 5 {
        '5'
    } else if d == 6 {
        '6'
    } else if d == 7 {
        '7'
    } else if d == 8 {
        '8'
    } else {
        '9'
    }
}

fn magnitude_digits(n: u64) -> (out: Vec<char>)
    ensures
        out@ == nat_digits(n as nat),
{
    let mut out: Vec<char> = Vec::new();
    out.push(digit(n % 10));
    let mut rem: u64 = n / 10;
    assert(n < 10 ==> out@ =~= nat_digits(n as nat));
    while rem > 0
        invariant
            out@.len() > 0,
            rem > 0 ==> nat_digits(n as nat) == nat_digits(rem as nat) + out@,
            rem == 0 ==> nat_digits(n as nat) == out@,
        decreases rem,
    {
        let ghost before = out@;
        out.insert(0, digit(rem % 10));
        proof {
            let d = seq![digit_char((rem % 10) as int)];
            assert(out@ =~= d + before);
            if rem >= 10 {
                assert(nat_digits(rem as nat) == nat_digits((rem / 10) as nat).push(
                    digit_char((rem % 10) as int),
                ));
                assert(nat_digits((rem / 10) as nat).push(digit_char((rem % 10) as int)) + before
                    =~= nat_digits((rem / 10) as nat) + out@);
            } else {
                assert(nat_digits(rem as nat) =~= d);
            }
        }
        rem = rem / 10;
    }
    out
}

/// Renders a signed integer in decimal.
pub fn i64_text(v: i64) -> (r: String)
    ensures
        r@ == int_text(v as int),
{
    if v < 0 {
        let m: u64 = ((-(v + 1)) as u64) + 1;
        let digits = magnitude_digits(m);
        let mut out: Vec<char> = Vec::new();
        out.push('-');
        let mut i: usize = 0;
        while i < digits.len()
            invariant
                i <= digits.len(),
                out@ == seq!['-'] + digits@.subrange(0, i as int),
            decreases digits.len() - i,
        {
            out.push(digits[i]);
            assert(digits@.subrange(0, i as int).push(digits@[i as int]) =~= digits@.subrange(
                0,
                i + 1,
            ));
            i += 1;
        }
        assert(digits@.subrange(0, digits@.len() as int) =~= digits@);
        string_of(&out)
    } else {
        let digits = magnitude_digits(v as u64);
        string_of(&digits)
    }
}

/// Renders an unsigned size in decimal.
pub fn usize_text(v: usize) -> (r: String)
    ensures
        r@ == int_text(v as int),
{
    let digits = magnitude_digits(v as u64);
    string_of(&digits)
}

/// ASCII letters, ASCII digits and the underscore: the characters of a word.
pub open spec fn is_word_char(c: char) -> bool {
    ('a' <= c && c <= 'z') || ('A' <= c && c <= 'Z') || ('0' <= c && c <= '9') || c == '_'
}

/// The characters that may separate the parts of a message: the code points
/// with the Unicode property `White_Space`.
pub open spec fn is_space_char(c: char) -> bool {
    let n = c as u32;
    (0x09 <= n && n <= 0x0d) || n == 0x20 || n == 0x85 || n == 0xa0 || n == 0x1680 || (0x2000 <= n
        && n <= 0x200a) || n == 0x2028 || n == 0x2029 || n == 0x202f || n == 0x205f || n == 0x3000
}

/// The characters of a verb: word characters, `*` and `?`.
pub open spec fn is_verb_char(c: char) -> bool {
    is_word_char(c) || c == '*' || c == '?'
}

/// The characters of a specifier: word characters, `:`, `<`, `>` and `.`.
pub open spec fn is_spec_char(c: char) -> bool {
    is_word_char(c) || c == ':' || c == '<' || c == '>' || c == '.'
}

pub fn word_char(c: char) -> (r: bool)
    ensures
        r == is_word_char(c),
{
    ('a' <= c && c <= 'z') || ('A' <= c && c <= 'Z') || ('0' <= c && c <= '9') || c == '_'
}

pub fn space_char(c: char) -> (r: bool)
    ensures
        r == is_space_char(c),
{
    let n: u32 = c as u32;
    (0x09 <= n && n <= 0x0d) || n == 0x20 || n == 0x85 || n == 0xa0 || n == 0x1680 || (0x2000 <= n
        && n <= 0x200a) || n == 0x2028 || n == 0x2029 || n == 0x202f || n == 0x205f || n == 0x3000
}

pub fn verb_char(c: char) -> (r: bool)
    ensures
        r == is_verb_char(c),
{
    word_char(c) || c == '*' || c == '?'
}

pub fn spec_char(c: char) -> (r: bool)
    ensures
        r == is_spec_char(c),
{
    word_char(c) || c == ':' || c == '<' || c == '>' || c == '.'
}

/// The lower-case form of an ASCII letter; any other character unchanged.
pub open spec fn lower_char(c: char) -> char {
    if 'A' <= c && c <= 'Z' {
        ((c as u32) + 32) as char
    } else {
        c
    }
}

/// A name with its ASCII letters in lower case.
pub open spec fn lower_text(s: Seq<char>) -> Seq<char> {
    Seq::new(s.len(), |i: int| lower_char(s[i]))
}

pub fn to_lower(s: &str) -> (r: Vec<char>)
    ensures
        r@ == lower_text(s@),
{
    let chars = chars_of(s);
    let mut out: Vec<char> = Vec::new();
    let mut i: usize = 0;
    while i < chars.len()
        invariant
            i <= chars.len(),
            out@.len() == i,
            forall|k: int| 0 <= k < i ==> out@[k] == lower_char(chars@[k]),
        decreases chars.len() - i,
    {
        let c = chars[i];
        if 'A' <= c && c <= 'Z' {
            let n: u32 = (c as u32) + 32;
            out.push(n as u8 as char);
        } else {
            out.push(c);
        }
        i += 1;
    }
    assert(out@ =~= lower_text(s@));
    out
}

} // verus!
