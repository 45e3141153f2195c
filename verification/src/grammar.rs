//! The shape of a line on the wire: a verb, then optionally a specifier,
//! then optionally a JSON text, each set off by one white-space character.

use vstd::prelude::*;
use crate::text::{chars_of, is_space_char, is_spec_char, is_verb_char, space_char, spec_char,
    string_of, verb_char};

verus! {

/// Where the longest run of verb characters that starts at `from` ends.
pub open spec fn verb_end(s: Seq<char>, from: int) -> int
    decreases s.len() - from,
{
    if 0 <= from < s.len() && is_verb_char(s[from]) {
        verb_end(s, from + 1)
    } else {
        from
    }
}

/// Where the longest run of specifier characters that starts at `from` ends.
pub open spec fn spec_end(s: Seq<char>, from: int) -> int
    decreases s.len() - from,
{
    if 0 <= from < s.len() && is_spec_char(s[from]) {
        spec_end(s, from + 1)
    } else {
        from
    }
}

/// The index of the first `c` in `s` at or after `from`, or the length of
/// `s` where there is none.
pub open spec fn find_char(s: Seq<char>, c: char, from: int) -> int
    decreases s.len() - from,
{
    if 0 <= from < s.len() {
        if s[from] == c {
            from
        } else {
            find_char(s, c, from + 1)
        }
    } else {
        s.len() as int
    }
}

/// The parts of a line.
pub struct LineParts {
    pub verb: Seq<char>,
    pub specifier: Option<Seq<char>>,
    pub json: Option<Seq<char>>,
}

/// Splits a line into its parts, or gives nothing where the line has not
/// the shape of a message.
///
/// The verb is the longest run of verb characters at the start and is not
/// empty.  If the line goes on, one white-space character and a non-empty
/// run of specifier characters follow; if it still goes on, one white-space
/// character follows and the rest, which holds no line feed, is the JSON
/// text.
pub open spec fn split_spec(s: Seq<char>) -> Option<LineParts> {
    let v = verb_end(s, 0);
    if v == 0 {
        None
    } else if v == s.len() {
        Some(LineParts { verb: s, specifier: None, json: None })
    } else if !is_space_char(s[v]) {
        None
    } else {
        let e = spec_end(s, v + 1);
        if e == v + 1 {
            None
        } else if e == s.len() {
            Some(
                LineParts {
                    verb: s.subrange(0, v),
                    specifier: Some(s.subrange(v + 1, e)),
                    json: None,
                },
            )
        } else if !is_space_char(s[e]) {
            None
        } else if find_char(s, '\n', e + 1) < s.len() {
            None
        } else {
            Some(
                LineParts {
                    verb: s.subrange(0, v),
                    specifier: Some(s.subrange(v + 1, e)),
                    json: Some(s.subrange(e + 1, s.len() as int)),
                },
            )
        }
    }
}

pub proof fn lemma_find_char_bounds(s: Seq<char>, c: char, from: int)
    requires
        0 <= from <= s.len(),
    ensures
        from <= find_char(s, c, from) <= s.len(),
        forall|k: int| from <= k < find_char(s, c, from) ==> s[k] != c,
        find_char(s, c, from) < s.len() ==> s[find_char(s, c, from)] == c,
    decreases s.len() - from,
{
    if from < s.len() && s[from] != c {
        lemma_find_char_bounds(s, c, from + 1);
    }
}

/// A run of verb characters that is followed by another character, or by
/// nothing, ends where it is said to end.
pub proof fn lemma_verb_end_is(s: Seq<char>, from: int, to: int)
    requires
        0 <= from <= to <= s.len(),
        forall|k: int| from <= k < to ==> is_verb_char(s[k]),
        to < s.len() ==> !is_verb_char(s[to]),
    ensures
        verb_end(s, from) == to,
    decreases to - from,
{
    if from < to {
        lemma_verb_end_is(s, from + 1, to);
    }
}

/// A run of specifier characters that is followed by another character, or
/// by nothing, ends where it is said to end.
pub proof fn lemma_spec_end_is(s: Seq<char>, from: int, to: int)
    requires
        0 <= from <= to <= s.len(),
        forall|k: int| from <= k < to ==> is_spec_char(s[k]),
        to < s.len() ==> !is_spec_char(s[to]),
    ensures
        spec_end(s, from) == to,
    decreases to - from,
{
    if from < to {
        lemma_spec_end_is(s, from + 1, to);
    }
}

/// The first `c` at or after `from` is at `at` where none stands before it.
pub proof fn lemma_find_char_is(s: Seq<char>, c: char, from: int, at: int)
    requires
        0 <= from <= at <= s.len(),
        forall|k: int| from <= k < at ==> s[k] != c,
        at < s.len() ==> s[at] == c,
    ensures
        find_char(s, c, from) == at,
    decreases at - from,
{
    if from < at {
        lemma_find_char_is(s, c, from + 1, at);
    }
}

/// The characters of `chars` from `from` up to `to`, as a string.
pub fn slice_string(chars: &Vec<char>, from: usize, to: usize) -> (r: String)
    requires
        from <= to <= chars@.len(),
    ensures
        r@ == chars@.subrange(from as int, to as int),
{
    let mut out: Vec<char> = Vec::new();
    let mut i: usize = from;
    while i < to
        invariant
            from <= i <= to <= chars@.len(),
            out@ == chars@.subrange(from as int, i as int),
        decreases to - i,
    {
        out.push(chars[i]);
        assert(chars@.subrange(from as int, i as int).push(chars@[i as int]) =~= chars@.subrange(
            from as int,
            i + 1,
        ));
        i += 1;
    }
    string_of(&out)
}

/// Finds the first `c` at or after `from`.
pub fn find(chars: &Vec<char>, c: char, from: usize) -> (r: usize)
    requires
        from <= chars@.len(),
    ensures
        r == find_char(chars@, c, from as int),
        from <= r <= chars@.len(),
{
    let mut i: usize = from;
    while i < chars.len() && chars[i] != c
        invariant
            from <= i <= chars@.len(),
            find_char(chars@, c, from as int) == find_char(chars@, c, i as int),
        decreases chars@.len() - i,
    {
        i += 1;
    }
    proof {
        lemma_find_char_bounds(chars@, c, from as int);
    }
    i
}

fn scan_verb(chars: &Vec<char>, from: usize) -> (r: usize)
    requires
        from <= chars@.len(),
    ensures
        r == verb_end(chars@, from as int),
        from <= r <= chars@.len(),
{
    let mut i: usize = from;
    while i < chars.len() && verb_char(chars[i])
        invariant
            from <= i <= chars@.len(),
            verb_end(chars@, from as int) == verb_end(chars@, i as int),
        decreases chars@.len() - i,
    {
        i += 1;
    }
    i
}

fn scan_spec(chars: &Vec<char>, from: usize) -> (r: usize)
    requires
        from <= chars@.len(),
    ensures
        r == spec_end(chars@, from as int),
        from <= r <= chars@.len(),
{
    let mut i: usize = from;
    while i < chars.len() && spec_char(chars[i])
        invariant
            from <= i <= chars@.len(),
            spec_end(chars@, from as int) == spec_end(chars@, i as int),
        decreases chars@.len() - i,
    {
        i += 1;
    }
    i
}

/// The parts of a line as strings: verb, specifier and JSON text.
pub struct Parts {
    pub verb: String,
    pub specifier: Option<String>,
    pub json: Option<String>,
}

impl View for Parts {
    type V = LineParts;

    open spec fn view(&self) -> LineParts {
        LineParts {
            verb: self.verb@,
            specifier: match self.specifier {
                Some(s) => Some(s@),
                None => None,
            },
            json: match self.json {
                Some(s) => Some(s@),
                None => None,
            },
        }
    }
}

/// Splits a line into verb, specifier and JSON text.
pub fn split_line(line: &str) -> (r: Option<Parts>)
    ensures
        match r {
            Some(parts) => split_spec(line@) == Some(parts@),
            None => split_spec(line@) is None,
        },
{
    let chars = chars_of(line);
    let n: usize = chars.len();
    let v: usize = scan_verb(&chars, 0);
    if v == 0 {
        return None;
    }
    if v == n {
        let verb = slice_string(&chars, 0, n);
        assert(chars@.subrange(0, n as int) =~= chars@);
        return Some(Parts { verb, specifier: None, json: None });
    }
    if !space_char(chars[v]) {
        return None;
    }
    let e: usize = scan_spec(&chars, v + 1);
    if e == v + 1 {
        return None;
    }
    if e == n {
        let verb = slice_string(&chars, 0, v);
        let specifier = slice_string(&chars, v + 1, e);
        return Some(Parts { verb, specifier: Some(specifier), json: None });
    }
    if !space_char(chars[e]) {
        return None;
    }
    if find(&chars, '\n', e + 1) < n {
        return None;
    }
    let verb = slice_string(&chars, 0, v);
    let specifier = slice_string(&chars, v + 1, e);
    let json = slice_string(&chars, e + 1, n);
    Some(Parts { verb, specifier: Some(specifier), json: Some(json) })
}

} // verus!
