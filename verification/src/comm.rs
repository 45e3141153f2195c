//! Line framing for modules that talk to hardware over a byte stream: the
//! bytes that came in are cut at the end-of-line sequence.

use vstd::prelude::*;

verus! {

/// Whether the end-of-line sequence stands at place `at` of the buffer.
pub open spec fn eol_at(buffer: Seq<u8>, eol: Seq<u8>, at: int) -> bool {
    0 <= at && at + eol.len() <= buffer.len() && buffer.subrange(at, at + eol.len()) == eol
}

/// The first place at or after `from` where the end-of-line sequence
/// stands, or the length of the buffer where it stands nowhere.
pub open spec fn eol_position(buffer: Seq<u8>, eol: Seq<u8>, from: int) -> int
    decreases buffer.len() - from,
{
    if 0 <= from < buffer.len() {
        if eol_at(buffer, eol, from) {
            from
        } else {
            eol_position(buffer, eol, from + 1)
        }
    } else {
        buffer.len() as int
    }
}

proof fn lemma_eol_position(buffer: Seq<u8>, eol: Seq<u8>, from: int)
    requires
        0 <= from <= buffer.len(),
    ensures
        from <= eol_position(buffer, eol, from) <= buffer.len(),
        eol_position(buffer, eol, from) < buffer.len() ==> eol_at(
            buffer,
            eol,
            eol_position(buffer, eol, from),
        ),
    decreases buffer.len() - from,
{
    if from < buffer.len() && !eol_at(buffer, eol, from) {
        lemma_eol_position(buffer, eol, from + 1);
    }
}

fn stands_at(buffer: &Vec<u8>, eol: &Vec<u8>, at: usize) -> (r: bool)
    requires
        at < buffer@.len(),
    ensures
        r == eol_at(buffer@, eol@, at as int),
{
    let n: usize = buffer.len();
    if eol.len() > n - at {
        return false;
    }
    let mut k: usize = 0;
    while k < eol.len()
        invariant
            k <= eol@.len(),
            n == buffer@.len(),
            at + eol@.len() <= buffer@.len(),
            forall|j: int| 0 <= j < k ==> buffer@[at + j] == eol@[j],
        decreases eol@.len() - k,
    {
        if buffer[at + k] != eol[k] {
            assert(buffer@.subrange(at as int, at + eol@.len())[k as int] != eol@[k as int]);
            return false;
        }
        k += 1;
    }
    assert(buffer@.subrange(at as int, at + eol@.len()) =~= eol@);
    true
}

/// Whether the buffer holds a complete line.
pub fn has_line(buffer: &Vec<u8>, eol: &Vec<u8>) -> (r: bool)
    requires
        eol@.len() > 0,
    ensures
        r == (eol_position(buffer@, eol@, 0) < buffer@.len()),
{
    find_eol(buffer, eol) < buffer.len()
}

/// The first place where the end-of-line sequence stands.
pub fn find_eol(buffer: &Vec<u8>, eol: &Vec<u8>) -> (r: usize)
    requires
        eol@.len() > 0,
    ensures
        r == eol_position(buffer@, eol@, 0),
        r <= buffer@.len(),
{
    let mut i: usize = 0;
    while i < buffer.len() && !stands_at(buffer, eol, i)
        invariant
            i <= buffer@.len(),
            eol_position(buffer@, eol@, 0) == eol_position(buffer@, eol@, i as int),
        decreases buffer@.len() - i,
    {
        i += 1;
    }
    proof {
        lemma_eol_position(buffer@, eol@, 0);
    }
    i
}

/// Takes the first line out of the buffer: the bytes before the first
/// end-of-line sequence are returned, and they and the sequence are removed
/// from the buffer.  Nothing is taken where no line is complete.
pub fn take_line(buffer: &mut Vec<u8>, eol: &Vec<u8>) -> (r: Option<Vec<u8>>)
    requires
        eol@.len() > 0,
    ensures
        ({
            let at = eol_position(old(buffer)@, eol@, 0);
            match r {
                Some(line) => at < old(buffer)@.len() && line@ == old(buffer)@.subrange(0, at)
                    && final(buffer)@ == old(buffer)@.subrange(
                    at + eol@.len(),
                    old(buffer)@.len() as int,
                ),
                None => at == old(buffer)@.len() && final(buffer)@ == old(buffer)@,
            }
        }),
{
    let at: usize = find_eol(buffer, eol);
    if at >= buffer.len() {
        return None;
    }
    proof {
        lemma_eol_position(buffer@, eol@, 0);
    }
    let mut line: Vec<u8> = Vec::new();
    let mut i: usize = 0;
    while i < at
        invariant
            i <= at < buffer@.len(),
            line@ == buffer@.subrange(0, i as int),
        decreases at - i,
    {
        line.push(buffer[i]);
        assert(buffer@.subrange(0, i as int).push(buffer@[i as int]) =~= buffer@.subrange(
            0,
            i + 1,
        ));
        i += 1;
    }
    let mut rest: Vec<u8> = Vec::new();
    let start: usize = at + eol.len();
    let mut i: usize = start;
    while i < buffer.len()
        invariant
            start <= i <= buffer@.len(),
            rest@ == buffer@.subrange(start as int, i as int),
        decreases buffer@.len() - i,
    {
        rest.push(buffer[i]);
        assert(buffer@.subrange(start as int, i as int).push(buffer@[i as int])
            =~= buffer@.subrange(start as int, i + 1));
        i += 1;
    }
    *buffer = rest;
    Some(line)
}

} // verus!
