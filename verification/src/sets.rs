//! Small sets of handler ids and lists of names, kept as vectors without
//! repetition.

use vstd::prelude::*;

verus! {

/// The first place at or after `from` where `h` stands in `s`, or the
/// length of `s` where it does not.
pub open spec fn position(s: Seq<u64>, h: u64, from: int) -> int
    decreases s.len() - from,
{
    if 0 <= from < s.len() {
        if s[from] == h {
            from
        } else {
            position(s, h, from + 1)
        }
    } else {
        s.len() as int
    }
}

/// The first place at or after `from` where `name` stands in `names`, or
/// the length of `names` where it does not.
pub open spec fn name_position(names: Seq<Seq<char>>, name: Seq<char>, from: int) -> int
    decreases names.len() - from,
{
    if 0 <= from < names.len() {
        if names[from] == name {
            from
        } else {
            name_position(names, name, from + 1)
        }
    } else {
        names.len() as int
    }
}

/// No item stands twice.
pub open spec fn distinct(s: Seq<u64>) -> bool {
    forall|i: int, j: int| 0 <= i < j < s.len() ==> s[i] != s[j]
}

/// No name stands twice.
pub open spec fn distinct_names(s: Seq<Seq<char>>) -> bool {
    forall|i: int, j: int| 0 <= i < j < s.len() ==> s[i] != s[j]
}

/// The set without `h`.
pub open spec fn without(s: Seq<u64>, h: u64) -> Seq<u64> {
    let at = position(s, h, 0);
    if at < s.len() {
        s.remove(at)
    } else {
        s
    }
}

/// The set with `h`.
pub open spec fn with(s: Seq<u64>, h: u64) -> Seq<u64> {
    if s.contains(h) {
        s
    } else {
        s.push(h)
    }
}

/// The names of a list of strings.
pub open spec fn names_of(v: Seq<String>) -> Seq<Seq<char>> {
    Seq::new(v.len(), |i: int| v[i]@)
}

pub proof fn lemma_position(s: Seq<u64>, h: u64, from: int)
    requires
        0 <= from <= s.len(),
    ensures
        from <= position(s, h, from) <= s.len(),
        position(s, h, from) < s.len() ==> s[position(s, h, from)] == h,
        forall|k: int| from <= k < position(s, h, from) ==> s[k] != h,
    decreases s.len() - from,
{
    if from < s.len() && s[from] != h {
        lemma_position(s, h, from + 1);
    }
}

pub proof fn lemma_name_position(names: Seq<Seq<char>>, name: Seq<char>, from: int)
    requires
        0 <= from <= names.len(),
    ensures
        from <= name_position(names, name, from) <= names.len(),
        name_position(names, name, from) < names.len() ==> names[name_position(
            names,
            name,
            from,
        )] == name,
        forall|k: int| from <= k < name_position(names, name, from) ==> names[k] != name,
    decreases names.len() - from,
{
    if from < names.len() && names[from] != name {
        lemma_name_position(names, name, from + 1);
    }
}

/// An item is in a set exactly where it has a place in it.
pub proof fn lemma_contains(s: Seq<u64>, h: u64)
    ensures
        s.contains(h) <==> position(s, h, 0) < s.len(),
{
    lemma_position(s, h, 0);
    if s.contains(h) {
        let k = choose|k: int| 0 <= k < s.len() && s[k] == h;
        assert(s[k] == h);
    }
}

/// What holds of a set after an item was taken out.
pub proof fn lemma_without(s: Seq<u64>, h: u64)
    requires
        distinct(s),
    ensures
        distinct(without(s, h)),
        !without(s, h).contains(h),
        forall|x: u64| x != h ==> (without(s, h).contains(x) <==> s.contains(x)),
        forall|x: u64| without(s, h).contains(x) ==> s.contains(x),
{
    lemma_position(s, h, 0);
    let at = position(s, h, 0);
    let r = without(s, h);
    if at < s.len() {
        assert(forall|k: int| 0 <= k < at ==> r[k] == s[k]);
        assert(forall|k: int| at <= k < r.len() ==> r[k] == s[k + 1]);
        assert forall|x: u64| r.contains(x) implies s.contains(x) && x != h by {
            let k = choose|k: int| 0 <= k < r.len() && r[k] == x;
            if k < at {
                assert(s[k] == x);
            } else {
                assert(s[k + 1] == x);
            }
        }
        assert forall|x: u64| x != h && s.contains(x) implies r.contains(x) by {
            let k = choose|k: int| 0 <= k < s.len() && s[k] == x;
            if k < at {
                assert(r[k] == x);
            } else {
                assert(r[k - 1] == x);
            }
        }
    } else {
        assert forall|x: u64| r.contains(x) implies x != h by {
            let k = choose|k: int| 0 <= k < r.len() && r[k] == x;
        }
    }
}

/// What holds of a set after an item was put in.
pub proof fn lemma_with(s: Seq<u64>, h: u64)
    requires
        distinct(s),
    ensures
        distinct(with(s, h)),
        with(s, h).contains(h),
        forall|x: u64| with(s, h).contains(x) <==> (s.contains(x) || x == h),
{
    let r = with(s, h);
    if !s.contains(h) {
        assert(r[s.len() as int] == h);
        assert forall|x: u64| r.contains(x) implies s.contains(x) || x == h by {
            let k = choose|k: int| 0 <= k < r.len() && r[k] == x;
            if k < s.len() {
                assert(s[k] == x);
            }
        }
        assert forall|x: u64| s.contains(x) implies r.contains(x) by {
            let k = choose|k: int| 0 <= k < s.len() && s[k] == x;
            assert(r[k] == x);
        }
        assert forall|i: int, j: int| 0 <= i < j < r.len() implies r[i] != r[j] by {
            if j == s.len() {
                assert(s[i] == r[i]);
                assert(s.contains(r[i]));
            }
        }
    }
}

/// Finds the place of `h`.
pub fn find_hid(v: &Vec<u64>, h: u64) -> (r: usize)
    ensures
        r == position(v@, h, 0),
        r <= v@.len(),
        (r < v@.len()) == v@.contains(h),
{
    let mut i: usize = 0;
    while i < v.len() && v[i] != h
        invariant
            i <= v@.len(),
            position(v@, h, 0) == position(v@, h, i as int),
        decreases v@.len() - i,
    {
        i += 1;
    }
    proof {
        lemma_position(v@, h, 0);
        lemma_contains(v@, h);
    }
    i
}

/// Finds the place of `name`.
pub fn find_name(v: &Vec<String>, name: &String) -> (r: usize)
    ensures
        r == name_position(names_of(v@), name@, 0),
        r <= v@.len(),
{
    let mut i: usize = 0;
    while i < v.len() && !(v[i] == *name)
        invariant
            i <= v@.len(),
            name_position(names_of(v@), name@, 0) == name_position(names_of(v@), name@, i as int),
        decreases v@.len() - i,
    {
        i += 1;
    }
    proof {
        lemma_name_position(names_of(v@), name@, 0);
    }
    i
}

/// Takes `h` out of the set.
pub fn remove_hid(v: &mut Vec<u64>, h: u64)
    ensures
        final(v)@ == without(old(v)@, h),
{
    let at: usize = find_hid(v, h);
    if at < v.len() {
        v.remove(at);
    }
}

/// Puts `h` into the set.
pub fn insert_hid(v: &mut Vec<u64>, h: u64)
    ensures
        final(v)@ == with(old(v)@, h),
{
    let at: usize = find_hid(v, h);
    if at >= v.len() {
        v.push(h);
    }
}

} // verus!
