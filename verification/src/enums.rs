//! Enumerations: named integers.  `Enum` holds its members as data,
//! `EnumType` is declared like the variants of a Rust enum, and
//! `StatusConstType` is the type of the status codes.

use vstd::prelude::*;
use crate::errors::{Error, ErrorKind, ErrorView};
use crate::json::{member_views_of, Json, JsonView};
use crate::text::{i64_text, int_text};
use crate::types::{bad_value, json_result, new_members, push_member, push_type, type_member,
    TypeInfo, TypeLaws};

verus! {

/// The first place at or after `from` where a member has the given name, or
/// the number of members where none has.
pub open spec fn find_name(members: Seq<(Seq<char>, i64)>, name: Seq<char>, from: int) -> int
    decreases members.len() - from,
{
    if 0 <= from < members.len() {
        if members[from].0 == name {
            from
        } else {
            find_name(members, name, from + 1)
        }
    } else {
        members.len() as int
    }
}

/// The first place at or after `from` where a member has the given value,
/// or the number of members where none has.
pub open spec fn find_value(members: Seq<(Seq<char>, i64)>, value: i64, from: int) -> int
    decreases members.len() - from,
{
    if 0 <= from < members.len() {
        if members[from].1 == value {
            from
        } else {
            find_value(members, value, from + 1)
        }
    } else {
        members.len() as int
    }
}

pub proof fn lemma_find_name_bounds(members: Seq<(Seq<char>, i64)>, name: Seq<char>, from: int)
    requires
        0 <= from <= members.len(),
    ensures
        from <= find_name(members, name, from) <= members.len(),
        find_name(members, name, from) < members.len() ==> members[find_name(
            members,
            name,
            from,
        )].0 == name,
        forall|k: int| from <= k < find_name(members, name, from) ==> members[k].0 != name,
    decreases members.len() - from,
{
    if from < members.len() && members[from].0 != name {
        lemma_find_name_bounds(members, name, from + 1);
    }
}

pub proof fn lemma_find_value_bounds(members: Seq<(Seq<char>, i64)>, value: i64, from: int)
    requires
        0 <= from <= members.len(),
    ensures
        from <= find_value(members, value, from) <= members.len(),
        find_value(members, value, from) < members.len() ==> members[find_value(
            members,
            value,
            from,
        )].1 == value,
        forall|k: int| from <= k < find_value(members, value, from) ==> members[k].1 != value,
    decreases members.len() - from,
{
    if from < members.len() && members[from].1 != value {
        lemma_find_value_bounds(members, value, from + 1);
    }
}

/// The first member with a value is where no member before it has it.
pub proof fn lemma_find_value_is(members: Seq<(Seq<char>, i64)>, value: i64, from: int, at: int)
    requires
        0 <= from <= at < members.len(),
        members[at].1 == value,
        forall|k: int| from <= k < at ==> members[k].1 != value,
    ensures
        find_value(members, value, from) == at,
    decreases at - from,
{
    if from < at {
        lemma_find_value_is(members, value, from + 1, at);
    }
}

/// The names and values of a list of members.
pub open spec fn pairs_of(members: Seq<(String, i64)>) -> Seq<(Seq<char>, i64)> {
    Seq::new(members.len(), |i: int| (members[i].0@, members[i].1))
}

/// The JSON object that maps each name to its value.
pub open spec fn members_json(members: Seq<(Seq<char>, i64)>) -> JsonView {
    JsonView::Object(Seq::new(members.len(), |i: int| (members[i].0, JsonView::Int(members[i].1))))
}

/// The description of an enumeration with the given members.
pub open spec fn enum_datainfo(members: Seq<(Seq<char>, i64)>) -> JsonView {
    JsonView::Object(seq![type_member("enum"@), ("members"@, members_json(members))])
}

fn position_of_name(members: &Vec<(String, i64)>, name: &String) -> (r: usize)
    ensures
        r == find_name(pairs_of(members@), name@, 0),
        r <= members@.len(),
{
    let mut i: usize = 0;
    while i < members.len() && !(members[i].0 == *name)
        invariant
            i <= members@.len(),
            find_name(pairs_of(members@), name@, 0) == find_name(pairs_of(members@), name@, i as int),
        decreases members@.len() - i,
    {
        i += 1;
    }
    proof {
        lemma_find_name_bounds(pairs_of(members@), name@, 0);
    }
    i
}

fn position_of_value(members: &Vec<(String, i64)>, value: i64) -> (r: usize)
    ensures
        r == find_value(pairs_of(members@), value, 0),
        r <= members@.len(),
{
    let mut i: usize = 0;
    while i < members.len() && members[i].1 != value
        invariant
            i <= members@.len(),
            find_value(pairs_of(members@), value, 0) == find_value(
                pairs_of(members@),
                value,
                i as int,
            ),
        decreases members@.len() - i,
    {
        i += 1;
    }
    proof {
        lemma_find_value_bounds(pairs_of(members@), value, 0);
    }
    i
}

fn describe_members(members: &Vec<(String, i64)>) -> (r: Json)
    ensures
        r@ == enum_datainfo(pairs_of(members@)),
{
    let mut entries: Vec<(String, Json)> = Vec::new();
    let mut i: usize = 0;
    while i < members.len()
        invariant
            i <= members@.len(),
            entries@.len() == i,
            forall|k: int|
                0 <= k < i ==> entries@[k].0@ == members@[k].0@ && entries@[k].1@ == JsonView::Int(
                    members@[k].1,
                ),
        decreases members@.len() - i,
    {
        entries.push((members[i].0.clone(), Json::Int(members[i].1)));
        i += 1;
    }
    let inner = Json::object(entries);
    assert(inner@->Object_0 =~= members_json(pairs_of(members@))->Object_0);
    let mut out = new_members();
    push_type(&mut out, "enum");
    push_member(&mut out, "members", inner);
    let r = Json::object(out);
    assert(r@->Object_0 =~= enum_datainfo(pairs_of(members@))->Object_0);
    r
}

/// An enumeration whose members are given as data.  A value of it is the
/// integer of a member.
pub struct Enum {
    pub members: Vec<(String, i64)>,
}

impl Enum {
    /// The names and values of the members.
    pub open spec fn pairs(&self) -> Seq<(Seq<char>, i64)> {
        pairs_of(self.members@)
    }

    /// The enumeration without members.
    pub fn new() -> (r: Enum)
        ensures
            r.pairs() == Seq::<(Seq<char>, i64)>::empty(),
    {
        let r = Enum { members: Vec::new() };
        assert(r.pairs() =~= Seq::<(Seq<char>, i64)>::empty());
        r
    }

    /// The pairs after `name` was bound to `value`: the member of that name
    /// gets the value, or a new member is added at the end.
    pub open spec fn bound(
        pairs: Seq<(Seq<char>, i64)>,
        name: Seq<char>,
        value: i64,
    ) -> Seq<(Seq<char>, i64)> {
        let at = find_name(pairs, name, 0);
        if at < pairs.len() {
            pairs.update(at, (name, value))
        } else {
            pairs.push((name, value))
        }
    }

    /// Binds `name` to `value`.
    pub fn insert(self, name: &str, value: i64) -> (r: Enum)
        ensures
            r.pairs() == Self::bound(self.pairs(), name@, value),
    {
        let mut members = self.members;
        let key = name.to_string();
        let at: usize = position_of_name(&members, &key);
        let ghost before = members@;
        if at < members.len() {
            members.set(at, (key, value));
            assert(pairs_of(members@) =~= pairs_of(before).update(at as int, (name@, value)));
        } else {
            members.push((key, value));
            assert(pairs_of(members@) =~= pairs_of(before).push((name@, value)));
        }
        Enum { members }
    }

    /// Binds `name` to the number of members that there are so far.
    pub fn add(self, name: &str) -> (r: Enum)
        requires
            self.members@.len() <= i64::MAX,
        ensures
            r.pairs() == Self::bound(self.pairs(), name@, self.members@.len() as i64),
    {
        let n: usize = self.members.len();
        self.insert(name, n as i64)
    }
}

impl TypeInfo for Enum {
    type Repr = i64;

    open spec fn datainfo(&self) -> JsonView {
        enum_datainfo(self.pairs())
    }

    open spec fn encoded(&self, val: i64) -> Result<JsonView, ErrorView> {
        if find_value(self.pairs(), val, 0) < self.pairs().len() {
            Ok(JsonView::Int(val))
        } else {
            Err(bad_value("integer not an enum member"@))
        }
    }

    open spec fn decoded(&self, val: JsonView) -> Result<i64, ErrorView> {
        match val {
            JsonView::Str(s) => {
                let at = find_name(self.pairs(), s, 0);
                if at < self.pairs().len() {
                    Ok(self.pairs()[at].1)
                } else {
                    Err(bad_value("string not an enum member"@))
                }
            },
            JsonView::Int(i) => if find_value(self.pairs(), i, 0) < self.pairs().len() {
                Ok(i)
            } else {
                Err(bad_value("integer not an enum member"@))
            },
            _ => Err(bad_value("expected string or integer"@)),
        }
    }

    open spec fn faithful(&self, val: i64) -> bool {
        true
    }

    fn describe(&self) -> (r: Json) {
        describe_members(&self.members)
    }

    fn to_json(&self, val: i64) -> (r: Result<Json, Error>) {
        if position_of_value(&self.members, val) < self.members.len() {
            Ok(Json::Int(val))
        } else {
            Err(Error::bad_value("integer not an enum member"))
        }
    }

    fn from_json(&self, val: &Json) -> (r: Result<i64, Error>) {
        match val {
            Json::Str(s) => {
                let at: usize = position_of_name(&self.members, s);
                if at < self.members.len() {
                    Ok(self.members[at].1)
                } else {
                    Err(Error::bad_value("string not an enum member"))
                }
            },
            Json::Int(i) => {
                if position_of_value(&self.members, *i) < self.members.len() {
                    Ok(*i)
                } else {
                    Err(Error::bad_value("integer not an enum member"))
                }
            },
            _ => Err(Error::bad_value("expected string or integer")),
        }
    }
}

impl TypeLaws for Enum {
    proof fn lemma_decode_encode(&self, val: i64) {
    }

    proof fn lemma_encode_error(&self, val: i64) {
    }

    proof fn lemma_decode_error(&self, val: JsonView) {
    }
}

/// A member's name and its integer are accepted alike: where the
/// enumeration binds `name` to `value`, the string `name` and the integer
/// `value` decode to the same value.
pub proof fn lemma_enum_acceptance(e: Enum, name: Seq<char>, value: i64)
    requires
        find_name(e.pairs(), name, 0) < e.pairs().len(),
        e.pairs()[find_name(e.pairs(), name, 0)].1 == value,
    ensures
        e.decoded(JsonView::Str(name)) == Ok::<i64, ErrorView>(value),
        e.decoded(JsonView::Int(value)) == e.decoded(JsonView::Str(name)),
{
    let at = find_name(e.pairs(), name, 0);
    lemma_find_name_bounds(e.pairs(), name, 0);
    lemma_find_value_bounds(e.pairs(), value, 0);
    if find_value(e.pairs(), value, 0) >= e.pairs().len() {
        assert(e.pairs()[at].1 != value);
    }
}

/// The text that `{:?}` writes for a string: the string in double quotes,
/// with escapes.
pub uninterp spec fn debug_text_of(s: Seq<char>) -> Seq<char>;

/// Writes a string as `{:?}` does.
///
/// Trusted: formats with the `Debug` implementation of `str`; the contract
/// gives the text the name `debug_text_of`, a function of the string alone.
#[verifier::external_body]
pub(crate) fn quoted(s: &str) -> (r: String)
    ensures
        r@ == debug_text_of(s@),
{
    format!("{:?}", s)
}

/// The message that refuses something that is not a member.
pub open spec fn not_a_member(what: Seq<char>) -> Seq<char> {
    what + " is not an enum member"@
}

/// The error that refuses something that is not a member.
pub fn not_a_member_error(what: String) -> (r: Error)
    ensures
        r@ == bad_value(not_a_member(what@)),
{
    let mut message = what;
    message.append(" is not an enum member");
    Error::new_owned(ErrorKind::BadValue, message)
}

/// The integer of the variant at place `k` of a declaration: the one
/// written there, or one more than that of the variant before it, or zero
/// for the first.
pub open spec fn discriminant(decls: Seq<(Seq<char>, Option<i64>)>, k: int) -> int
    decreases k + 1,
{
    if k < 0 || k >= decls.len() {
        -1
    } else {
        match decls[k].1 {
            Some(d) => d as int,
            None => discriminant(decls, k - 1) + 1,
        }
    }
}

/// The names and optional integers of a list of declared variants.
pub open spec fn decls_of(decls: Seq<(String, Option<i64>)>) -> Seq<(Seq<char>, Option<i64>)> {
    Seq::new(decls.len(), |i: int| (decls[i].0@, decls[i].1))
}

/// An enumeration that is declared like a Rust enum: a list of variants,
/// each with an optional integer.  A value of it is the place of a variant
/// in the declaration.
pub struct EnumType {
    pub variants: Vec<(String, i64)>,
}

impl EnumType {
    /// The names and integers of the variants.
    pub open spec fn pairs(&self) -> Seq<(Seq<char>, i64)> {
        pairs_of(self.variants@)
    }

    /// Gives each declared variant its integer.  Nothing is returned where
    /// an integer would not fit 64 bits.
    pub fn declare(decls: &Vec<(String, Option<i64>)>) -> (r: Option<EnumType>)
        ensures
            match r {
                Some(t) => {
                    &&& t.pairs().len() == decls@.len()
                    &&& forall|k: int|
                        0 <= k < decls@.len() ==> (#[trigger] t.pairs()[k]) == (
                            decls@[k].0@,
                            discriminant(decls_of(decls@), k) as i64,
                        ) && discriminant(decls_of(decls@), k) <= i64::MAX
                },
                None => exists|k: int|
                    0 <= k < decls@.len() && discriminant(decls_of(decls@), k) > i64::MAX,
            },
    {
        let mut variants: Vec<(String, i64)> = Vec::new();
        let mut last: i64 = -1;
        let mut i: usize = 0;
        while i < decls.len()
            invariant
                i <= decls@.len(),
                variants@.len() == i,
                last as int == discriminant(decls_of(decls@), i - 1),
                forall|k: int|
                    0 <= k < i ==> (#[trigger] variants@[k]).0@ == decls@[k].0@ && variants@[k].1
                        as int == discriminant(decls_of(decls@), k),
            decreases decls@.len() - i,
        {
            let value: i64 = match decls[i].1 {
                Some(d) => d,
                None => {
                    if last == i64::MAX {
                        assert(discriminant(decls_of(decls@), i as int) > i64::MAX);
                        return None;
                    }
                    last + 1
                },
            };
            assert(value as int == discriminant(decls_of(decls@), i as int));
            variants.push((decls[i].0.clone(), value));
            last = value;
            i += 1;
        }
        Some(EnumType { variants })
    }
}

impl TypeInfo for EnumType {
    type Repr = usize;

    open spec fn datainfo(&self) -> JsonView {
        enum_datainfo(self.pairs())
    }

    open spec fn encoded(&self, val: usize) -> Result<JsonView, ErrorView> {
        if val < self.pairs().len() {
            Ok(JsonView::Int(self.pairs()[val as int].1))
        } else {
            Err(bad_value(not_a_member(int_text(val as int))))
        }
    }

    open spec fn decoded(&self, val: JsonView) -> Result<usize, ErrorView> {
        match val {
            JsonView::Str(s) => {
                let at = find_name(self.pairs(), s, 0);
                if at < self.pairs().len() {
                    Ok(at as usize)
                } else {
                    Err(bad_value(not_a_member(debug_text_of(s))))
                }
            },
            JsonView::Int(i) => {
                let at = find_value(self.pairs(), i, 0);
                if at < self.pairs().len() {
                    Ok(at as usize)
                } else {
                    Err(bad_value(not_a_member(int_text(i as int))))
                }
            },
            _ => Err(bad_value("expected string or integer"@)),
        }
    }

    /// A variant can be told from its integer where no variant before it
    /// has the same one.
    open spec fn faithful(&self, val: usize) -> bool {
        forall|k: int| 0 <= k < val && k < self.pairs().len() ==> (#[trigger] self.pairs()[k]).1
            != self.pairs()[val as int].1
    }

    fn describe(&self) -> (r: Json) {
        describe_members(&self.variants)
    }

    fn to_json(&self, val: usize) -> (r: Result<Json, Error>) {
        if val < self.variants.len() {
            Ok(Json::Int(self.variants[val].1))
        } else {
            Err(not_a_member_error(crate::text::usize_text(val)))
        }
    }

    fn from_json(&self, val: &Json) -> (r: Result<usize, Error>) {
        match val {
            Json::Str(s) => {
                let at: usize = position_of_name(&self.variants, s);
                if at < self.variants.len() {
                    Ok(at)
                } else {
                    Err(not_a_member_error(quoted(s.as_str())))
                }
            },
            Json::Int(i) => {
                let at: usize = position_of_value(&self.variants, *i);
                if at < self.variants.len() {
                    Ok(at)
                } else {
                    Err(not_a_member_error(i64_text(*i)))
                }
            },
            _ => Err(Error::bad_value("expected string or integer")),
        }
    }
}

impl TypeLaws for EnumType {
    proof fn lemma_decode_encode(&self, val: usize) {
        lemma_find_value_is(self.pairs(), self.pairs()[val as int].1, 0, val as int);
    }

    proof fn lemma_encode_error(&self, val: usize) {
    }

    proof fn lemma_decode_error(&self, val: JsonView) {
    }
}

} // verus!
