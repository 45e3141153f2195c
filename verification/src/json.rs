//! The JSON values that travel in messages, as a plain tree of the
//! library's own, and the two calls into `serde_json` that read and write
//! their text.

use vstd::prelude::*;
use serde_json::Value;

verus! {

#[verifier::external_type_specification]
#[verifier::external_body]
pub struct ExNumber(serde_json::Number);

#[verifier::external_type_specification]
#[verifier::external_body]
pub struct ExValue(serde_json::Value);

/// Trusted: `Number::clone` returns a number equal to the one it is given.
pub assume_specification[ <serde_json::Number as Clone>::clone ](
    n: &serde_json::Number,
) -> (r: serde_json::Number)
    ensures
        r == *n,
;

/// Trusted: `Number::eq`; nothing is claimed of its result.
pub assume_specification[ <serde_json::Number as PartialEq>::eq ](
    a: &serde_json::Number,
    b: &serde_json::Number,
) -> (r: bool)
;

/// A JSON value.
///
/// Integers that fit a signed 64-bit number are held as `Int`, larger ones
/// as `UInt`; every other number is carried unread as the codec's own
/// `Number`.  An object is the
/// list of its members in the order given.
#[derive(Debug, PartialEq)]
pub enum Json {
    Null,
    Bool(bool),
    Int(i64),
    UInt(u64),
    Real(serde_json::Number),
    Str(String),
    Array(Vec<Json>),
    Object(Vec<(String, Json)>),
}

/// The mathematical value of a [`Json`].
pub enum JsonView {
    Null,
    Bool(bool),
    Int(i64),
    UInt(u64),
    Real(serde_json::Number),
    Str(Seq<char>),
    Array(Seq<JsonView>),
    Object(Seq<(Seq<char>, JsonView)>),
}

impl View for Json {
    type V = JsonView;

    open spec fn view(&self) -> JsonView
        decreases self,
    {
        match self {
            Json::Null => JsonView::Null,
            Json::Bool(b) => JsonView::Bool(*b),
            Json::Int(i) => JsonView::Int(*i),
            Json::UInt(u) => JsonView::UInt(*u),
            Json::Real(f) => JsonView::Real(*f),
            Json::Str(s) => JsonView::Str(s@),
            Json::Array(a) => JsonView::Array(
                Seq::new(
                    a@.len(),
                    |i: int|
                        if 0 <= i < a@.len() {
                            a@[i]@
                        } else {
                            JsonView::Null
                        },
                ),
            ),
            Json::Object(o) => JsonView::Object(
                Seq::new(
                    o@.len(),
                    |i: int|
                        if 0 <= i < o@.len() {
                            (o@[i].0@, o@[i].1@)
                        } else {
                            (Seq::empty(), JsonView::Null)
                        },
                ),
            ),
        }
    }
}

/// The views of a sequence of values, item by item.
pub open spec fn views_of(items: Seq<Json>) -> Seq<JsonView> {
    Seq::new(items.len(), |i: int| items[i]@)
}

/// The views of a sequence of object members, item by item.
pub open spec fn member_views_of(items: Seq<(String, Json)>) -> Seq<(Seq<char>, JsonView)> {
    Seq::new(items.len(), |i: int| (items[i].0@, items[i].1@))
}

/// The view of an array is the sequence of its items' views.
pub proof fn lemma_array_view(a: Vec<Json>)
    ensures
        Json::Array(a)@ == JsonView::Array(views_of(a@)),
{
    reveal_with_fuel(<Json as View>::view, 2);
    let v = Json::Array(a)@;
    assert(v is Array);
    assert(v->Array_0.len() == a@.len());
    assert(forall|k: int| 0 <= k < a@.len() ==> v->Array_0[k] == a@[k]@);
    assert(v->Array_0 =~= views_of(a@));
}

/// The view of an object is the sequence of its members' views.
pub proof fn lemma_object_view(o: Vec<(String, Json)>)
    ensures
        Json::Object(o)@ == JsonView::Object(member_views_of(o@)),
{
    reveal_with_fuel(<Json as View>::view, 2);
    let v = Json::Object(o)@;
    assert(v is Object);
    assert(v->Object_0.len() == o@.len());
    assert(forall|k: int| 0 <= k < o@.len() ==> v->Object_0[k] == (o@[k].0@, o@[k].1@));
    assert(v->Object_0 =~= member_views_of(o@));
}

impl Clone for Json {
    #[verifier::loop_isolation(false)]
    fn clone(&self) -> (r: Json)
        ensures
            r@ == self@,
        decreases self,
    {
        match self {
            Json::Null => Json::Null,
            Json::Bool(b) => Json::Bool(*b),
            Json::Int(i) => Json::Int(*i),
            Json::UInt(u) => Json::UInt(*u),
            Json::Real(f) => Json::Real(f.clone()),
            Json::Str(s) => Json::Str(s.clone()),
            Json::Array(a) => {
                let mut out: Vec<Json> = Vec::new();
                let mut i: usize = 0;
                while i < a.len()
                    invariant
                        i <= a.len(),
                        out@.len() == i,
                        forall|k: int| 0 <= k < i ==> out@[k]@ == a@[k]@,
                    decreases a.len() - i,
                {
                    let item = a[i].clone();
                    out.push(item);
                    i += 1;
                }
                proof {
                    lemma_array_view(out);
                    lemma_array_view(*a);
                    assert(views_of(out@) =~= views_of(a@));
                }
                Json::Array(out)
            },
            Json::Object(o) => {
                let mut out: Vec<(String, Json)> = Vec::new();
                let mut i: usize = 0;
                while i < o.len()
                    invariant
                        i <= o.len(),
                        out@.len() == i,
                        forall|k: int|
                            0 <= k < i ==> out@[k].0@ == o@[k].0@ && out@[k].1@ == o@[k].1@,
                    decreases o.len() - i,
                {
                    let key = o[i].0.clone();
                    let item = o[i].1.clone();
                    out.push((key, item));
                    i += 1;
                }
                proof {
                    lemma_object_view(out);
                    lemma_object_view(*o);
                    assert(member_views_of(out@) =~= member_views_of(o@));
                }
                Json::Object(out)
            },
        }
    }
}

/// What `serde_json::from_str` reads from a text: the value, or nothing
/// where the text is not one JSON value.
pub uninterp spec fn json_parse_of(text: Seq<char>) -> Option<JsonView>;

/// The compact text that `serde_json` writes for a value.
pub uninterp spec fn json_text_of(value: JsonView) -> Seq<char>;

/// Holds of a value whose text stays on one line and reads back as the
/// same value.
pub open spec fn wire_safe(value: JsonView) -> bool {
    &&& json_parse_of(json_text_of(value)) == Some(value)
    &&& forall|i: int| 0 <= i < json_text_of(value).len() ==> json_text_of(value)[i] != '\n'
}

/// Turns the codec's value into the library's, variant by variant.
///
/// Trusted: a number goes to `Int` where `Number::as_i64` gives one, to
/// `UInt` where `Number::as_u64` gives one, and is kept as it is otherwise;
/// an object's members come in the order of `Map::iter`.  Nothing is claimed of the result here; `parse_json` names it.
#[verifier::external_body]
fn from_value(v: &Value) -> Json {
    match v {
        Value::Null => Json::Null,
        Value::Bool(b) => Json::Bool(*b),
        Value::Number(n) => match (n.as_i64(), n.as_u64()) {
            (Some(i), _) => Json::Int(i),
            (None, Some(u)) => Json::UInt(u),
            (None, None) => Json::Real(n.clone()),
        },
        Value::String(s) => Json::Str(s.clone()),
        Value::Array(a) => Json::Array(a.iter().map(from_value).collect()),
        Value::Object(o) => Json::Object(
            o.iter().map(|(k, v)| (k.clone(), from_value(v))).collect(),
        ),
    }
}

/// Turns the library's value into the codec's, variant by variant.
///
/// Trusted: the members of an object are collected into the codec's map,
/// which keeps one value per key.  Nothing is claimed of the result here;
/// `json_text` names the text written for it.
#[verifier::external_body]
fn to_value(j: &Json) -> Value {
    match j {
        Json::Null => Value::Null,
        Json::Bool(b) => Value::Bool(*b),
        Json::Int(i) => Value::from(*i),
        Json::UInt(u) => Value::from(*u),
        Json::Real(n) => Value::Number(n.clone()),
        Json::Str(s) => Value::String(s.clone()),
        Json::Array(a) => Value::Array(a.iter().map(to_value).collect()),
        Json::Object(o) => Value::Object(
            o.iter().map(|(k, v)| (k.clone(), to_value(v))).collect(),
        ),
    }
}

/// Reads one JSON value from a text.
///
/// Trusted: calls `serde_json::from_str` for a `Value` and converts what it
/// returns; the contract gives the outcome the name `json_parse_of`, a
/// function of the text alone.
#[verifier::external_body]
pub(crate) fn parse_json(text: &str) -> (r: Option<Json>)
    ensures
        match r {
            Some(j) => json_parse_of(text@) == Some(j@),
            None => json_parse_of(text@) is None,
        },
{
    match serde_json::from_str::<Value>(text) {
        Ok(v) => Some(from_value(&v)),
        Err(_) => None,
    }
}

/// Writes a value as compact JSON text.
///
/// Trusted: converts the value and calls `Value::to_string`; the contract
/// gives the text the name `json_text_of`, a function of the value alone.
#[verifier::external_body]
pub(crate) fn json_text(j: &Json) -> (r: String)
    ensures
        r@ == json_text_of(j@),
{
    to_value(j).to_string()
}

/// A point in time, in seconds since the epoch, as the JSON number that is
/// sent on the wire.
#[derive(Debug, PartialEq)]
pub struct Timestamp {
    pub seconds: serde_json::Number,
}

impl Clone for Timestamp {
    fn clone(&self) -> (r: Timestamp)
        ensures
            r == *self,
    {
        Timestamp { seconds: self.seconds.clone() }
    }
}

impl Timestamp {
    /// The JSON number for this point in time.
    pub fn to_json(&self) -> (r: Json)
        ensures
            r@ == JsonView::Real(self.seconds),
    {
        Json::Real(self.seconds.clone())
    }
}

/// A number that is no integer, as the JSON number it is written as.  It
/// is the value of the types whose values are not integers; what it holds
/// is for the code that computes with such numbers.
#[derive(Debug, PartialEq)]
pub struct Real {
    pub number: serde_json::Number,
}

impl DeepView for Real {
    type V = Real;

    open spec fn deep_view(&self) -> Real {
        *self
    }
}

impl Clone for Real {
    fn clone(&self) -> (r: Real)
        ensures
            r == *self,
    {
        Real { number: self.number.clone() }
    }
}

impl Real {
    /// The JSON number.
    pub fn to_json(&self) -> (r: Json)
        ensures
            r@ == JsonView::Real(self.number),
    {
        Json::Real(self.number.clone())
    }
}

/// The qualifier object `{"t": time}`.
pub open spec fn qualifiers_of(time: Timestamp) -> JsonView {
    JsonView::Object(seq![("t"@, JsonView::Real(time.seconds))])
}

/// The report `[value, {"t": time}]` that carries a value with the time at
/// which it was determined.
pub open spec fn report_of(value: JsonView, time: Timestamp) -> JsonView {
    JsonView::Array(seq![value, qualifiers_of(time)])
}

/// Builds the report `[value, {"t": time}]`.
pub fn report(value: Json, time: &Timestamp) -> (r: Json)
    ensures
        r@ == report_of(value@, *time),
{
    let mut members: Vec<(String, Json)> = Vec::new();
    members.push(("t".to_string(), time.to_json()));
    let mut items: Vec<Json> = Vec::new();
    items.push(value);
    items.push(Json::Object(members));
    proof {
        lemma_object_view(members);
        assert(member_views_of(members@) =~= seq![("t"@, JsonView::Real(time.seconds))]);
        lemma_array_view(items);
        assert(views_of(items@) =~= seq![value@, qualifiers_of(*time)]);
    }
    Json::Array(items)
}

/// The JSON number for a size: `Int` where it fits, `UInt` above that.
pub open spec fn size_json(v: nat) -> JsonView {
    if v <= i64::MAX {
        JsonView::Int(v as i64)
    } else {
        JsonView::UInt(v as u64)
    }
}

impl Json {
    /// The JSON string with the given text.
    pub fn text(s: &str) -> (r: Json)
        ensures
            r@ == JsonView::Str(s@),
    {
        Json::Str(s.to_string())
    }

    /// The JSON number for a size.
    pub fn size(v: usize) -> (r: Json)
        ensures
            r@ == size_json(v as nat),
    {
        if v as u64 <= 0x7fff_ffff_ffff_ffff {
            Json::Int(v as i64)
        } else {
            Json::UInt(v as u64)
        }
    }

    /// The JSON object with the given members.
    pub fn object(members: Vec<(String, Json)>) -> (r: Json)
        ensures
            r@ == JsonView::Object(member_views_of(members@)),
    {
        proof {
            lemma_object_view(members);
        }
        Json::Object(members)
    }

    /// The JSON array with the given items.
    pub fn array(items: Vec<Json>) -> (r: Json)
        ensures
            r@ == JsonView::Array(views_of(items@)),
    {
        proof {
            lemma_array_view(items);
        }
        Json::Array(items)
    }

    /// Whether this is `null`.
    pub fn is_null(&self) -> (r: bool)
        ensures
            r == (self@ is Null),
    {
        match self {
            Json::Null => true,
            _ => false,
        }
    }

    /// The boolean, if this is one.
    pub fn as_bool(&self) -> (r: Option<bool>)
        ensures
            r == (match self@ {
                JsonView::Bool(b) => Some(b),
                _ => None,
            }),
    {
        match self {
            Json::Bool(b) => Some(*b),
            _ => None,
        }
    }

    /// The integer, if this is a number that fits a signed 64-bit integer.
    pub fn as_i64(&self) -> (r: Option<i64>)
        ensures
            r == (match self@ {
                JsonView::Int(i) => Some(i),
                _ => None,
            }),
    {
        match self {
            Json::Int(i) => Some(*i),
            _ => None,
        }
    }

    /// The text, if this is a string.
    pub fn as_str(&self) -> (r: Option<&String>)
        ensures
            match self@ {
                JsonView::Str(s) => r.is_some() && r.unwrap()@ == s,
                _ => r.is_none(),
            },
    {
        match self {
            Json::Str(s) => Some(s),
            _ => None,
        }
    }

    /// The items, if this is an array.
    pub fn as_array(&self) -> (r: Option<&Vec<Json>>)
        ensures
            match self@ {
                JsonView::Array(a) => r.is_some() && views_of(r.unwrap()@) == a,
                _ => r.is_none(),
            },
    {
        match self {
            Json::Array(a) => {
                proof {
                    lemma_array_view(*a);
                }
                Some(a)
            },
            _ => None,
        }
    }
}


/// The first place at or after `from` where a member has the given key, or
/// the number of members where none has.
pub open spec fn key_position(members: Seq<(Seq<char>, JsonView)>, key: Seq<char>, from: int) -> int
    decreases members.len() - from,
{
    if 0 <= from < members.len() {
        if members[from].0 == key {
            from
        } else {
            key_position(members, key, from + 1)
        }
    } else {
        members.len() as int
    }
}

/// The value of the first member with the given key, if there is one.
pub open spec fn lookup(members: Seq<(Seq<char>, JsonView)>, key: Seq<char>) -> Option<JsonView> {
    let at = key_position(members, key, 0);
    if at < members.len() {
        Some(members[at].1)
    } else {
        None
    }
}

pub proof fn lemma_key_position(members: Seq<(Seq<char>, JsonView)>, key: Seq<char>, from: int)
    requires
        0 <= from <= members.len(),
    ensures
        from <= key_position(members, key, from) <= members.len(),
        key_position(members, key, from) < members.len() ==> members[key_position(
            members,
            key,
            from,
        )].0 == key,
        forall|k: int| from <= k < key_position(members, key, from) ==> members[k].0 != key,
    decreases members.len() - from,
{
    if from < members.len() && members[from].0 != key {
        lemma_key_position(members, key, from + 1);
    }
}

/// The first member with a key is at `at` where none before it has the key;
/// with `at` the number of members, no member has it.
pub proof fn lemma_key_position_is(
    members: Seq<(Seq<char>, JsonView)>,
    key: Seq<char>,
    from: int,
    at: int,
)
    requires
        0 <= from <= at <= members.len(),
        forall|k: int| from <= k < at ==> members[k].0 != key,
        at < members.len() ==> members[at].0 == key,
    ensures
        key_position(members, key, from) == at,
    decreases at - from,
{
    if from < at {
        lemma_key_position_is(members, key, from + 1, at);
    }
}

/// The value of the first member with the given key, if there is one.
pub fn get_member<'a>(members: &'a Vec<(String, Json)>, key: &str) -> (r: Option<&'a Json>)
    ensures
        match r {
            Some(j) => lookup(member_views_of(members@), key@) == Some(j@),
            None => lookup(member_views_of(members@), key@) is None,
        },
{
    let mut i: usize = 0;
    while i < members.len() && !crate::text::same_text(members[i].0.as_str(), key)
        invariant
            i <= members@.len(),
            key_position(member_views_of(members@), key@, 0) == key_position(
                member_views_of(members@),
                key@,
                i as int,
            ),
        decreases members@.len() - i,
    {
        i += 1;
    }
    proof {
        lemma_key_position(member_views_of(members@), key@, 0);
    }
    if i < members.len() {
        Some(&members[i].1)
    } else {
        None
    }
}

impl Json {
    /// The members, if this is an object.
    pub fn as_object(&self) -> (r: Option<&Vec<(String, Json)>>)
        ensures
            match self@ {
                JsonView::Object(o) => r.is_some() && member_views_of(r.unwrap()@) == o,
                _ => r.is_none(),
            },
    {
        match self {
            Json::Object(o) => {
                proof {
                    lemma_object_view(*o);
                }
                Some(o)
            },
            _ => None,
        }
    }
}

} // verus!
