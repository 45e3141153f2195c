//! The typed-value layer: descriptors of the data types of parameters and
//! command arguments, each of which describes itself and converts between
//! the JSON on the wire and the value that module code works with.

use vstd::prelude::*;
use vstd::utf8::encode_utf8;
use crate::errors::{Error, ErrorKind, ErrorView};
use crate::json::{member_views_of, Json, JsonView, size_json};
use crate::text::{i64_text, int_text, usize_text};

verus! {

/// The views of the two outcomes of an encoding.
pub open spec fn json_result(r: Result<Json, Error>) -> Result<JsonView, ErrorView> {
    match r {
        Ok(j) => Ok(j@),
        Err(e) => Err(e@),
    }
}

/// A bad-value error with the given message.
pub open spec fn bad_value(message: Seq<char>) -> ErrorView {
    ErrorView { kind: ErrorKind::BadValue, message }
}

/// A data type of the protocol.
///
/// `Repr` is the type of the values that module code works with.  The three
/// operations are stated over three functions that each descriptor defines:
/// its description, the encoding of a value and the decoding of a JSON value.
/// A type that leaves them undefined says nothing about its operations.
pub trait TypeInfo {
    type Repr: DeepView;

    /// The JSON description of the type, as it is sent to clients.
    open spec fn datainfo(&self) -> JsonView {
        arbitrary()
    }

    /// The JSON for a value, or the error that refuses the value.
    open spec fn encoded(&self, val: <Self::Repr as DeepView>::V) -> Result<JsonView, ErrorView> {
        arbitrary()
    }

    /// The value for a JSON value, or the error that refuses it.
    open spec fn decoded(&self, val: JsonView) -> Result<<Self::Repr as DeepView>::V, ErrorView> {
        arbitrary()
    }

    /// Holds of a value that can be told from its encoding: every outside
    /// codec that takes part in encoding it reads back what it wrote, and
    /// no other value of the type is encoded alike.
    open spec fn faithful(&self, val: <Self::Repr as DeepView>::V) -> bool {
        arbitrary()
    }

    /// Describes the type.
    fn describe(&self) -> (r: Json)
        ensures
            r@ == self.datainfo(),
    ;

    /// Converts an internal value into the JSON for the wire.
    fn to_json(&self, val: Self::Repr) -> (r: Result<Json, Error>)
        ensures
            json_result(r) == self.encoded(val.deep_view()),
    ;

    /// Converts a JSON value that came in into an internal value.
    fn from_json(&self, val: &Json) -> (r: Result<Self::Repr, Error>)
        ensures
            match r {
                Ok(v) => self.decoded(val@) == Ok::<<Self::Repr as DeepView>::V, ErrorView>(
                    v.deep_view(),
                ),
                Err(e) => self.decoded(val@) == Err::<<Self::Repr as DeepView>::V, ErrorView>(e@),
            },
    ;
}

/// The laws of a data type, proved of each type of this library.
pub trait TypeLaws: TypeInfo {
    /// Decoding undoes encoding: a value that is accepted and faithfully
    /// encoded decodes to itself.
    proof fn lemma_decode_encode(&self, val: <Self::Repr as DeepView>::V)
        requires
            self.encoded(val) is Ok,
            self.faithful(val),
        ensures
            self.decoded(self.encoded(val)->Ok_0) == Ok::<<Self::Repr as DeepView>::V, ErrorView>(
                val,
            ),
    ;

    /// A value that is refused is refused as a bad value.
    proof fn lemma_encode_error(&self, val: <Self::Repr as DeepView>::V)
        ensures
            self.encoded(val) is Err ==> self.encoded(val)->Err_0.kind == ErrorKind::BadValue,
    ;

    /// A JSON value that is refused is refused as a bad value.
    proof fn lemma_decode_error(&self, val: JsonView)
        ensures
            self.decoded(val) is Err ==> self.decoded(val)->Err_0.kind == ErrorKind::BadValue,
    ;
}

pub(crate) fn is_zero(v: &usize) -> (r: bool)
    ensures
        r == (*v == 0),
{
    *v == 0
}

pub(crate) fn is_false(v: &bool) -> (r: bool)
    ensures
        r == !*v,
{
    !*v
}

/// The member `"type": name` that starts every description.
pub open spec fn type_member(name: Seq<char>) -> (Seq<char>, JsonView) {
    ("type"@, JsonView::Str(name))
}

/// A size member that is left out where the size is zero.
pub open spec fn unless_zero(name: Seq<char>, v: nat) -> Seq<(Seq<char>, JsonView)> {
    if v == 0 {
        seq![]
    } else {
        seq![(name, size_json(v))]
    }
}

pub(crate) fn push_type(members: &mut Vec<(String, Json)>, name: &str)
    ensures
        final(members)@.len() == old(members)@.len() + 1,
        member_views_of(final(members)@) == member_views_of(old(members)@).push(type_member(name@)),
{
    let ghost before = members@;
    members.push(("type".to_string(), Json::text(name)));
    assert(member_views_of(members@) =~= member_views_of(before).push(type_member(name@)));
}

pub(crate) fn push_size(members: &mut Vec<(String, Json)>, name: &str, v: usize)
    ensures
        member_views_of(final(members)@) == member_views_of(old(members)@).push(
            (name@, size_json(v as nat)),
        ),
{
    let ghost before = members@;
    members.push((name.to_string(), Json::size(v)));
    assert(member_views_of(members@) =~= member_views_of(before).push(
        (name@, size_json(v as nat)),
    ));
}

pub(crate) fn push_member(members: &mut Vec<(String, Json)>, name: &str, value: Json)
    ensures
        member_views_of(final(members)@) == member_views_of(old(members)@).push((name@, value@)),
{
    let ghost before = members@;
    members.push((name.to_string(), value));
    assert(member_views_of(members@) =~= member_views_of(before).push((name@, value@)));
}

/// The length of a string in bytes of UTF-8.
pub(crate) fn byte_len(s: &str) -> (r: usize)
    ensures
        r == encode_utf8(s@).len(),
{
    s.as_bytes().len()
}

pub(crate) fn new_members() -> (r: Vec<(String, Json)>)
    ensures
        r@.len() == 0,
        member_views_of(r@) == Seq::<(Seq<char>, JsonView)>::empty(),
{
    let r: Vec<(String, Json)> = Vec::new();
    assert(member_views_of(r@) =~= Seq::<(Seq<char>, JsonView)>::empty());
    r
}

/// The type of `null`: not for parameters, only for commands without an
/// argument or a result.
pub struct Null;

impl TypeInfo for Null {
    type Repr = ();

    open spec fn datainfo(&self) -> JsonView {
        JsonView::Null
    }

    open spec fn encoded(&self, val: ()) -> Result<JsonView, ErrorView> {
        Ok(JsonView::Null)
    }

    open spec fn decoded(&self, val: JsonView) -> Result<(), ErrorView> {
        if val is Null {
            Ok(())
        } else {
            Err(bad_value("expected null"@))
        }
    }

    open spec fn faithful(&self, val: ()) -> bool {
        true
    }

    fn describe(&self) -> (r: Json) {
        Json::Null
    }

    fn to_json(&self, val: ()) -> (r: Result<Json, Error>) {
        Ok(Json::Null)
    }

    fn from_json(&self, val: &Json) -> (r: Result<(), Error>) {
        if val.is_null() {
            Ok(())
        } else {
            Err(Error::bad_value("expected null"))
        }
    }
}

impl TypeLaws for Null {
    proof fn lemma_decode_encode(&self, val: ()) {
    }

    proof fn lemma_encode_error(&self, val: ()) {
    }

    proof fn lemma_decode_error(&self, val: JsonView) {
    }
}

/// The type of the two truth values.
pub struct Bool;

impl TypeInfo for Bool {
    type Repr = bool;

    open spec fn datainfo(&self) -> JsonView {
        JsonView::Object(seq![type_member("bool"@)])
    }

    open spec fn encoded(&self, val: bool) -> Result<JsonView, ErrorView> {
        Ok(JsonView::Bool(val))
    }

    open spec fn decoded(&self, val: JsonView) -> Result<bool, ErrorView> {
        match val {
            JsonView::Bool(b) => Ok(b),
            _ => Err(bad_value("expected boolean"@)),
        }
    }

    open spec fn faithful(&self, val: bool) -> bool {
        true
    }

    fn describe(&self) -> (r: Json) {
        let mut members = new_members();
        push_type(&mut members, "bool");
        Json::object(members)
    }

    fn to_json(&self, val: bool) -> (r: Result<Json, Error>) {
        Ok(Json::Bool(val))
    }

    fn from_json(&self, val: &Json) -> (r: Result<bool, Error>) {
        match val.as_bool() {
            Some(b) => Ok(b),
            None => Err(Error::bad_value("expected boolean")),
        }
    }
}

impl TypeLaws for Bool {
    proof fn lemma_decode_encode(&self, val: bool) {
    }

    proof fn lemma_encode_error(&self, val: bool) {
    }

    proof fn lemma_decode_error(&self, val: JsonView) {
    }
}

/// The message that refuses an integer outside `[min, max]`.
pub open spec fn int_range_message(min: i64, max: i64) -> Seq<char> {
    "expected integer between "@ + int_text(min as int) + " and "@ + int_text(max as int)
}

pub(crate) fn int_range_error(min: i64, max: i64) -> (r: Error)
    ensures
        r@ == bad_value(int_range_message(min, max)),
{
    let mut message = "expected integer between ".to_string();
    message.append(i64_text(min).as_str());
    message.append(" and ");
    message.append(i64_text(max).as_str());
    Error::new_owned(ErrorKind::BadValue, message)
}

/// The message that refuses a value whose size is outside `[min, max]`.
pub open spec fn size_range_message(what: Seq<char>, min: usize, max: usize) -> Seq<char> {
    what + int_text(min as int) + " and "@ + int_text(max as int)
}

pub(crate) fn size_range_error(what: &str, min: usize, max: usize) -> (r: Error)
    ensures
        r@ == bad_value(size_range_message(what@, min, max)),
{
    let mut message = what.to_string();
    message.append(usize_text(min).as_str());
    message.append(" and ");
    message.append(usize_text(max).as_str());
    Error::new_owned(ErrorKind::BadValue, message)
}

/// Integers between `min` and `max`, both included.
pub struct Int {
    pub min: i64,
    pub max: i64,
}

impl Int {
    /// All 64-bit integers.
    pub fn new() -> (r: Self)
        ensures
            r.min == i64::MIN,
            r.max == i64::MAX,
    {
        Self { min: i64::MIN, max: i64::MAX }
    }

    /// The same type with the lower bound `val`.
    pub fn min(self, val: i64) -> (r: Self)
        ensures
            r.min == val,
            r.max == self.max,
    {
        Self { min: val, max: self.max }
    }

    /// The same type with the upper bound `val`.
    pub fn max(self, val: i64) -> (r: Self)
        ensures
            r.min == self.min,
            r.max == val,
    {
        Self { min: self.min, max: val }
    }
}

impl TypeInfo for Int {
    type Repr = i64;

    open spec fn datainfo(&self) -> JsonView {
        JsonView::Object(
            seq![
                type_member("int"@),
                ("min"@, JsonView::Int(self.min)),
                ("max"@, JsonView::Int(self.max)),
            ],
        )
    }

    open spec fn encoded(&self, val: i64) -> Result<JsonView, ErrorView> {
        if self.min <= val && val <= self.max {
            Ok(JsonView::Int(val))
        } else {
            Err(bad_value(int_range_message(self.min, self.max)))
        }
    }

    open spec fn decoded(&self, val: JsonView) -> Result<i64, ErrorView> {
        match val {
            JsonView::Int(v) if self.min <= v && v <= self.max => Ok(v),
            _ => Err(bad_value(int_range_message(self.min, self.max))),
        }
    }

    open spec fn faithful(&self, val: i64) -> bool {
        true
    }

    fn describe(&self) -> (r: Json) {
        let mut members = new_members();
        push_type(&mut members, "int");
        push_member(&mut members, "min", Json::Int(self.min));
        push_member(&mut members, "max", Json::Int(self.max));
        let r = Json::object(members);
        assert(r@->Object_0 =~= self.datainfo()->Object_0);
        r
    }

    fn to_json(&self, val: i64) -> (r: Result<Json, Error>) {
        if val >= self.min && val <= self.max {
            Ok(Json::Int(val))
        } else {
            Err(int_range_error(self.min, self.max))
        }
    }

    fn from_json(&self, val: &Json) -> (r: Result<i64, Error>) {
        match val.as_i64() {
            Some(v) => {
                if v >= self.min && v <= self.max {
                    Ok(v)
                } else {
                    Err(int_range_error(self.min, self.max))
                }
            },
            None => Err(int_range_error(self.min, self.max)),
        }
    }
}

impl TypeLaws for Int {
    proof fn lemma_decode_encode(&self, val: i64) {
    }

    proof fn lemma_encode_error(&self, val: i64) {
    }

    proof fn lemma_decode_error(&self, val: JsonView) {
    }
}

/// The message that refuses a string that is too long.
pub open spec fn str_message(maxchars: usize) -> Seq<char> {
    "expected string with length <= "@ + int_text(maxchars as int)
}

pub(crate) fn str_error(maxchars: usize) -> (r: Error)
    ensures
        r@ == bad_value(str_message(maxchars)),
{
    let mut message = "expected string with length <= ".to_string();
    message.append(usize_text(maxchars).as_str());
    Error::new_owned(ErrorKind::BadValue, message)
}

/// Strings of at most `maxchars` bytes in UTF-8.
///
/// `minchars` and `is_utf8` are part of the description only.
pub struct Str {
    pub minchars: usize,
    pub maxchars: usize,
    pub is_utf8: bool,
}

impl Str {
    /// Strings of up to 1024 bytes.
    pub fn new() -> (r: Self)
        ensures
            r.minchars == 0,
            r.maxchars == 1024,
            r.is_utf8 == false,
    {
        Self { minchars: 0, maxchars: 1024, is_utf8: false }
    }

    /// The same type with the least length `val`.
    pub fn minchars(self, val: usize) -> (r: Self)
        ensures
            r.minchars == val,
            r.maxchars == self.maxchars,
            r.is_utf8 == self.is_utf8,
    {
        Self { minchars: val, maxchars: self.maxchars, is_utf8: self.is_utf8 }
    }

    /// The same type with the greatest length `val`.
    pub fn maxchars(self, val: usize) -> (r: Self)
        ensures
            r.minchars == self.minchars,
            r.maxchars == val,
            r.is_utf8 == self.is_utf8,
    {
        Self { minchars: self.minchars, maxchars: val, is_utf8: self.is_utf8 }
    }

    /// The same type with the UTF-8 flag `val`.
    pub fn is_utf8(self, val: bool) -> (r: Self)
        ensures
            r.minchars == self.minchars,
            r.maxchars == self.maxchars,
            r.is_utf8 == val,
    {
        Self { minchars: self.minchars, maxchars: self.maxchars, is_utf8: val }
    }
}

impl TypeInfo for Str {
    type Repr = String;

    open spec fn datainfo(&self) -> JsonView {
        JsonView::Object(
            seq![type_member("string"@)] + unless_zero("minchars"@, self.minchars as nat) + seq![
                ("maxchars"@, size_json(self.maxchars as nat)),
            ] + (if self.is_utf8 {
                seq![("isUTF8"@, JsonView::Bool(true))]
            } else {
                seq![]
            }),
        )
    }

    open spec fn encoded(&self, val: Seq<char>) -> Result<JsonView, ErrorView> {
        if encode_utf8(val).len() <= self.maxchars {
            Ok(JsonView::Str(val))
        } else {
            Err(bad_value(str_message(self.maxchars)))
        }
    }

    open spec fn decoded(&self, val: JsonView) -> Result<Seq<char>, ErrorView> {
        match val {
            JsonView::Str(s) if encode_utf8(s).len() <= self.maxchars => Ok(s),
            _ => Err(bad_value(str_message(self.maxchars))),
        }
    }

    open spec fn faithful(&self, val: Seq<char>) -> bool {
        true
    }

    fn describe(&self) -> (r: Json) {
        let mut members = new_members();
        push_type(&mut members, "string");
        if !is_zero(&self.minchars) {
            push_size(&mut members, "minchars", self.minchars);
        }
        push_size(&mut members, "maxchars", self.maxchars);
        if !is_false(&self.is_utf8) {
            push_member(&mut members, "isUTF8", Json::Bool(true));
        }
        let r = Json::object(members);
        assert(r@->Object_0 =~= self.datainfo()->Object_0);
        r
    }

    fn to_json(&self, val: String) -> (r: Result<Json, Error>) {
        if byte_len(val.as_str()) <= self.maxchars {
            Ok(Json::Str(val))
        } else {
            Err(str_error(self.maxchars))
        }
    }

    fn from_json(&self, val: &Json) -> (r: Result<String, Error>) {
        match val.as_str() {
            Some(v) => {
                if byte_len(v.as_str()) <= self.maxchars {
                    Ok(v.clone())
                } else {
                    Err(str_error(self.maxchars))
                }
            },
            None => Err(str_error(self.maxchars)),
        }
    }
}

impl TypeLaws for Str {
    proof fn lemma_decode_encode(&self, val: Seq<char>) {
    }

    proof fn lemma_encode_error(&self, val: Seq<char>) {
    }

    proof fn lemma_decode_error(&self, val: JsonView) {
    }
}

} // verus!
