//! The status of a module: a status code and a text.

use vstd::prelude::*;
use crate::enums::{debug_text_of, enum_datainfo, not_a_member, not_a_member_error, quoted};
use crate::errors::{Error, ErrorView};
use crate::json::{Json, JsonView};
use crate::text::{i64_text, int_text, same_text};
use crate::tuples::Tuple2;
use crate::types::{bad_value, json_result, new_members, push_member, push_type, Str, TypeInfo, TypeLaws};

verus! {

/// The status codes.
#[derive(Debug, Clone, Copy, PartialEq, Eq, Hash, Structural)]
pub enum StatusConst {
    Idle,
    Warn,
    Unstable,
    Busy,
    Error,
    Unknown,
}

impl DeepView for StatusConst {
    type V = StatusConst;

    open spec fn deep_view(&self) -> StatusConst {
        *self
    }
}

impl Default for StatusConst {
    fn default() -> (r: Self)
        ensures
            r == StatusConst::Idle,
    {
        StatusConst::Idle
    }
}

impl StatusConst {
    /// The integer of a status code.
    pub open spec fn code_of(self) -> i64 {
        match self {
            StatusConst::Idle => 100,
            StatusConst::Warn => 200,
            StatusConst::Unstable => 250,
            StatusConst::Busy => 300,
            StatusConst::Error => 400,
            StatusConst::Unknown => 500,
        }
    }

    /// The status code with the given integer.
    pub open spec fn with_code(code: i64) -> Option<StatusConst> {
        if code == 100 {
            Some(StatusConst::Idle)
        } else if code == 200 {
            Some(StatusConst::Warn)
        } else if code == 250 {
            Some(StatusConst::Unstable)
        } else if code == 300 {
            Some(StatusConst::Busy)
        } else if code == 400 {
            Some(StatusConst::Error)
        } else if code == 500 {
            Some(StatusConst::Unknown)
        } else {
            None
        }
    }

    /// The status code with the given name.
    pub open spec fn with_name(name: Seq<char>) -> Option<StatusConst> {
        if name == "Idle"@ {
            Some(StatusConst::Idle)
        } else if name == "Warn"@ {
            Some(StatusConst::Warn)
        } else if name == "Unstable"@ {
            Some(StatusConst::Unstable)
        } else if name == "Busy"@ {
            Some(StatusConst::Busy)
        } else if name == "Error"@ {
            Some(StatusConst::Error)
        } else if name == "Unknown"@ {
            Some(StatusConst::Unknown)
        } else {
            None
        }
    }

    /// The integer of this status code.
    pub fn code(self) -> (r: i64)
        ensures
            r == self.code_of(),
    {
        match self {
            StatusConst::Idle => 100,
            StatusConst::Warn => 200,
            StatusConst::Unstable => 250,
            StatusConst::Busy => 300,
            StatusConst::Error => 400,
            StatusConst::Unknown => 500,
        }
    }

    /// The status code with the given integer, if there is one.
    pub fn from_code(code: i64) -> (r: Option<StatusConst>)
        ensures
            r == Self::with_code(code),
    {
        if code == 100 {
            Some(StatusConst::Idle)
        } else if code == 200 {
            Some(StatusConst::Warn)
        } else if code == 250 {
            Some(StatusConst::Unstable)
        } else if code == 300 {
            Some(StatusConst::Busy)
        } else if code == 400 {
            Some(StatusConst::Error)
        } else if code == 500 {
            Some(StatusConst::Unknown)
        } else {
            None
        }
    }

    /// The status code with the given name, if there is one.
    pub fn from_name(name: &str) -> (r: Option<StatusConst>)
        ensures
            r == Self::with_name(name@),
    {
        if same_text(name, "Idle") {
            Some(StatusConst::Idle)
        } else if same_text(name, "Warn") {
            Some(StatusConst::Warn)
        } else if same_text(name, "Unstable") {
            Some(StatusConst::Unstable)
        } else if same_text(name, "Busy") {
            Some(StatusConst::Busy)
        } else if same_text(name, "Error") {
            Some(StatusConst::Error)
        } else if same_text(name, "Unknown") {
            Some(StatusConst::Unknown)
        } else {
            None
        }
    }
}

/// The members of the status enumeration.
pub open spec fn status_members() -> Seq<(Seq<char>, i64)> {
    seq![
        ("Idle"@, 100i64),
        ("Warn"@, 200i64),
        ("Unstable"@, 250i64),
        ("Busy"@, 300i64),
        ("Error"@, 400i64),
        ("Unknown"@, 500i64),
    ]
}

/// The type of the status codes.
pub struct StatusConstType;

impl TypeInfo for StatusConstType {
    type Repr = StatusConst;

    open spec fn datainfo(&self) -> JsonView {
        enum_datainfo(status_members())
    }

    open spec fn encoded(&self, val: StatusConst) -> Result<JsonView, ErrorView> {
        Ok(JsonView::Int(val.code_of()))
    }

    open spec fn decoded(&self, val: JsonView) -> Result<StatusConst, ErrorView> {
        match val {
            JsonView::Str(s) => match StatusConst::with_name(s) {
                Some(v) => Ok(v),
                None => Err(bad_value(not_a_member(debug_text_of(s)))),
            },
            JsonView::Int(i) => match StatusConst::with_code(i) {
                Some(v) => Ok(v),
                None => Err(bad_value(not_a_member(int_text(i as int)))),
            },
            _ => Err(bad_value("expected string or integer"@)),
        }
    }

    open spec fn faithful(&self, val: StatusConst) -> bool {
        true
    }

    fn describe(&self) -> (r: Json) {
        let mut entries = new_members();
        push_member(&mut entries, "Idle", Json::Int(100));
        push_member(&mut entries, "Warn", Json::Int(200));
        push_member(&mut entries, "Unstable", Json::Int(250));
        push_member(&mut entries, "Busy", Json::Int(300));
        push_member(&mut entries, "Error", Json::Int(400));
        push_member(&mut entries, "Unknown", Json::Int(500));
        let inner = Json::object(entries);
        assert(inner@->Object_0 =~= crate::enums::members_json(status_members())->Object_0);
        let mut out = new_members();
        push_type(&mut out, "enum");
        push_member(&mut out, "members", inner);
        let r = Json::object(out);
        assert(r@->Object_0 =~= self.datainfo()->Object_0);
        r
    }

    fn to_json(&self, val: StatusConst) -> (r: Result<Json, Error>) {
        Ok(Json::Int(val.code()))
    }

    fn from_json(&self, val: &Json) -> (r: Result<StatusConst, Error>) {
        match val {
            Json::Str(s) => match StatusConst::from_name(s.as_str()) {
                Some(v) => Ok(v),
                None => Err(not_a_member_error(quoted(s.as_str()))),
            },
            Json::Int(i) => match StatusConst::from_code(*i) {
                Some(v) => Ok(v),
                None => Err(not_a_member_error(i64_text(*i))),
            },
            _ => Err(Error::bad_value("expected string or integer")),
        }
    }
}

impl TypeLaws for StatusConstType {
    proof fn lemma_decode_encode(&self, val: StatusConst) {
    }

    proof fn lemma_encode_error(&self, val: StatusConst) {
    }

    proof fn lemma_decode_error(&self, val: JsonView) {
    }
}

/// The type of a status: a status code and a text.
pub type StatusType = Tuple2<StatusConstType, Str>;

/// A status: a status code and a text.
pub type Status = (StatusConst, String);

/// The status type, with a text of up to 1024 bytes.
pub fn status_type() -> (r: StatusType)
    ensures
        r.1.minchars == 0,
        r.1.maxchars == 1024,
        r.1.is_utf8 == false,
{
    Tuple2(StatusConstType, Str { minchars: 0, maxchars: 1024, is_utf8: false })
}

} // verus!
