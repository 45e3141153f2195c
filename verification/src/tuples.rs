//! Tuples of two to six values, each of a type of its own.

use vstd::prelude::*;
use crate::array::amend_view;
use crate::errors::{Error, ErrorView};
use crate::json::{views_of, Json, JsonView};
use crate::types::{bad_value, json_result, new_members, push_member, push_type, type_member,
    TypeInfo, TypeLaws};

verus! {

/// The description of a tuple type with the given member types.
pub open spec fn tuple_datainfo(members: Seq<JsonView>) -> JsonView {
    JsonView::Object(seq![type_member("tuple"@), ("members"@, JsonView::Array(members))])
}

fn describe_tuple(members: Vec<Json>) -> (r: Json)
    ensures
        r@ == tuple_datainfo(views_of(members@)),
{
    let mut out = new_members();
    push_type(&mut out, "tuple");
    push_member(&mut out, "members", Json::array(members));
    let r = Json::object(out);
    assert(r@->Object_0 =~= tuple_datainfo(views_of(members@))->Object_0);
    r
}

/// Tuples of two values.
pub struct Tuple2<T1: TypeInfo, T2: TypeInfo>(pub T1, pub T2);

impl<T1: TypeInfo, T2: TypeInfo> TypeInfo for Tuple2<T1, T2> {
    type Repr = (T1::Repr, T2::Repr);

    open spec fn datainfo(&self) -> JsonView {
        tuple_datainfo(seq![self.0.datainfo(), self.1.datainfo()])
    }

    open spec fn encoded(&self, val: (<T1::Repr as DeepView>::V, <T2::Repr as DeepView>::V)) -> Result<JsonView, ErrorView> {
        match self.0.encoded(val.0) {
            Err(e) => Err(amend_view(e, "in item 0"@)),
            Ok(j0) =>
            match self.1.encoded(val.1) {
                Err(e) => Err(amend_view(e, "in item 1"@)),
                Ok(j1) =>
                Ok(JsonView::Array(seq![j0, j1])),
            },
        }
    }

    open spec fn decoded(&self, val: JsonView) -> Result<(<T1::Repr as DeepView>::V, <T2::Repr as DeepView>::V), ErrorView> {
        match val {
            JsonView::Array(items) if items.len() == 2 =>
                match self.0.decoded(items[0]) {
                    Err(e) => Err(amend_view(e, "in item 0"@)),
                    Ok(v0) =>
                    match self.1.decoded(items[1]) {
                        Err(e) => Err(amend_view(e, "in item 1"@)),
                        Ok(v1) =>
                        Ok((v0, v1)),
                    },
                },
            _ => Err(bad_value("expected array with 2 elements"@)),
        }
    }

    open spec fn faithful(&self, val: (<T1::Repr as DeepView>::V, <T2::Repr as DeepView>::V)) -> bool {
        self.0.faithful(val.0) && self.1.faithful(val.1)
    }

    fn describe(&self) -> (r: Json) {
        let mut members: Vec<Json> = Vec::new();
        members.push(self.0.describe());
        members.push(self.1.describe());
        assert(views_of(members@) =~= seq![self.0.datainfo(), self.1.datainfo()]);
        describe_tuple(members)
    }

    fn to_json(&self, val: (T1::Repr, T2::Repr)) -> (r: Result<Json, Error>) {
        let (a0, a1) = val;
        let j0 = match self.0.to_json(a0) {
            Ok(j) => j,
            Err(e) => {
                return Err(e.amend("in item 0"));
            },
        };
        let j1 = match self.1.to_json(a1) {
            Ok(j) => j,
            Err(e) => {
                return Err(e.amend("in item 1"));
            },
        };
        let mut items: Vec<Json> = Vec::new();
        items.push(j0);
        items.push(j1);
        assert(views_of(items@) =~= seq![j0@, j1@]);
        Ok(Json::array(items))
    }

    fn from_json(&self, val: &Json) -> (r: Result<(T1::Repr, T2::Repr), Error>) {
        match val.as_array() {
            Some(arr) => {
                if arr.len() == 2 {
                    assert(views_of(arr@)[0] == arr@[0]@);
                    let v0 = match self.0.from_json(&arr[0]) {
                        Ok(v) => v,
                        Err(e) => {
                            return Err(e.amend("in item 0"));
                        },
                    };
                    assert(views_of(arr@)[1] == arr@[1]@);
                    let v1 = match self.1.from_json(&arr[1]) {
                        Ok(v) => v,
                        Err(e) => {
                            return Err(e.amend("in item 1"));
                        },
                    };
                    Ok((v0, v1))
                } else {
                    Err(Error::bad_value("expected array with 2 elements"))
                }
            },
            None => Err(Error::bad_value("expected array with 2 elements")),
        }
    }
}

impl<T1: TypeLaws, T2: TypeLaws> TypeLaws for Tuple2<T1, T2> {
    proof fn lemma_decode_encode(&self, val: (<T1::Repr as DeepView>::V, <T2::Repr as DeepView>::V)) {
        self.0.lemma_decode_encode(val.0);
        self.1.lemma_decode_encode(val.1);
    }

    proof fn lemma_encode_error(&self, val: (<T1::Repr as DeepView>::V, <T2::Repr as DeepView>::V)) {
        self.0.lemma_encode_error(val.0);
        self.1.lemma_encode_error(val.1);
    }

    proof fn lemma_decode_error(&self, val: JsonView) {
        match val {
            JsonView::Array(items) => {
                if items.len() == 2 {
                    self.0.lemma_decode_error(items[0]);
                    self.1.lemma_decode_error(items[1]);
                }
            },
            _ => {},
        }
    }
}

/// Tuples of three values.
pub struct Tuple3<T1: TypeInfo, T2: TypeInfo, T3: TypeInfo>(pub T1, pub T2, pub T3);

impl<T1: TypeInfo, T2: TypeInfo, T3: TypeInfo> TypeInfo for Tuple3<T1, T2, T3> {
    type Repr = (T1::Repr, T2::Repr, T3::Repr);

    open spec fn datainfo(&self) -> JsonView {
        tuple_datainfo(seq![self.0.datainfo(), self.1.datainfo(), self.2.datainfo()])
    }

    open spec fn encoded(&self, val: (<T1::Repr as DeepView>::V, <T2::Repr as DeepView>::V, <T3::Repr as DeepView>::V)) -> Result<JsonView, ErrorView> {
        match self.0.encoded(val.0) {
            Err(e) => Err(amend_view(e, "in item 0"@)),
            Ok(j0) =>
            match self.1.encoded(val.1) {
                Err(e) => Err(amend_view(e, "in item 1"@)),
                Ok(j1) =>
                match self.2.encoded(val.2) {
                    Err(e) => Err(amend_view(e, "in item 2"@)),
                    Ok(j2) =>
                    Ok(JsonView::Array(seq![j0, j1, j2])),
                },
            },
        }
    }

    open spec fn decoded(&self, val: JsonView) -> Result<(<T1::Repr as DeepView>::V, <T2::Repr as DeepView>::V, <T3::Repr as DeepView>::V), ErrorView> {
        match val {
            JsonView::Array(items) if items.len() == 3 =>
                match self.0.decoded(items[0]) {
                    Err(e) => Err(amend_view(e, "in item 0"@)),
                    Ok(v0) =>
                    match self.1.decoded(items[1]) {
                        Err(e) => Err(amend_view(e, "in item 1"@)),
                        Ok(v1) =>
                        match self.2.decoded(items[2]) {
                            Err(e) => Err(amend_view(e, "in item 2"@)),
                            Ok(v2) =>
                            Ok((v0, v1, v2)),
                        },
                    },
                },
            _ => Err(bad_value("expected array with 3 elements"@)),
        }
    }

    open spec fn faithful(&self, val: (<T1::Repr as DeepView>::V, <T2::Repr as DeepView>::V, <T3::Repr as DeepView>::V)) -> bool {
        self.0.faithful(val.0) && self.1.faithful(val.1) && self.2.faithful(val.2)
    }

    fn describe(&self) -> (r: Json) {
        let mut members: Vec<Json> = Vec::new();
        members.push(self.0.describe());
        members.push(self.1.describe());
        members.push(self.2.describe());
        assert(views_of(members@) =~= seq![self.0.datainfo(), self.1.datainfo(), self.2.datainfo()]);
        describe_tuple(members)
    }

    fn to_json(&self, val: (T1::Repr, T2::Repr, T3::Repr)) -> (r: Result<Json, Error>) {
        let (a0, a1, a2) = val;
        let j0 = match self.0.to_json(a0) {
            Ok(j) => j,
            Err(e) => {
                return Err(e.amend("in item 0"));
            },
        };
        let j1 = match self.1.to_json(a1) {
            Ok(j) => j,
            Err(e) => {
                return Err(e.amend("in item 1"));
            },
        };
        let j2 = match self.2.to_json(a2) {
            Ok(j) => j,
            Err(e) => {
                return Err(e.amend("in item 2"));
            },
        };
        let mut items: Vec<Json> = Vec::new();
        items.push(j0);
        items.push(j1);
        items.push(j2);
        assert(views_of(items@) =~= seq![j0@, j1@, j2@]);
        Ok(Json::array(items))
    }

    fn from_json(&self, val: &Json) -> (r: Result<(T1::Repr, T2::Repr, T3::Repr), Error>) {
        match val.as_array() {
            Some(arr) => {
                if arr.len() == 3 {
                    assert(views_of(arr@)[0] == arr@[0]@);
                    let v0 = match self.0.from_json(&arr[0]) {
                        Ok(v) => v,
                        Err(e) => {
                            return Err(e.amend("in item 0"));
                        },
                    };
                    assert(views_of(arr@)[1] == arr@[1]@);
                    let v1 = match self.1.from_json(&arr[1]) {
                        Ok(v) => v,
                        Err(e) => {
                            return Err(e.amend("in item 1"));
                        },
                    };
                    assert(views_of(arr@)[2] == arr@[2]@);
                    let v2 = match self.2.from_json(&arr[2]) {
                        Ok(v) => v,
                        Err(e) => {
                            return Err(e.amend("in item 2"));
                        },
                    };
                    Ok((v0, v1, v2))
                } else {
                    Err(Error::bad_value("expected array with 3 elements"))
                }
            },
            None => Err(Error::bad_value("expected array with 3 elements")),
        }
    }
}

impl<T1: TypeLaws, T2: TypeLaws, T3: TypeLaws> TypeLaws for Tuple3<T1, T2, T3> {
    proof fn lemma_decode_encode(&self, val: (<T1::Repr as DeepView>::V, <T2::Repr as DeepView>::V, <T3::Repr as DeepView>::V)) {
        self.0.lemma_decode_encode(val.0);
        self.1.lemma_decode_encode(val.1);
        self.2.lemma_decode_encode(val.2);
    }

    proof fn lemma_encode_error(&self, val: (<T1::Repr as DeepView>::V, <T2::Repr as DeepView>::V, <T3::Repr as DeepView>::V)) {
        self.0.lemma_encode_error(val.0);
        self.1.lemma_encode_error(val.1);
        self.2.lemma_encode_error(val.2);
    }

    proof fn lemma_decode_error(&self, val: JsonView) {
        match val {
            JsonView::Array(items) => {
                if items.len() == 3 {
                    self.0.lemma_decode_error(items[0]);
                    self.1.lemma_decode_error(items[1]);
                    self.2.lemma_decode_error(items[2]);
                }
            },
            _ => {},
        }
    }
}

/// Tuples of four values.
pub struct Tuple4<T1: TypeInfo, T2: TypeInfo, T3: TypeInfo, T4: TypeInfo>(pub T1, pub T2, pub T3, pub T4);

impl<T1: TypeInfo, T2: TypeInfo, T3: TypeInfo, T4: TypeInfo> TypeInfo for Tuple4<T1, T2, T3, T4> {
    type Repr = (T1::Repr, T2::Repr, T3::Repr, T4::Repr);

    open spec fn datainfo(&self) -> JsonView {
        tuple_datainfo(seq![self.0.datainfo(), self.1.datainfo(), self.2.datainfo(), self.3.datainfo()])
    }

    open spec fn encoded(&self, val: (<T1::Repr as DeepView>::V, <T2::Repr as DeepView>::V, <T3::Repr as DeepView>::V, <T4::Repr as DeepView>::V)) -> Result<JsonView, ErrorView> {
        match self.0.encoded(val.0) {
            Err(e) => Err(amend_view(e, "in item 0"@)),
            Ok(j0) =>
            match self.1.encoded(val.1) {
                Err(e) => Err(amend_view(e, "in item 1"@)),
                Ok(j1) =>
                match self.2.encoded(val.2) {
                    Err(e) => Err(amend_view(e, "in item 2"@)),
                    Ok(j2) =>
                    match self.3.encoded(val.3) {
                        Err(e) => Err(amend_view(e, "in item 3"@)),
                        Ok(j3) =>
                        Ok(JsonView::Array(seq![j0, j1, j2, j3])),
                    },
                },
            },
        }
    }

    open spec fn decoded(&self, val: JsonView) -> Result<(<T1::Repr as DeepView>::V, <T2::Repr as DeepView>::V, <T3::Repr as DeepView>::V, <T4::Repr as DeepView>::V), ErrorView> {
        match val {
            JsonView::Array(items) if items.len() == 4 =>
                match self.0.decoded(items[0]) {
                    Err(e) => Err(amend_view(e, "in item 0"@)),
                    Ok(v0) =>
                    match self.1.decoded(items[1]) {
                        Err(e) => Err(amend_view(e, "in item 1"@)),
                        Ok(v1) =>
                        match self.2.decoded(items[2]) {
                            Err(e) => Err(amend_view(e, "in item 2"@)),
                            Ok(v2) =>
                            match self.3.decoded(items[3]) {
                                Err(e) => Err(amend_view(e, "in item 3"@)),
                                Ok(v3) =>
                                Ok((v0, v1, v2, v3)),
                            },
                        },
                    },
                },
            _ => Err(bad_value("expected array with 4 elements"@)),
        }
    }

    open spec fn faithful(&self, val: (<T1::Repr as DeepView>::V, <T2::Repr as DeepView>::V, <T3::Repr as DeepView>::V, <T4::Repr as DeepView>::V)) -> bool {
        self.0.faithful(val.0) && self.1.faithful(val.1) && self.2.faithful(val.2) && self.3.faithful(val.3)
    }

    fn describe(&self) -> (r: Json) {
        let mut members: Vec<Json> = Vec::new();
        members.push(self.0.describe());
        members.push(self.1.describe());
        members.push(self.2.describe());
        members.push(self.3.describe());
        assert(views_of(members@) =~= seq![self.0.datainfo(), self.1.datainfo(), self.2.datainfo(), self.3.datainfo()]);
        describe_tuple(members)
    }

    fn to_json(&self, val: (T1::Repr, T2::Repr, T3::Repr, T4::Repr)) -> (r: Result<Json, Error>) {
        let (a0, a1, a2, a3) = val;
        let j0 = match self.0.to_json(a0) {
            Ok(j) => j,
            Err(e) => {
                return Err(e.amend("in item 0"));
            },
        };
        let j1 = match self.1.to_json(a1) {
            Ok(j) => j,
            Err(e) => {
                return Err(e.amend("in item 1"));
            },
        };
        let j2 = match self.2.to_json(a2) {
            Ok(j) => j,
            Err(e) => {
                return Err(e.amend("in item 2"));
            },
        };
        let j3 = match self.3.to_json(a3) {
            Ok(j) => j,
            Err(e) => {
                return Err(e.amend("in item 3"));
            },
        };
        let mut items: Vec<Json> = Vec::new();
        items.push(j0);
        items.push(j1);
        items.push(j2);
        items.push(j3);
        assert(views_of(items@) =~= seq![j0@, j1@, j2@, j3@]);
        Ok(Json::array(items))
    }

    fn from_json(&self, val: &Json) -> (r: Result<(T1::Repr, T2::Repr, T3::Repr, T4::Repr), Error>) {
        match val.as_array() {
            Some(arr) => {
                if arr.len() == 4 {
                    assert(views_of(arr@)[0] == arr@[0]@);
                    let v0 = match self.0.from_json(&arr[0]) {
                        Ok(v) => v,
                        Err(e) => {
                            return Err(e.amend("in item 0"));
                        },
                    };
                    assert(views_of(arr@)[1] == arr@[1]@);
                    let v1 = match self.1.from_json(&arr[1]) {
                        Ok(v) => v,
                        Err(e) => {
                            return Err(e.amend("in item 1"));
                        },
                    };
                    assert(views_of(arr@)[2] == arr@[2]@);
                    let v2 = match self.2.from_json(&arr[2]) {
                        Ok(v) => v,
                        Err(e) => {
                            return Err(e.amend("in item 2"));
                        },
                    };
                    assert(views_of(arr@)[3] == arr@[3]@);
                    let v3 = match self.3.from_json(&arr[3]) {
                        Ok(v) => v,
                        Err(e) => {
                            return Err(e.amend("in item 3"));
                        },
                    };
                    Ok((v0, v1, v2, v3))
                } else {
                    Err(Error::bad_value("expected array with 4 elements"))
                }
            },
            None => Err(Error::bad_value("expected array with 4 elements")),
        }
    }
}

impl<T1: TypeLaws, T2: TypeLaws, T3: TypeLaws, T4: TypeLaws> TypeLaws for Tuple4<T1, T2, T3, T4> {
    proof fn lemma_decode_encode(&self, val: (<T1::Repr as DeepView>::V, <T2::Repr as DeepView>::V, <T3::Repr as DeepView>::V, <T4::Repr as DeepView>::V)) {
        self.0.lemma_decode_encode(val.0);
        self.1.lemma_decode_encode(val.1);
        self.2.lemma_decode_encode(val.2);
        self.3.lemma_decode_encode(val.3);
    }

    proof fn lemma_encode_error(&self, val: (<T1::Repr as DeepView>::V, <T2::Repr as DeepView>::V, <T3::Repr as DeepView>::V, <T4::Repr as DeepView>::V)) {
        self.0.lemma_encode_error(val.0);
        self.1.lemma_encode_error(val.1);
        self.2.lemma_encode_error(val.2);
        self.3.lemma_encode_error(val.3);
    }

    proof fn lemma_decode_error(&self, val: JsonView) {
        match val {
            JsonView::Array(items) => {
                if items.len() == 4 {
                    self.0.lemma_decode_error(items[0]);
                    self.1.lemma_decode_error(items[1]);
                    self.2.lemma_decode_error(items[2]);
                    self.3.lemma_decode_error(items[3]);
                }
            },
            _ => {},
        }
    }
}

/// Tuples of five values.
pub struct Tuple5<T1: TypeInfo, T2: TypeInfo, T3: TypeInfo, T4: TypeInfo, T5: TypeInfo>(pub T1, pub T2, pub T3, pub T4, pub T5);

impl<T1: TypeInfo, T2: TypeInfo, T3: TypeInfo, T4: TypeInfo, T5: TypeInfo> TypeInfo for Tuple5<T1, T2, T3, T4, T5> {
    type Repr = (T1::Repr, T2::Repr, T3::Repr, T4::Repr, T5::Repr);

    open spec fn datainfo(&self) -> JsonView {
        tuple_datainfo(seq![self.0.datainfo(), self.1.datainfo(), self.2.datainfo(), self.3.datainfo(), self.4.datainfo()])
    }

    open spec fn encoded(&self, val: (<T1::Repr as DeepView>::V, <T2::Repr as DeepView>::V, <T3::Repr as DeepView>::V, <T4::Repr as DeepView>::V, <T5::Repr as DeepView>::V)) -> Result<JsonView, ErrorView> {
        match self.0.encoded(val.0) {
            Err(e) => Err(amend_view(e, "in item 0"@)),
            Ok(j0) =>
            match self.1.encoded(val.1) {
                Err(e) => Err(amend_view(e, "in item 1"@)),
                Ok(j1) =>
                match self.2.encoded(val.2) {
                    Err(e) => Err(amend_view(e, "in item 2"@)),
                    Ok(j2) =>
                    match self.3.encoded(val.3) {
                        Err(e) => Err(amend_view(e, "in item 3"@)),
                        Ok(j3) =>
                        match self.4.encoded(val.4) {
                            Err(e) => Err(amend_view(e, "in item 4"@)),
                            Ok(j4) =>
                            Ok(JsonView::Array(seq![j0, j1, j2, j3, j4])),
                        },
                    },
                },
            },
        }
    }

    open spec fn decoded(&self, val: JsonView) -> Result<(<T1::Repr as DeepView>::V, <T2::Repr as DeepView>::V, <T3::Repr as DeepView>::V, <T4::Repr as DeepView>::V, <T5::Repr as DeepView>::V), ErrorView> {
        match val {
            JsonView::Array(items) if items.len() == 5 =>
                match self.0.decoded(items[0]) {
                    Err(e) => Err(amend_view(e, "in item 0"@)),
                    Ok(v0) =>
                    match self.1.decoded(items[1]) {
                        Err(e) => Err(amend_view(e, "in item 1"@)),
                        Ok(v1) =>
                        match self.2.decoded(items[2]) {
                            Err(e) => Err(amend_view(e, "in item 2"@)),
                            Ok(v2) =>
                            match self.3.decoded(items[3]) {
                                Err(e) => Err(amend_view(e, "in item 3"@)),
                                Ok(v3) =>
                                match self.4.decoded(items[4]) {
                                    Err(e) => Err(amend_view(e, "in item 4"@)),
                                    Ok(v4) =>
                                    Ok((v0, v1, v2, v3, v4)),
                                },
                            },
                        },
                    },
                },
            _ => Err(bad_value("expected array with 5 elements"@)),
        }
    }

    open spec fn faithful(&self, val: (<T1::Repr as DeepView>::V, <T2::Repr as DeepView>::V, <T3::Repr as DeepView>::V, <T4::Repr as DeepView>::V, <T5::Repr as DeepView>::V)) -> bool {
        self.0.faithful(val.0) && self.1.faithful(val.1) && self.2.faithful(val.2) && self.3.faithful(val.3) && self.4.faithful(val.4)
    }

    fn describe(&self) -> (r: Json) {
        let mut members: Vec<Json> = Vec::new();
        members.push(self.0.describe());
        members.push(self.1.describe());
        members.push(self.2.describe());
        members.push(self.3.describe());
        members.push(self.4.describe());
        assert(views_of(members@) =~= seq![self.0.datainfo(), self.1.datainfo(), self.2.datainfo(), self.3.datainfo(), self.4.datainfo()]);
        describe_tuple(members)
    }

    fn to_json(&self, val: (T1::Repr, T2::Repr, T3::Repr, T4::Repr, T5::Repr)) -> (r: Result<Json, Error>) {
        let (a0, a1, a2, a3, a4) = val;
        let j0 = match self.0.to_json(a0) {
            Ok(j) => j,
            Err(e) => {
                return Err(e.amend("in item 0"));
            },
        };
        let j1 = match self.1.to_json(a1) {
            Ok(j) => j,
            Err(e) => {
                return Err(e.amend("in item 1"));
            },
        };
        let j2 = match self.2.to_json(a2) {
            Ok(j) => j,
            Err(e) => {
                return Err(e.amend("in item 2"));
            },
        };
        let j3 = match self.3.to_json(a3) {
            Ok(j) => j,
            Err(e) => {
                return Err(e.amend("in item 3"));
            },
        };
        let j4 = match self.4.to_json(a4) {
            Ok(j) => j,
            Err(e) => {
                return Err(e.amend("in item 4"));
            },
        };
        let mut items: Vec<Json> = Vec::new();
        items.push(j0);
        items.push(j1);
        items.push(j2);
        items.push(j3);
        items.push(j4);
        assert(views_of(items@) =~= seq![j0@, j1@, j2@, j3@, j4@]);
        Ok(Json::array(items))
    }

    fn from_json(&self, val: &Json) -> (r: Result<(T1::Repr, T2::Repr, T3::Repr, T4::Repr, T5::Repr), Error>) {
        match val.as_array() {
            Some(arr) => {
                if arr.len() == 5 {
                    assert(views_of(arr@)[0] == arr@[0]@);
                    let v0 = match self.0.from_json(&arr[0]) {
                        Ok(v) => v,
                        Err(e) => {
                            return Err(e.amend("in item 0"));
                        },
                    };
                    assert(views_of(arr@)[1] == arr@[1]@);
                    let v1 = match self.1.from_json(&arr[1]) {
                        Ok(v) => v,
                        Err(e) => {
                            return Err(e.amend("in item 1"));
                        },
                    };
                    assert(views_of(arr@)[2] == arr@[2]@);
                    let v2 = match self.2.from_json(&arr[2]) {
                        Ok(v) => v,
                        Err(e) => {
                            return Err(e.amend("in item 2"));
                        },
                    };
                    assert(views_of(arr@)[3] == arr@[3]@);
                    let v3 = match self.3.from_json(&arr[3]) {
                        Ok(v) => v,
                        Err(e) => {
                            return Err(e.amend("in item 3"));
                        },
                    };
                    assert(views_of(arr@)[4] == arr@[4]@);
                    let v4 = match self.4.from_json(&arr[4]) {
                        Ok(v) => v,
                        Err(e) => {
                            return Err(e.amend("in item 4"));
                        },
                    };
                    Ok((v0, v1, v2, v3, v4))
                } else {
                    Err(Error::bad_value("expected array with 5 elements"))
                }
            },
            None => Err(Error::bad_value("expected array with 5 elements")),
        }
    }
}

impl<T1: TypeLaws, T2: TypeLaws, T3: TypeLaws, T4: TypeLaws, T5: TypeLaws> TypeLaws for Tuple5<T1, T2, T3, T4, T5> {
    proof fn lemma_decode_encode(&self, val: (<T1::Repr as DeepView>::V, <T2::Repr as DeepView>::V, <T3::Repr as DeepView>::V, <T4::Repr as DeepView>::V, <T5::Repr as DeepView>::V)) {
        self.0.lemma_decode_encode(val.0);
        self.1.lemma_decode_encode(val.1);
        self.2.lemma_decode_encode(val.2);
        self.3.lemma_decode_encode(val.3);
        self.4.lemma_decode_encode(val.4);
    }

    proof fn lemma_encode_error(&self, val: (<T1::Repr as DeepView>::V, <T2::Repr as DeepView>::V, <T3::Repr as DeepView>::V, <T4::Repr as DeepView>::V, <T5::Repr as DeepView>::V)) {
        self.0.lemma_encode_error(val.0);
        self.1.lemma_encode_error(val.1);
        self.2.lemma_encode_error(val.2);
        self.3.lemma_encode_error(val.3);
        self.4.lemma_encode_error(val.4);
    }

    proof fn lemma_decode_error(&self, val: JsonView) {
        match val {
            JsonView::Array(items) => {
                if items.len() == 5 {
                    self.0.lemma_decode_error(items[0]);
                    self.1.lemma_decode_error(items[1]);
                    self.2.lemma_decode_error(items[2]);
                    self.3.lemma_decode_error(items[3]);
                    self.4.lemma_decode_error(items[4]);
                }
            },
            _ => {},
        }
    }
}

/// Tuples of six values.
pub struct Tuple6<T1: TypeInfo, T2: TypeInfo, T3: TypeInfo, T4: TypeInfo, T5: TypeInfo, T6: TypeInfo>(pub T1, pub T2, pub T3, pub T4, pub T5, pub T6);

impl<T1: TypeInfo, T2: TypeInfo, T3: TypeInfo, T4: TypeInfo, T5: TypeInfo, T6: TypeInfo> TypeInfo for Tuple6<T1, T2, T3, T4, T5, T6> {
    type Repr = (T1::Repr, T2::Repr, T3::Repr, T4::Repr, T5::Repr, T6::Repr);

    open spec fn datainfo(&self) -> JsonView {
        tuple_datainfo(seq![self.0.datainfo(), self.1.datainfo(), self.2.datainfo(), self.3.datainfo(), self.4.datainfo(), self.5.datainfo()])
    }

    open spec fn encoded(&self, val: (<T1::Repr as DeepView>::V, <T2::Repr as DeepView>::V, <T3::Repr as DeepView>::V, <T4::Repr as DeepView>::V, <T5::Repr as DeepView>::V, <T6::Repr as DeepView>::V)) -> Result<JsonView, ErrorView> {
        match self.0.encoded(val.0) {
            Err(e) => Err(amend_view(e, "in item 0"@)),
            Ok(j0) =>
            match self.1.encoded(val.1) {
                Err(e) => Err(amend_view(e, "in item 1"@)),
                Ok(j1) =>
                match self.2.encoded(val.2) {
                    Err(e) => Err(amend_view(e, "in item 2"@)),
                    Ok(j2) =>
                    match self.3.encoded(val.3) {
                        Err(e) => Err(amend_view(e, "in item 3"@)),
                        Ok(j3) =>
                        match self.4.encoded(val.4) {
                            Err(e) => Err(amend_view(e, "in item 4"@)),
                            Ok(j4) =>
                            match self.5.encoded(val.5) {
                                Err(e) => Err(amend_view(e, "in item 5"@)),
                                Ok(j5) =>
                                Ok(JsonView::Array(seq![j0, j1, j2, j3, j4, j5])),
                            },
                        },
                    },
                },
            },
        }
    }

    open spec fn decoded(&self, val: JsonView) -> Result<(<T1::Repr as DeepView>::V, <T2::Repr as DeepView>::V, <T3::Repr as DeepView>::V, <T4::Repr as DeepView>::V, <T5::Repr as DeepView>::V, <T6::Repr as DeepView>::V), ErrorView> {
        match val {
            JsonView::Array(items) if items.len() == 6 =>
                match self.0.decoded(items[0]) {
                    Err(e) => Err(amend_view(e, "in item 0"@)),
                    Ok(v0) =>
                    match self.1.decoded(items[1]) {
                        Err(e) => Err(amend_view(e, "in item 1"@)),
                        Ok(v1) =>
                        match self.2.decoded(items[2]) {
                            Err(e) => Err(amend_view(e, "in item 2"@)),
                            Ok(v2) =>
                            match self.3.decoded(items[3]) {
                                Err(e) => Err(amend_view(e, "in item 3"@)),
                                Ok(v3) =>
                                match self.4.decoded(items[4]) {
                                    Err(e) => Err(amend_view(e, "in item 4"@)),
                                    Ok(v4) =>
                                    match self.5.decoded(items[5]) {
                                        Err(e) => Err(amend_view(e, "in item 5"@)),
                                        Ok(v5) =>
                                        Ok((v0, v1, v2, v3, v4, v5)),
                                    },
                                },
                            },
                        },
                    },
                },
            _ => Err(bad_value("expected array with 6 elements"@)),
        }
    }

    open spec fn faithful(&self, val: (<T1::Repr as DeepView>::V, <T2::Repr as DeepView>::V, <T3::Repr as DeepView>::V, <T4::Repr as DeepView>::V, <T5::Repr as DeepView>::V, <T6::Repr as DeepView>::V)) -> bool {
        self.0.faithful(val.0) && self.1.faithful(val.1) && self.2.faithful(val.2) && self.3.faithful(val.3) && self.4.faithful(val.4) && self.5.faithful(val.5)
    }

    fn describe(&self) -> (r: Json) {
        let mut members: Vec<Json> = Vec::new();
        members.push(self.0.describe());
        members.push(self.1.describe());
        members.push(self.2.describe());
        members.push(self.3.describe());
        members.push(self.4.describe());
        members.push(self.5.describe());
        assert(views_of(members@) =~= seq![self.0.datainfo(), self.1.datainfo(), self.2.datainfo(), self.3.datainfo(), self.4.datainfo(), self.5.datainfo()]);
        describe_tuple(members)
    }

    fn to_json(&self, val: (T1::Repr, T2::Repr, T3::Repr, T4::Repr, T5::Repr, T6::Repr)) -> (r: Result<Json, Error>) {
        let (a0, a1, a2, a3, a4, a5) = val;
        let j0 = match self.0.to_json(a0) {
            Ok(j) => j,
            Err(e) => {
                return Err(e.amend("in item 0"));
            },
        };
        let j1 = match self.1.to_json(a1) {
            Ok(j) => j,
            Err(e) => {
                return Err(e.amend("in item 1"));
            },
        };
        let j2 = match self.2.to_json(a2) {
            Ok(j) => j,
            Err(e) => {
                return Err(e.amend("in item 2"));
            },
        };
        let j3 = match self.3.to_json(a3) {
            Ok(j) => j,
            Err(e) => {
                return Err(e.amend("in item 3"));
            },
        };
        let j4 = match self.4.to_json(a4) {
            Ok(j) => j,
            Err(e) => {
                return Err(e.amend("in item 4"));
            },
        };
        let j5 = match self.5.to_json(a5) {
            Ok(j) => j,
            Err(e) => {
                return Err(e.amend("in item 5"));
            },
        };
        let mut items: Vec<Json> = Vec::new();
        items.push(j0);
        items.push(j1);
        items.push(j2);
        items.push(j3);
        items.push(j4);
        items.push(j5);
        assert(views_of(items@) =~= seq![j0@, j1@, j2@, j3@, j4@, j5@]);
        Ok(Json::array(items))
    }

    fn from_json(&self, val: &Json) -> (r: Result<(T1::Repr, T2::Repr, T3::Repr, T4::Repr, T5::Repr, T6::Repr), Error>) {
        match val.as_array() {
            Some(arr) => {
                if arr.len() == 6 {
                    assert(views_of(arr@)[0] == arr@[0]@);
                    let v0 = match self.0.from_json(&arr[0]) {
                        Ok(v) => v,
                        Err(e) => {
                            return Err(e.amend("in item 0"));
                        },
                    };
                    assert(views_of(arr@)[1] == arr@[1]@);
                    let v1 = match self.1.from_json(&arr[1]) {
                        Ok(v) => v,
                        Err(e) => {
                            return Err(e.amend("in item 1"));
                        },
                    };
                    assert(views_of(arr@)[2] == arr@[2]@);
                    let v2 = match self.2.from_json(&arr[2]) {
                        Ok(v) => v,
                        Err(e) => {
                            return Err(e.amend("in item 2"));
                        },
                    };
                    assert(views_of(arr@)[3] == arr@[3]@);
                    let v3 = match self.3.from_json(&arr[3]) {
                        Ok(v) => v,
                        Err(e) => {
                            return Err(e.amend("in item 3"));
                        },
                    };
                    assert(views_of(arr@)[4] == arr@[4]@);
                    let v4 = match self.4.from_json(&arr[4]) {
                        Ok(v) => v,
                        Err(e) => {
                            return Err(e.amend("in item 4"));
                        },
                    };
                    assert(views_of(arr@)[5] == arr@[5]@);
                    let v5 = match self.5.from_json(&arr[5]) {
                        Ok(v) => v,
                        Err(e) => {
                            return Err(e.amend("in item 5"));
                        },
                    };
                    Ok((v0, v1, v2, v3, v4, v5))
                } else {
                    Err(Error::bad_value("expected array with 6 elements"))
                }
            },
            None => Err(Error::bad_value("expected array with 6 elements")),
        }
    }
}

impl<T1: TypeLaws, T2: TypeLaws, T3: TypeLaws, T4: TypeLaws, T5: TypeLaws, T6: TypeLaws> TypeLaws for Tuple6<T1, T2, T3, T4, T5, T6> {
    proof fn lemma_decode_encode(&self, val: (<T1::Repr as DeepView>::V, <T2::Repr as DeepView>::V, <T3::Repr as DeepView>::V, <T4::Repr as DeepView>::V, <T5::Repr as DeepView>::V, <T6::Repr as DeepView>::V)) {
        self.0.lemma_decode_encode(val.0);
        self.1.lemma_decode_encode(val.1);
        self.2.lemma_decode_encode(val.2);
        self.3.lemma_decode_encode(val.3);
        self.4.lemma_decode_encode(val.4);
        self.5.lemma_decode_encode(val.5);
    }

    proof fn lemma_encode_error(&self, val: (<T1::Repr as DeepView>::V, <T2::Repr as DeepView>::V, <T3::Repr as DeepView>::V, <T4::Repr as DeepView>::V, <T5::Repr as DeepView>::V, <T6::Repr as DeepView>::V)) {
        self.0.lemma_encode_error(val.0);
        self.1.lemma_encode_error(val.1);
        self.2.lemma_encode_error(val.2);
        self.3.lemma_encode_error(val.3);
        self.4.lemma_encode_error(val.4);
        self.5.lemma_encode_error(val.5);
    }

    proof fn lemma_decode_error(&self, val: JsonView) {
        match val {
            JsonView::Array(items) => {
                if items.len() == 6 {
                    self.0.lemma_decode_error(items[0]);
                    self.1.lemma_decode_error(items[1]);
                    self.2.lemma_decode_error(items[2]);
                    self.3.lemma_decode_error(items[3]);
                    self.4.lemma_decode_error(items[4]);
                    self.5.lemma_decode_error(items[5]);
                }
            },
            _ => {},
        }
    }
}

} // verus!
