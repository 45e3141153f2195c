use secop::errors::Error;
use secop::json::Json;
use secop::proto::Msg;
use secop::structs::{NoMembers, Optional, Required, Struct};
use secop::types::{Bool, Int, Str, TypeInfo};

type Pid = Struct<Required<Int, Optional<Int, Required<Str, NoMembers>>>>;

fn pid() -> Pid {
    Struct {
        members: Required {
            name: "p".to_string(),
            info: Int::new().min(0).max(100),
            rest: Optional {
                name: "i".to_string(),
                info: Int::new().min(0).max(100),
                rest: Required { name: "mode".to_string(), info: Str::new().maxchars(4), rest: NoMembers },
            },
        },
    }
}

fn object(members: &[(&str, Json)]) -> Json {
    Json::Object(members.iter().map(|(k, v)| (k.to_string(), v.clone())).collect())
}

#[test]
fn a_struct_is_an_object_of_its_members() {
    let t = pid();
    assert_eq!(
        t.to_json((5, (Some(7), ("fast".to_string(), ())))),
        Ok(object(&[
            ("p", Json::Int(5)),
            ("i", Json::Int(7)),
            ("mode", Json::Str("fast".to_string())),
        ]))
    );
    assert_eq!(
        t.from_json(&object(&[
            ("mode", Json::Str("slow".to_string())),
            ("extra", Json::Null),
            ("i", Json::Int(1)),
            ("p", Json::Int(2)),
        ])),
        Ok((2, (Some(1), ("slow".to_string(), ()))))
    );
}

#[test]
fn an_optional_member_may_be_absent() {
    let t = pid();
    assert_eq!(
        t.to_json((5, (None, ("fast".to_string(), ())))),
        Ok(object(&[("p", Json::Int(5)), ("mode", Json::Str("fast".to_string()))]))
    );
    assert_eq!(
        t.from_json(&object(&[("p", Json::Int(5)), ("mode", Json::Str("fast".to_string()))])),
        Ok((5, (None, ("fast".to_string(), ()))))
    );
}

#[test]
fn a_mandatory_member_must_be_there() {
    let t = pid();
    assert_eq!(
        t.from_json(&object(&[("i", Json::Int(5)), ("mode", Json::Str("fast".to_string()))])),
        Err(Error::bad_value("missing p in object"))
    );
    assert_eq!(
        t.from_json(&object(&[("p", Json::Int(5))])),
        Err(Error::bad_value("missing mode in object"))
    );
    assert_eq!(t.from_json(&Json::Array(vec![])), Err(Error::bad_value("expected object")));
}

#[test]
fn an_error_in_a_member_says_where() {
    let t = pid();
    assert_eq!(
        t.to_json((5, (Some(700), ("fast".to_string(), ())))),
        Err(Error::bad_value("expected integer between 0 and 100 (in i)"))
    );
    assert_eq!(
        t.to_json((5, (None, ("faster".to_string(), ())))),
        Err(Error::bad_value("expected string with length <= 4 (in mode)"))
    );
    assert_eq!(
        t.from_json(&object(&[("p", Json::Bool(true)), ("mode", Json::Null)])),
        Err(Error::bad_value("expected integer between 0 and 100 (in p)"))
    );
    let nested = Struct {
        members: Required { name: "pid".to_string(), info: pid(), rest: NoMembers },
    };
    assert_eq!(
        nested.from_json(&object(&[(
            "pid",
            object(&[("p", Json::Int(1)), ("i", Json::Null), ("mode", Json::Null)])
        )])),
        Err(Error::bad_value("expected integer between 0 and 100 (in i) (in pid)"))
    );
}

#[test]
fn a_struct_describes_its_members() {
    let t = Struct {
        members: Required {
            name: "on".to_string(),
            info: Bool,
            rest: Optional { name: "n".to_string(), info: Int::new().min(0).max(1), rest: NoMembers },
        },
    };
    let line = Msg::Describing { id: "x".to_string(), structure: t.describe() }.to_string();
    assert_eq!(
        line,
        "describing x {\"members\":{\"n\":{\"max\":1,\"min\":0,\"type\":\"int\"},\"on\":{\"type\":\"bool\"}},\"type\":\"struct\"}"
    );
    let empty = Struct { members: NoMembers };
    assert_eq!(empty.to_json(()), Ok(Json::Object(vec![])));
    assert_eq!(empty.from_json(&object(&[("a", Json::Null)])), Ok(()));
}

#[test]
fn decoding_a_struct_undoes_encoding() {
    let t = pid();
    for value in [
        (0, (None, (String::new(), ()))),
        (100, (Some(0), ("abcd".to_string(), ()))),
    ] {
        assert_eq!(t.from_json(&t.to_json(value.clone()).unwrap()), Ok(value));
    }
}
