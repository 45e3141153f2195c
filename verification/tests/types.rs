use secop::array::ArrayOf;
use secop::blob::Blob;
use secop::enums::{Enum, EnumType};
use secop::errors::{Error, ErrorKind};
use secop::json::Json;
use secop::proto::Msg;
use secop::status::{status_type, StatusConst, StatusConstType};
use secop::tuples::{Tuple2, Tuple3, Tuple4, Tuple5, Tuple6};
use secop::types::{Bool, Int, Null, Str, TypeInfo};

fn text(s: &str) -> Json {
    Json::Str(s.to_string())
}

fn described<T: TypeInfo>(info: &T) -> String {
    let line = Msg::Describing { id: "x".to_string(), structure: info.describe() }.to_string();
    line["describing x ".len()..].to_string()
}

fn bad(message: &str) -> Error {
    Error::bad_value(message)
}

#[test]
fn null_accepts_null_only() {
    assert_eq!(Null.to_json(()), Ok(Json::Null));
    assert_eq!(Null.from_json(&Json::Null), Ok(()));
    assert_eq!(Null.from_json(&Json::Int(0)), Err(bad("expected null")));
    assert_eq!(described(&Null), "null");
}

#[test]
fn bool_accepts_booleans_only() {
    assert_eq!(Bool.to_json(true), Ok(Json::Bool(true)));
    assert_eq!(Bool.from_json(&Json::Bool(false)), Ok(false));
    assert_eq!(Bool.from_json(&Json::Int(1)), Err(bad("expected boolean")));
    assert_eq!(described(&Bool), "{\"type\":\"bool\"}");
}

#[test]
fn int_builder_sets_the_bounds() {
    let all = Int::new();
    assert_eq!((all.min, all.max), (i64::MIN, i64::MAX));
    let some = Int::new().min(-5).max(10);
    assert_eq!((some.min, some.max), (-5, 10));
}

#[test]
fn int_keeps_to_its_bounds() {
    let t = Int::new().min(0).max(10);
    assert_eq!(t.to_json(0), Ok(Json::Int(0)));
    assert_eq!(t.to_json(10), Ok(Json::Int(10)));
    assert_eq!(t.to_json(11), Err(bad("expected integer between 0 and 10")));
    assert_eq!(t.to_json(-1), Err(bad("expected integer between 0 and 10")));
    assert_eq!(t.from_json(&Json::Int(5)), Ok(5));
    assert_eq!(t.from_json(&Json::Int(50)), Err(bad("expected integer between 0 and 10")));
    assert_eq!(t.from_json(&text("5")), Err(bad("expected integer between 0 and 10")));
    assert_eq!(t.from_json(&Json::UInt(u64::MAX)), Err(bad("expected integer between 0 and 10")));
    assert_eq!(
        Int::new().from_json(&Json::Null),
        Err(bad("expected integer between -9223372036854775808 and 9223372036854775807"))
    );
    assert_eq!(described(&t), "{\"max\":10,\"min\":0,\"type\":\"int\"}");
}

#[test]
fn str_builder_sets_the_properties() {
    let s = Str::new();
    assert_eq!((s.minchars, s.maxchars, s.is_utf8), (0, 1024, false));
    let s = Str::new().minchars(2).maxchars(8).is_utf8(true);
    assert_eq!((s.minchars, s.maxchars, s.is_utf8), (2, 8, true));
    assert_eq!(
        described(&s),
        "{\"isUTF8\":true,\"maxchars\":8,\"minchars\":2,\"type\":\"string\"}"
    );
    assert_eq!(described(&Str::new()), "{\"maxchars\":1024,\"type\":\"string\"}");
}

#[test]
fn str_counts_bytes() {
    let t = Str::new().maxchars(3);
    assert_eq!(t.to_json("abc".to_string()), Ok(text("abc")));
    assert_eq!(t.to_json("abcd".to_string()), Err(bad("expected string with length <= 3")));
    // two characters, four bytes
    assert_eq!(t.to_json("\u{e4}\u{f6}".to_string()), Err(bad("expected string with length <= 3")));
    assert_eq!(t.from_json(&text("ab")), Ok("ab".to_string()));
    assert_eq!(t.from_json(&text("abcd")), Err(bad("expected string with length <= 3")));
    assert_eq!(t.from_json(&Json::Int(1)), Err(bad("expected string with length <= 3")));
    // the least length is not enforced
    assert_eq!(Str::new().minchars(2).to_json("".to_string()), Ok(text("")));
}

#[test]
fn blob_builder_sets_the_bounds() {
    let b = Blob::new();
    assert_eq!((b.minbytes, b.maxbytes), (0, 1024));
    let b = Blob::new().minbytes(1).maxbytes(4);
    assert_eq!((b.minbytes, b.maxbytes), (1, 4));
    assert_eq!(described(&b), "{\"maxbytes\":4,\"minbytes\":1,\"type\":\"blob\"}");
    assert_eq!(described(&Blob::new()), "{\"maxbytes\":1024,\"type\":\"blob\"}");
}

#[test]
fn blob_goes_over_the_wire_as_base64() {
    let t = Blob::new();
    assert_eq!(t.to_json(b"hello world".to_vec()), Ok(text("aGVsbG8gd29ybGQ=")));
    assert_eq!(t.from_json(&text("aGVsbG8gd29ybGQ=")), Ok(b"hello world".to_vec()));
    assert_eq!(t.to_json(vec![]), Ok(text("")));
    assert_eq!(t.from_json(&text("")), Ok(vec![]));
}

#[test]
fn blob_keeps_to_its_bounds() {
    let t = Blob::new().minbytes(2).maxbytes(4);
    assert_eq!(
        t.to_json(vec![1]),
        Err(bad("expected blob with length between 2 and 4"))
    );
    assert_eq!(
        t.to_json(vec![1, 2, 3, 4, 5]),
        Err(bad("expected blob with length between 2 and 4"))
    );
    let refusal = bad("expected base64 coded string with decoded length between 2 and 4");
    assert_eq!(t.from_json(&text("AQ==")), Err(refusal.clone()));
    assert_eq!(t.from_json(&text("not base64!")), Err(refusal.clone()));
    assert_eq!(t.from_json(&Json::Int(1)), Err(refusal));
    assert_eq!(t.from_json(&text("AQID")), Ok(vec![1, 2, 3]));
    assert_eq!(t.check_decoded(Some(vec![7, 8])), Ok(vec![7, 8]));
    assert!(t.check_decoded(None).is_err());
}

#[test]
fn array_checks_length_and_items() {
    let t = ArrayOf { minlen: 1, maxlen: 3, members: Int::new().min(0).max(9) };
    assert_eq!(
        t.to_json(vec![1, 2, 3]),
        Ok(Json::Array(vec![Json::Int(1), Json::Int(2), Json::Int(3)]))
    );
    assert_eq!(
        t.to_json(vec![]),
        Err(bad("expected vector with length between 1 and 3"))
    );
    assert_eq!(
        t.to_json(vec![1, 2, 3, 4]),
        Err(bad("expected vector with length between 1 and 3"))
    );
    assert_eq!(
        t.to_json(vec![1, 20, 30]),
        Err(bad("expected integer between 0 and 9 (in item 2)"))
    );
    assert_eq!(
        t.from_json(&Json::Array(vec![Json::Int(1), Json::Int(2)])),
        Ok(vec![1, 2])
    );
    assert_eq!(
        t.from_json(&Json::Array(vec![Json::Int(1), Json::Int(2), text("x")])),
        Err(bad("expected integer between 0 and 9 (in item 3)"))
    );
    assert_eq!(
        t.from_json(&Json::Array(vec![])),
        Err(bad("expected array with length between 1 and 3"))
    );
    assert_eq!(
        t.from_json(&Json::Null),
        Err(bad("expected array with length between 1 and 3"))
    );
    assert_eq!(
        described(&t),
        "{\"maxlen\":3,\"members\":{\"max\":9,\"min\":0,\"type\":\"int\"},\"minlen\":1,\"type\":\"array\"}"
    );
}

#[test]
fn nested_arrays_say_where_the_error_is() {
    let t = ArrayOf {
        minlen: 0,
        maxlen: 5,
        members: ArrayOf { minlen: 0, maxlen: 5, members: Bool },
    };
    let value = Json::Array(vec![
        Json::Array(vec![Json::Bool(true)]),
        Json::Array(vec![Json::Bool(true), Json::Bool(false), Json::Int(3)]),
    ]);
    assert_eq!(
        t.from_json(&value),
        Err(bad("expected boolean (in item 3) (in item 2)"))
    );
}

#[test]
fn tuples_count_their_items_from_zero() {
    let t = Tuple2(Int::new().min(0).max(9), Str::new().maxchars(2));
    assert_eq!(
        t.to_json((3, "ab".to_string())),
        Ok(Json::Array(vec![Json::Int(3), text("ab")]))
    );
    assert_eq!(
        t.to_json((30, "abc".to_string())),
        Err(bad("expected integer between 0 and 9 (in item 0)"))
    );
    assert_eq!(
        t.to_json((3, "abc".to_string())),
        Err(bad("expected string with length <= 2 (in item 1)"))
    );
    assert_eq!(
        t.from_json(&Json::Array(vec![Json::Int(3), text("ab")])),
        Ok((3, "ab".to_string()))
    );
    assert_eq!(
        t.from_json(&Json::Array(vec![Json::Int(3), Json::Int(4)])),
        Err(bad("expected string with length <= 2 (in item 1)"))
    );
    assert_eq!(
        t.from_json(&Json::Array(vec![Json::Int(3)])),
        Err(bad("expected array with 2 elements"))
    );
    assert_eq!(t.from_json(&Json::Null), Err(bad("expected array with 2 elements")));
    assert_eq!(
        described(&t),
        "{\"members\":[{\"max\":9,\"min\":0,\"type\":\"int\"},{\"maxchars\":2,\"type\":\"string\"}],\"type\":\"tuple\"}"
    );
}

#[test]
fn longer_tuples_work_alike() {
    let three = Tuple3(Bool, Bool, Null);
    assert_eq!(
        three.from_json(&Json::Array(vec![Json::Bool(true), Json::Bool(false), Json::Null])),
        Ok((true, false, ()))
    );
    assert_eq!(
        three.from_json(&Json::Array(vec![Json::Bool(true), Json::Bool(false), Json::Int(0)])),
        Err(bad("expected null (in item 2)"))
    );
    let four = Tuple4(Bool, Bool, Bool, Bool);
    assert_eq!(
        four.from_json(&Json::Array(vec![Json::Null])),
        Err(bad("expected array with 4 elements"))
    );
    let five = Tuple5(Bool, Bool, Bool, Bool, Int::new());
    assert_eq!(
        five.to_json((true, true, true, true, 9)),
        Ok(Json::Array(vec![
            Json::Bool(true),
            Json::Bool(true),
            Json::Bool(true),
            Json::Bool(true),
            Json::Int(9)
        ]))
    );
    let six = Tuple6(Bool, Bool, Bool, Bool, Bool, Int::new().max(0));
    assert_eq!(
        six.to_json((true, true, true, true, true, 1)),
        Err(bad("expected integer between -9223372036854775808 and 0 (in item 5)"))
    );
    assert_eq!(
        six.from_json(&Json::Array(vec![Json::Null; 5])),
        Err(bad("expected array with 6 elements"))
    );
}

#[test]
fn enum_accepts_a_name_or_its_integer() {
    let e = Enum::new().insert("PID", 0).insert("Ramp", 1).insert("OpenLoop", 10);
    assert_eq!(e.from_json(&text("PID")), Ok(0));
    assert_eq!(e.from_json(&Json::Int(0)), Ok(0));
    assert_eq!(e.from_json(&text("PID")), e.from_json(&Json::Int(0)));
    assert_eq!(e.from_json(&text("OpenLoop")), Ok(10));
    assert_eq!(e.from_json(&Json::Int(10)), Ok(10));
    assert_eq!(e.to_json(1), Ok(Json::Int(1)));
    assert_eq!(e.to_json(2), Err(bad("integer not an enum member")));
    assert_eq!(e.from_json(&Json::Int(2)), Err(bad("integer not an enum member")));
    assert_eq!(e.from_json(&text("pid")), Err(bad("string not an enum member")));
    assert_eq!(e.from_json(&Json::Null), Err(bad("expected string or integer")));
    assert_eq!(
        described(&e),
        "{\"members\":{\"OpenLoop\":10,\"PID\":0,\"Ramp\":1},\"type\":\"enum\"}"
    );
}

#[test]
fn enum_add_counts_the_members() {
    let e = Enum::new().add("a").add("b").add("c");
    assert_eq!(
        e.members,
        vec![("a".to_string(), 0), ("b".to_string(), 1), ("c".to_string(), 2)]
    );
    // binding a name again replaces its value
    let e = e.insert("b", 7).add("b");
    assert_eq!(
        e.members,
        vec![("a".to_string(), 0), ("b".to_string(), 3), ("c".to_string(), 2)]
    );
}

#[test]
fn declared_enums_number_their_variants() {
    let decls = vec![
        ("PID".to_string(), None),
        ("Ramp".to_string(), None),
        ("OpenLoop".to_string(), Some(10)),
        ("Off".to_string(), None),
    ];
    let t = EnumType::declare(&decls).unwrap();
    assert_eq!(
        t.variants,
        vec![
            ("PID".to_string(), 0),
            ("Ramp".to_string(), 1),
            ("OpenLoop".to_string(), 10),
            ("Off".to_string(), 11),
        ]
    );
    assert_eq!(t.to_json(2), Ok(Json::Int(10)));
    assert_eq!(t.from_json(&text("Off")), Ok(3));
    assert_eq!(t.from_json(&Json::Int(1)), Ok(1));
    assert_eq!(t.to_json(4), Err(bad("4 is not an enum member")));
    assert_eq!(t.from_json(&Json::Int(5)), Err(bad("5 is not an enum member")));
    assert_eq!(t.from_json(&text("Of\"f")), Err(bad("\"Of\\\"f\" is not an enum member")));
    assert_eq!(t.from_json(&Json::Bool(true)), Err(bad("expected string or integer")));
    let too_far = vec![("a".to_string(), Some(i64::MAX)), ("b".to_string(), None)];
    assert!(EnumType::declare(&too_far).is_none());
    assert!(EnumType::declare(&vec![]).unwrap().variants.is_empty());
}

#[test]
fn status_codes_have_their_integers() {
    let cases = [
        (StatusConst::Idle, 100, "Idle"),
        (StatusConst::Warn, 200, "Warn"),
        (StatusConst::Unstable, 250, "Unstable"),
        (StatusConst::Busy, 300, "Busy"),
        (StatusConst::Error, 400, "Error"),
        (StatusConst::Unknown, 500, "Unknown"),
    ];
    for (status, code, name) in cases {
        assert_eq!(status.code(), code);
        assert_eq!(StatusConst::from_code(code), Some(status));
        assert_eq!(StatusConst::from_name(name), Some(status));
        assert_eq!(StatusConstType.to_json(status), Ok(Json::Int(code)));
        assert_eq!(StatusConstType.from_json(&Json::Int(code)), Ok(status));
        assert_eq!(StatusConstType.from_json(&text(name)), Ok(status));
    }
    assert_eq!(StatusConst::default(), StatusConst::Idle);
    assert_eq!(StatusConst::from_code(150), None);
    assert_eq!(
        StatusConstType.from_json(&Json::Int(150)),
        Err(bad("150 is not an enum member"))
    );
    assert_eq!(
        StatusConstType.from_json(&text("idle")),
        Err(bad("\"idle\" is not an enum member"))
    );
    assert_eq!(
        described(&StatusConstType),
        "{\"members\":{\"Busy\":300,\"Error\":400,\"Idle\":100,\"Unknown\":500,\"Unstable\":250,\"Warn\":200},\"type\":\"enum\"}"
    );
}

#[test]
fn a_status_is_a_code_and_a_text() {
    let t = status_type();
    assert_eq!(
        t.to_json((StatusConst::Busy, "ramping".to_string())),
        Ok(Json::Array(vec![Json::Int(300), text("ramping")]))
    );
    assert_eq!(
        t.from_json(&Json::Array(vec![text("Idle"), text("idle")])),
        Ok((StatusConst::Idle, "idle".to_string()))
    );
    assert_eq!(
        t.from_json(&Json::Array(vec![Json::Int(1), text("idle")])),
        Err(bad("1 is not an enum member (in item 0)"))
    );
}

#[test]
fn decoding_undoes_encoding() {
    let ints = Int::new().min(-3).max(3);
    for v in -3..=3 {
        assert_eq!(ints.from_json(&ints.to_json(v).unwrap()), Ok(v));
    }
    let blobs = Blob::new();
    for v in [vec![], vec![0u8], vec![255, 0, 17], (0..=255).collect::<Vec<u8>>()] {
        assert_eq!(blobs.from_json(&blobs.to_json(v.clone()).unwrap()), Ok(v));
    }
    let strs = Str::new();
    for v in ["", "a", "\u{e4}\u{1f600}"] {
        assert_eq!(strs.from_json(&strs.to_json(v.to_string()).unwrap()), Ok(v.to_string()));
    }
    let arrays = ArrayOf { minlen: 0, maxlen: 4, members: Tuple2(Bool, Int::new()) };
    let v = vec![(true, 1), (false, -1)];
    assert_eq!(arrays.from_json(&arrays.to_json(v.clone()).unwrap()), Ok(v));
}

#[test]
fn every_refusal_is_a_bad_value() {
    assert_eq!(Int::new().max(0).to_json(1).unwrap_err().kind(), ErrorKind::BadValue);
    assert_eq!(Str::new().from_json(&Json::Null).unwrap_err().kind(), ErrorKind::BadValue);
    assert_eq!(Blob::new().from_json(&Json::Null).unwrap_err().kind(), ErrorKind::BadValue);
    let arrays = ArrayOf { minlen: 0, maxlen: 1, members: Null };
    assert_eq!(arrays.to_json(vec![(), ()]).unwrap_err().kind(), ErrorKind::BadValue);
    assert_eq!(
        arrays.from_json(&Json::Array(vec![Json::Int(1)])).unwrap_err().kind(),
        ErrorKind::BadValue
    );
}
