use secop::comm::{find_eol, has_line, take_line};
use secop::json::{get_member, Json, Real, Timestamp};
use secop::text::{same_chars, same_text, to_lower};

#[test]
fn a_line_is_taken_up_to_the_end_of_line_sequence() {
    let eol = b"\r\n".to_vec();
    let mut buffer = b"MV1 3.5\r\nMV2".to_vec();
    assert!(has_line(&buffer, &eol));
    assert_eq!(find_eol(&buffer, &eol), 7);
    assert_eq!(take_line(&mut buffer, &eol), Some(b"MV1 3.5".to_vec()));
    assert_eq!(buffer, b"MV2".to_vec());
    assert!(!has_line(&buffer, &eol));
    assert_eq!(take_line(&mut buffer, &eol), None);
    assert_eq!(buffer, b"MV2".to_vec());
}

#[test]
fn half_an_end_of_line_sequence_is_no_line() {
    let eol = b"\r\n".to_vec();
    let mut buffer = b"a\rb\nc\r".to_vec();
    assert_eq!(find_eol(&buffer, &eol), buffer.len());
    assert_eq!(take_line(&mut buffer, &eol), None);
    buffer.push(b'\n');
    assert_eq!(take_line(&mut buffer, &eol), Some(b"a\rb\nc".to_vec()));
    assert!(buffer.is_empty());
    let mut empty = Vec::new();
    assert_eq!(take_line(&mut empty, &eol), None);
    let mut only = b"\n".to_vec();
    assert_eq!(take_line(&mut only, &b"\n".to_vec()), Some(vec![]));
}

#[test]
fn a_copy_of_a_value_is_the_same_value() {
    let number = "2.5e10".parse::<serde_json::Number>().unwrap();
    let value = Json::Array(vec![
        Json::Null,
        Json::Bool(true),
        Json::Int(-1),
        Json::UInt(u64::MAX),
        Json::Real(number.clone()),
        Json::Str("x".to_string()),
        Json::Object(vec![("k".to_string(), Json::Array(vec![]))]),
    ]);
    assert_eq!(value.clone(), value);
    let time = Timestamp { seconds: number.clone() };
    assert_eq!(time.clone(), time);
    assert_eq!(time.to_json(), Json::Real(number.clone()));
    let real = Real { number: number.clone() };
    assert_eq!(real.clone(), real);
    assert_eq!(real.to_json(), Json::Real(number));
}

#[test]
fn json_values_are_taken_apart() {
    assert!(Json::Null.is_null());
    assert!(!Json::Int(0).is_null());
    assert_eq!(Json::Bool(true).as_bool(), Some(true));
    assert_eq!(Json::Int(1).as_bool(), None);
    assert_eq!(Json::Int(7).as_i64(), Some(7));
    assert_eq!(Json::UInt(7).as_i64(), None);
    assert_eq!(Json::text("a").as_str(), Some(&"a".to_string()));
    assert_eq!(Json::Null.as_str(), None);
    assert_eq!(Json::array(vec![Json::Null]).as_array(), Some(&vec![Json::Null]));
    assert_eq!(Json::Null.as_array(), None);
    assert_eq!(Json::size(5), Json::Int(5));
    assert_eq!(Json::size(usize::MAX), Json::UInt(usize::MAX as u64));
    let members = vec![
        ("a".to_string(), Json::Int(1)),
        ("b".to_string(), Json::Int(2)),
        ("a".to_string(), Json::Int(3)),
    ];
    assert_eq!(get_member(&members, "a"), Some(&Json::Int(1)));
    assert_eq!(get_member(&members, "b"), Some(&Json::Int(2)));
    assert_eq!(get_member(&members, "c"), None);
    assert_eq!(Json::object(members.clone()).as_object(), Some(&members));
    assert_eq!(Json::Null.as_object(), None);
}

#[test]
fn names_are_compared_without_regard_to_ascii_case() {
    assert_eq!(to_lower("MotorA_1"), "motora_1".chars().collect::<Vec<char>>());
    assert_eq!(to_lower("\u{c4}b"), "\u{c4}b".chars().collect::<Vec<char>>());
    assert!(same_chars(&to_lower("ABC"), &to_lower("abc")));
    assert!(!same_chars(&to_lower("ABC"), &to_lower("abcd")));
    assert!(same_text("a", "a"));
    assert!(!same_text("a", "A"));
}
