use secop::config::{default_visibility, ModuleConfig, ServerConfig, Visibility};
use secop::json::Json;
use secop::types::{Int, Str};

fn module(group: Option<&str>) -> ModuleConfig {
    ModuleConfig {
        class: "Cryo".to_string(),
        description: "".to_string(),
        group: group.map(|g| g.to_string()),
        parameters: vec![],
        visibility: Visibility::default(),
    }
}

fn node(modules: &[(&str, Option<&str>)]) -> ServerConfig {
    ServerConfig {
        equipment_id: "demo".to_string(),
        description: "".to_string(),
        modules: modules.iter().map(|(n, g)| (n.to_string(), module(*g))).collect(),
    }
}

#[test]
fn visibility_has_four_words() {
    let cases = [
        (Visibility::Hidden, "none"),
        (Visibility::User, "user"),
        (Visibility::Advanced, "advanced"),
        (Visibility::Expert, "expert"),
    ];
    for (v, word) in cases {
        assert_eq!(v.word(), word);
        assert_eq!(Visibility::parse(word), Some(v));
    }
    assert_eq!(Visibility::parse("User"), None);
    assert_eq!(Visibility::parse(""), None);
    assert_eq!(Visibility::default(), Visibility::User);
    assert_eq!(default_visibility(), "user");
}

#[test]
fn names_that_differ_in_case_only_are_refused() {
    assert_eq!(
        node(&[("MotorA", None), ("motora", None)]).check_names(),
        Err("module name motora is not unique amoung modules and groups".to_string())
    );
    assert_eq!(
        node(&[("a", None), ("b", None), ("B", None), ("A", None)]).check_names(),
        Err("module name B is not unique amoung modules and groups".to_string())
    );
}

#[test]
fn a_name_that_is_a_group_is_refused() {
    assert_eq!(
        node(&[("sensor1", None), ("t", Some("Sensor1"))]).check_names(),
        Err("module name sensor1 is not unique amoung modules and groups".to_string())
    );
    assert_eq!(
        node(&[("x", Some("X"))]).check_names(),
        Err("module name x is not unique amoung modules and groups".to_string())
    );
}

#[test]
fn names_that_differ_are_accepted() {
    assert_eq!(node(&[]).check_names(), Ok(()));
    assert_eq!(
        node(&[("cryo", Some("g")), ("magnet", Some("g")), ("motor_a", None)]).check_names(),
        Ok(())
    );
}

#[test]
fn configured_parameters_are_decoded_by_their_type() {
    let mut m = module(None);
    m.parameters = vec![
        ("channel".to_string(), Json::Int(2)),
        ("iomod".to_string(), Json::Str("tcp1".to_string())),
        ("channel".to_string(), Json::Int(9)),
    ];
    assert_eq!(m.parameter("channel"), Some(&Json::Int(2)));
    assert_eq!(m.parameter("none"), None);
    assert_eq!(m.extract_param("channel", &Int::new().min(1).max(2)), Some(2));
    assert_eq!(m.extract_param("channel", &Int::new().min(3)), None);
    assert_eq!(m.extract_param("iomod", &Str::new().maxchars(64)), Some("tcp1".to_string()));
    assert_eq!(m.extract_param("iomod", &Int::new()), None);
    assert_eq!(m.extract_param("other", &Int::new()), None);
}
