use secop::config::{ModuleConfig, Visibility};
use secop::errors::ErrorKind;
use secop::json::Json;
use secop::module::{
    default_polling, init_action, ChangePlan, CommandDecl, DeclFault, InitAction, ParamDecl,
    ReadPlan,
};
use secop::proto::Msg;
use secop::table::ModuleTable;
use secop::types::{Int, Null, TypeInfo};

fn param(name: &str) -> ParamDecl {
    ParamDecl {
        name: name.to_string(),
        doc: format!("the {}", name),
        datainfo: Int::new().min(0).max(9).describe(),
        readonly: false,
        swonly: false,
        mandatory: false,
        has_default: false,
        polling: None,
        unit: String::new(),
        group: String::new(),
        visibility: "user".to_string(),
    }
}

fn command(name: &str) -> CommandDecl {
    CommandDecl {
        name: name.to_string(),
        doc: format!("do {}", name),
        argument: Null.describe(),
        result: Null.describe(),
        group: String::new(),
        visibility: "user".to_string(),
    }
}

fn table(params: Vec<ParamDecl>, commands: Vec<CommandDecl>) -> ModuleTable {
    ModuleTable { params, commands }
}

#[test]
fn the_first_value_of_a_parameter_follows_the_table() {
    // software only
    for readonly in [false, true] {
        for has_default in [false, true] {
            assert_eq!(init_action(true, readonly, true, has_default), InitAction::StoreConfig);
        }
        assert_eq!(init_action(true, readonly, false, false), InitAction::Fail);
    }
    assert_eq!(init_action(true, false, false, true), InitAction::StoreDefaultAndUpdate);
    assert_eq!(init_action(true, true, false, true), InitAction::StoreDefault);
    // hardware
    for has_default in [false, true] {
        assert_eq!(init_action(false, false, true, has_default), InitAction::ChangeConfig);
        for configured in [false, true] {
            assert_eq!(init_action(false, true, configured, has_default), InitAction::Read);
        }
    }
    assert_eq!(init_action(false, false, false, true), InitAction::ChangeDefault);
    assert_eq!(init_action(false, false, false, false), InitAction::Read);
}

#[test]
fn the_default_poll_period_depends_on_where_the_parameter_lives() {
    assert_eq!(default_polling(true), 0);
    assert_eq!(default_polling(false), 1);
    assert_eq!(param("a").effective_polling(), 1);
    assert_eq!(ParamDecl { swonly: true, ..param("a") }.effective_polling(), 0);
    assert_eq!(ParamDecl { polling: Some(-3), ..param("a") }.effective_polling(), -3);
}

#[test]
fn a_parameter_with_period_two_is_polled_every_second_tick() {
    let t = table(
        vec![
            ParamDecl { polling: Some(2), ..param("value") },
            ParamDecl { polling: Some(-3), ..param("slow") },
            ParamDecl { polling: Some(0), ..param("never") },
            param("every"),
        ],
        vec![],
    );
    let mut normal_idle = vec![];
    let mut normal_busy = vec![];
    let mut busy_idle = vec![];
    let mut busy_busy = vec![];
    for n in 0..7 {
        normal_idle.push(t.poll_normal(n, false));
        normal_busy.push(t.poll_normal(n, true));
        busy_idle.push(t.poll_busy(n, false));
        busy_busy.push(t.poll_busy(n, true));
    }
    assert_eq!(
        normal_idle,
        vec![vec![0, 3, 1], vec![3], vec![0, 3], vec![3, 1], vec![0, 3], vec![3], vec![0, 3, 1]]
    );
    assert_eq!(
        normal_busy,
        vec![vec![1], vec![], vec![], vec![1], vec![], vec![], vec![1]]
    );
    assert!(busy_idle.iter().all(|l| l.is_empty()));
    assert_eq!(
        busy_busy,
        vec![vec![0, 3], vec![3], vec![0, 3], vec![3], vec![0, 3], vec![3], vec![0, 3]]
    );
}

#[test]
fn the_extreme_poll_periods_do_not_overflow() {
    let t = table(
        vec![
            ParamDecl { polling: Some(i64::MIN), ..param("a") },
            ParamDecl { polling: Some(i64::MAX), ..param("b") },
        ],
        vec![],
    );
    assert_eq!(t.poll_normal(0, false), vec![1, 0]);
    assert_eq!(t.poll_normal(1, false), Vec::<usize>::new());
}

#[test]
fn parameters_are_initialised_written_first() {
    let t = table(
        vec![
            ParamDecl { readonly: true, ..param("value") },
            param("target"),
            ParamDecl { swonly: true, has_default: true, polling: None, ..param("ramp") },
            ParamDecl { readonly: true, ..param("status") },
            param("speed"),
            ParamDecl { swonly: true, readonly: true, mandatory: true, ..param("channel") },
        ],
        vec![],
    );
    assert_eq!(t.init_order(), vec![2, 5, 1, 4, 0, 3]);
}

#[test]
fn declarations_are_checked() {
    assert_eq!(table(vec![param("a"), param("b")], vec![command("c")]).check(), Ok(()));
    assert_eq!(table(vec![], vec![]).check(), Ok(()));
    let cases = vec![
        (vec![param("a"), param("A")], vec![], 1, DeclFault::NameNotUnique),
        (vec![param("stop")], vec![command("go"), command("Stop")], 2, DeclFault::NameNotUnique),
        (vec![], vec![command("x"), command("x")], 1, DeclFault::NameNotUnique),
        (
            vec![param("a"), ParamDecl { visibility: "all".to_string(), ..param("b") }],
            vec![],
            1,
            DeclFault::BadVisibility,
        ),
        (
            vec![param("a")],
            vec![CommandDecl { visibility: "".to_string(), ..command("x") }],
            1,
            DeclFault::BadVisibility,
        ),
        (
            vec![ParamDecl { swonly: true, has_default: true, polling: Some(1), ..param("a") }],
            vec![],
            0,
            DeclFault::PolledSoftwareOnly,
        ),
        (vec![ParamDecl { swonly: true, ..param("a") }], vec![], 0, DeclFault::NoDefault),
        (
            vec![ParamDecl { readonly: true, has_default: true, ..param("a") }],
            vec![],
            0,
            DeclFault::ReadonlyDefault,
        ),
        (
            vec![ParamDecl { readonly: true, mandatory: true, ..param("a") }],
            vec![],
            0,
            DeclFault::ReadonlyMandatory,
        ),
    ];
    for (params, commands, at, fault) in cases {
        assert_eq!(table(params, commands).check(), Err((at, fault)));
    }
    // a mandatory software-only parameter needs no default
    let ok = ParamDecl { swonly: true, mandatory: true, ..param("a") };
    assert_eq!(ok.check(), None);
}

#[test]
fn every_fault_has_its_message() {
    assert_eq!(DeclFault::NameNotUnique.message(), "param/cmd name is not unique");
    assert_eq!(DeclFault::BadVisibility.message(), "visibility is not an allowed value");
    assert_eq!(
        DeclFault::PolledSoftwareOnly.message(),
        "software-only parameters cannot be polled"
    );
    assert_eq!(
        DeclFault::NoDefault.message(),
        "software-only parameters must have a default if not mandatory"
    );
    assert_eq!(
        DeclFault::ReadonlyDefault.message(),
        "readonly hardware parameters cannot have a default"
    );
    assert_eq!(
        DeclFault::ReadonlyMandatory.message(),
        "readonly hardware parameters cannot be mandatory"
    );
}

#[test]
fn accessibles_are_found_by_name() {
    let t = table(vec![param("value"), param("target")], vec![command("stop")]);
    assert_eq!(t.find_param("target"), Ok(1));
    assert_eq!(t.find_param("Target").unwrap_err().kind(), ErrorKind::NoSuchParameter);
    assert_eq!(t.find_param("stop").unwrap_err().message(), "");
    assert_eq!(t.find_command("stop"), Ok(0));
    assert_eq!(t.find_command("value").unwrap_err().kind(), ErrorKind::NoSuchCommand);
}

#[test]
fn access_depends_on_the_declaration() {
    assert_eq!(param("a").read_plan(), ReadPlan::FromHardware);
    assert_eq!(ParamDecl { swonly: true, ..param("a") }.read_plan(), ReadPlan::FromCache);
    assert_eq!(param("a").change_plan(), Ok(ChangePlan::Hardware));
    assert_eq!(ParamDecl { swonly: true, ..param("a") }.change_plan(), Ok(ChangePlan::Cache));
    for swonly in [false, true] {
        let e = ParamDecl { swonly, readonly: true, ..param("a") }.change_plan().unwrap_err();
        assert_eq!(e.kind(), ErrorKind::ReadOnly);
        assert_eq!(e.message(), "");
    }
}

#[test]
fn a_module_describes_its_visible_accessibles() {
    let t = table(
        vec![
            ParamDecl { readonly: true, unit: "K".to_string(), ..param("value") },
            ParamDecl { visibility: "none".to_string(), ..param("secret") },
        ],
        vec![command("stop"), CommandDecl { visibility: "none".to_string(), ..command("reset") }],
    );
    let config = ModuleConfig {
        class: "Cryo".to_string(),
        description: "a cryostat".to_string(),
        group: None,
        parameters: vec![],
        visibility: Visibility::Advanced,
    };
    let line = Msg::Describing { id: "cryo".to_string(), structure: t.describe(&config) }.to_string();
    assert_eq!(
        line,
        "describing cryo {\"accessibles\":{\
         \"stop\":{\"datainfo\":{\"argument\":null,\"result\":null,\"type\":\"command\"},\
         \"description\":\"do stop\",\"group\":\"\",\"visibility\":\"user\"},\
         \"value\":{\"datainfo\":{\"max\":9,\"min\":0,\"type\":\"int\"},\
         \"description\":\"the value\",\"group\":\"\",\"readonly\":true,\"unit\":\"K\",\"visibility\":\"user\"}},\
         \"description\":\"a cryostat\",\"features\":[],\"group\":null,\
         \"interface_classes\":[\"Drivable\"],\"visibility\":\"advanced\"}"
    );
    let grouped = ModuleConfig { group: Some("g".to_string()), ..config };
    match table(vec![], vec![]).describe(&grouped) {
        Json::Object(members) => {
            assert_eq!(members[4], ("group".to_string(), Json::Str("g".to_string())));
            assert_eq!(members[5], ("accessibles".to_string(), Json::Object(vec![])));
        }
        other => panic!("unexpected {:?}", other),
    }
}

#[test]
fn the_configuration_decides_how_a_parameter_starts() {
    let t = table(
        vec![
            param("target"),
            ParamDecl { has_default: true, ..param("ramp") },
            ParamDecl { swonly: true, mandatory: true, readonly: true, ..param("iomod") },
        ],
        vec![],
    );
    let mut config = ModuleConfig {
        class: "X".to_string(),
        description: "".to_string(),
        group: None,
        parameters: vec![],
        visibility: Visibility::User,
    };
    assert_eq!(t.init_action_for(0, &config), InitAction::Read);
    assert_eq!(t.init_action_for(1, &config), InitAction::ChangeDefault);
    assert_eq!(t.init_action_for(2, &config), InitAction::Fail);
    config.parameters = vec![
        ("iomod".to_string(), Json::Str("tcp".to_string())),
        ("ramp".to_string(), Json::Int(1)),
        ("target".to_string(), Json::Int(2)),
    ];
    assert_eq!(t.init_action_for(0, &config), InitAction::ChangeConfig);
    assert_eq!(t.init_action_for(1, &config), InitAction::ChangeConfig);
    assert_eq!(t.init_action_for(2, &config), InitAction::StoreConfig);
}
