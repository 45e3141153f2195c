use secop::dispatcher::{Action, Dispatcher};
use secop::errors::Error;
use secop::json::{Json, Timestamp};
use secop::proto::{IncomingMsg, Msg};
use secop::status::{status_type, StatusConst};
use secop::worker::{update_event, ModParam};

fn number(text: &str) -> serde_json::Number {
    text.parse::<serde_json::Number>().unwrap()
}

fn time_at(text: &str) -> Timestamp {
    Timestamp { seconds: number(text) }
}

fn request(line: &str) -> IncomingMsg {
    Msg::parse(line.to_string()).unwrap()
}

fn node(modules: &[&str]) -> Dispatcher {
    let mut d = Dispatcher::new("demo node".to_string(), "demo".to_string());
    for m in modules {
        assert!(d.add_module(m.to_string()));
    }
    d
}

fn lines(actions: &[Action]) -> Vec<(u64, String)> {
    actions
        .iter()
        .map(|a| match a {
            Action::Reply { hid, msg } => (*hid, msg.to_string()),
            Action::Forward { module, hid, req } => (*hid, format!("-> {}: {}", module, req.0)),
        })
        .collect()
}

fn update(module: &str, param: &str, value: i64) -> Msg {
    update_event(module, param, Json::Int(value), &time_at("5.0"))
}

#[test]
fn a_module_is_added_once() {
    let mut d = node(&["cryo"]);
    assert!(!d.add_module("cryo".to_string()));
    assert!(d.add_module("Cryo".to_string()));
}

#[test]
fn read_of_an_unknown_module_is_refused() {
    let mut d = node(&["cryo"]);
    d.connect(1);
    let out = d.request(1, request("read nonsuch:value"));
    assert_eq!(
        lines(&out),
        vec![(1, "error NoSuchModule [\"read nonsuch:value\",\"\",{}]".to_string())]
    );
    let out = d.request(1, request("change nonsuch:value 1"));
    assert_eq!(
        lines(&out),
        vec![(1, "error NoSuchModule [\"change nonsuch:value 1\",\"\",{}]".to_string())]
    );
    let out = d.request(1, request("do nonsuch:stop"));
    assert_eq!(out.len(), 1);
    let out = d.request(1, request("activate nonsuch"));
    assert_eq!(
        lines(&out),
        vec![(1, "error NoSuchModule [\"activate nonsuch\",\"\",{}]".to_string())]
    );
    let out = d.request(1, request("deactivate nonsuch"));
    assert_eq!(
        lines(&out),
        vec![(1, "error NoSuchModule [\"deactivate nonsuch\",\"\",{}]".to_string())]
    );
}

#[test]
fn requests_for_a_module_are_sent_on() {
    let mut d = node(&["cryo", "magnet"]);
    d.connect(7);
    for line in ["read cryo:value", "change cryo:target 3", "do magnet:stop", "activate magnet"] {
        let out = d.request(7, request(line));
        assert_eq!(out.len(), 1);
        match &out[0] {
            Action::Forward { module, hid, req } => {
                assert_eq!(*hid, 7);
                assert_eq!(req.0, line);
                assert!(line.contains(module.as_str()));
            }
            other => panic!("unexpected {:?}", other),
        }
    }
}

#[test]
fn a_connection_without_reply_channel_gets_nothing() {
    let mut d = node(&["cryo"]);
    assert!(d.request(9, request("read nonsuch:value")).is_empty());
    assert!(d.request(9, request("describe")).is_empty());
    assert!(d.reply(Some(9), update("cryo", "value", 1)).is_empty());
    // and does not become a subscriber
    let out = d.reply(Some(9), Msg::InitUpdates { module: "cryo".to_string(), updates: vec![] });
    assert!(out.is_empty());
    assert!(!d.is_subscribed(&"cryo".to_string(), 9));
}

#[test]
fn describe_gives_the_cached_description() {
    let mut d = node(&["cryo", "hidden"]);
    d.connect(1);
    let structure = Json::Object(vec![("description".to_string(), Json::Str("a cryo".to_string()))]);
    assert!(d
        .reply(None, Msg::Describing { id: "cryo".to_string(), structure })
        .is_empty());
    let out = d.request(1, request("describe"));
    assert_eq!(
        lines(&out),
        vec![(
            1,
            "describing . {\"description\":\"demo node\",\"equipment_id\":\"demo\",\"firmware\":\"secop-rs\",\"modules\":{\"cryo\":{\"description\":\"a cryo\"}}}"
                .to_string()
        )]
    );
    // a later description of the same module takes the place of the first
    let structure = Json::Object(vec![("description".to_string(), Json::Str("new".to_string()))]);
    d.reply(None, Msg::Describing { id: "cryo".to_string(), structure });
    let structure = Json::Object(vec![]);
    d.reply(None, Msg::Describing { id: "magnet".to_string(), structure });
    assert_eq!(
        d.descriptive(),
        Json::Object(vec![
            ("description".to_string(), Json::Str("demo node".to_string())),
            ("equipment_id".to_string(), Json::Str("demo".to_string())),
            ("firmware".to_string(), Json::Str("secop-rs".to_string())),
            (
                "modules".to_string(),
                Json::Object(vec![
                    (
                        "cryo".to_string(),
                        Json::Object(vec![(
                            "description".to_string(),
                            Json::Str("new".to_string())
                        )])
                    ),
                    ("magnet".to_string(), Json::Object(vec![])),
                ])
            ),
        ])
    );
}

#[test]
fn activation_sends_the_updates_before_the_acknowledgement() {
    let mut d = node(&["cryo"]);
    d.connect(1);
    let out = d.request(1, request("activate cryo"));
    assert_eq!(lines(&out), vec![(1, "-> cryo: activate cryo".to_string())]);
    assert!(!d.is_subscribed(&"cryo".to_string(), 1));

    let value = update_event(
        "cryo",
        "value",
        Json::Real(number("3.0")),
        &time_at("1000.0"),
    );
    let status = ModParam::new(
        status_type(),
        (StatusConst::Idle, "idle".to_string()),
        time_at("1001.0"),
    )
    .activation_update("cryo", "status")
    .unwrap();
    let out = d.reply(
        Some(1),
        Msg::InitUpdates { module: "cryo".to_string(), updates: vec![value, status] },
    );
    assert_eq!(
        lines(&out),
        vec![
            (1, "update cryo:value [3.0,{\"t\":1000.0}]".to_string()),
            (1, "update cryo:status [[100,\"idle\"],{\"t\":1001.0}]".to_string()),
            (1, "active cryo".to_string()),
        ]
    );
    assert!(d.is_subscribed(&"cryo".to_string(), 1));
}

#[test]
fn events_go_to_subscribers_only() {
    let mut d = node(&["cryo", "magnet"]);
    d.connect(1);
    d.connect(2);
    d.connect(3);
    d.reply(Some(1), Msg::InitUpdates { module: "cryo".to_string(), updates: vec![] });
    d.reply(Some(3), Msg::InitUpdates { module: "cryo".to_string(), updates: vec![] });
    d.reply(Some(2), Msg::InitUpdates { module: "magnet".to_string(), updates: vec![] });
    let out = d.reply(None, update("cryo", "value", 4));
    assert_eq!(
        lines(&out),
        vec![
            (1, "update cryo:value [4,{\"t\":5.0}]".to_string()),
            (3, "update cryo:value [4,{\"t\":5.0}]".to_string()),
        ]
    );
    let out = d.reply(None, update("magnet", "field", 4));
    assert_eq!(lines(&out), vec![(2, "update magnet:field [4,{\"t\":5.0}]".to_string())]);
    assert!(d.reply(None, update("nonsuch", "value", 4)).is_empty());
    // an activation of another connection tells the others nothing
    let out = d.reply(
        Some(2),
        Msg::InitUpdates { module: "cryo".to_string(), updates: vec![update("cryo", "value", 4)] },
    );
    assert!(out.iter().all(|a| matches!(a, Action::Reply { hid: 2, .. })));
    // events that are no updates are dropped
    assert!(d.reply(None, Msg::Active { module: "cryo".to_string() }).is_empty());
}

#[test]
fn a_reply_goes_to_the_connection_it_answers() {
    let mut d = node(&["cryo"]);
    d.connect(1);
    d.connect(2);
    let reply = Msg::Changed { module: "cryo".to_string(), param: "t".to_string(), data: Json::Null };
    let out = d.reply(Some(2), reply.clone());
    assert_eq!(out, vec![Action::Reply { hid: 2, msg: reply }]);
    let error = Error::bad_value("no").into_msg("change cryo:t 1".to_string());
    let out = d.reply(Some(1), error.clone());
    assert_eq!(out, vec![Action::Reply { hid: 1, msg: error }]);
}

#[test]
fn only_one_global_activation_at_a_time() {
    let mut d = node(&["cryo", "magnet"]);
    d.connect(1);
    let out = d.request(1, request("activate"));
    assert_eq!(
        lines(&out),
        vec![(1, "-> cryo: activate".to_string()), (1, "-> magnet: activate".to_string())]
    );
    assert!(d.is_activating());
    // the second one is refused at once
    let out = d.request(1, request("activate"));
    assert_eq!(
        lines(&out),
        vec![(1, "error ProtocolError [\"activate\",\"already activating\",{}]".to_string())]
    );
    // the first module answers: its updates only
    let out = d.reply(
        Some(1),
        Msg::InitUpdates { module: "".to_string(), updates: vec![update("cryo", "value", 1)] },
    );
    assert_eq!(lines(&out), vec![(1, "update cryo:value [1,{\"t\":5.0}]".to_string())]);
    assert!(d.is_activating());
    assert!(!d.is_subscribed(&"cryo".to_string(), 1));
    // the last module answers: its updates, then the acknowledgement
    let out = d.reply(
        Some(1),
        Msg::InitUpdates { module: "".to_string(), updates: vec![update("magnet", "field", 2)] },
    );
    assert_eq!(
        lines(&out),
        vec![
            (1, "update magnet:field [2,{\"t\":5.0}]".to_string()),
            (1, "active".to_string()),
        ]
    );
    assert!(!d.is_activating());
    assert!(d.is_subscribed(&"cryo".to_string(), 1));
    assert!(d.is_subscribed(&"magnet".to_string(), 1));
    // now a new one goes through
    let out = d.request(1, request("activate"));
    assert_eq!(out.len(), 2);
    assert!(d.is_activating());
}

#[test]
fn a_stray_answer_to_a_global_activation_changes_nothing() {
    let mut d = node(&["cryo"]);
    d.connect(1);
    let out = d.reply(
        Some(1),
        Msg::InitUpdates { module: "".to_string(), updates: vec![update("cryo", "value", 1)] },
    );
    assert_eq!(out.len(), 1);
    assert!(!d.is_activating());
    assert!(!d.is_subscribed(&"cryo".to_string(), 1));
}

#[test]
fn deactivation_is_done_at_once() {
    let mut d = node(&["cryo", "magnet"]);
    d.connect(1);
    d.reply(Some(1), Msg::InitUpdates { module: "cryo".to_string(), updates: vec![] });
    d.reply(Some(1), Msg::InitUpdates { module: "magnet".to_string(), updates: vec![] });
    let out = d.request(1, request("deactivate cryo"));
    assert_eq!(lines(&out), vec![(1, "inactive cryo".to_string())]);
    assert!(!d.is_subscribed(&"cryo".to_string(), 1));
    assert!(d.is_subscribed(&"magnet".to_string(), 1));
    d.reply(Some(1), Msg::InitUpdates { module: "cryo".to_string(), updates: vec![] });
    let out = d.request(1, request("deactivate"));
    assert_eq!(lines(&out), vec![(1, "inactive".to_string())]);
    assert!(!d.is_subscribed(&"cryo".to_string(), 1));
    assert!(!d.is_subscribed(&"magnet".to_string(), 1));
    assert!(d.reply(None, update("cryo", "value", 1)).is_empty());
}

#[test]
fn quit_removes_the_connection_everywhere() {
    let mut d = node(&["cryo"]);
    d.connect(1);
    d.connect(2);
    d.reply(Some(1), Msg::InitUpdates { module: "cryo".to_string(), updates: vec![] });
    d.reply(Some(2), Msg::InitUpdates { module: "cryo".to_string(), updates: vec![] });
    assert!(d.request(1, IncomingMsg::bare(Msg::Quit)).is_empty());
    assert!(!d.is_registered(1));
    assert!(d.is_registered(2));
    assert!(!d.is_subscribed(&"cryo".to_string(), 1));
    let out = d.reply(None, update("cryo", "value", 1));
    assert_eq!(lines(&out), vec![(2, "update cryo:value [1,{\"t\":5.0}]".to_string())]);
}

#[test]
fn messages_that_are_no_requests_are_dropped() {
    let mut d = node(&["cryo"]);
    d.connect(1);
    assert!(d.request(1, request("ping x")).is_empty());
    assert!(d.request(1, request("*IDN?")).is_empty());
    assert!(d.request(1, request("active cryo")).is_empty());
}
