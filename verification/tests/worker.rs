use secop::config::Visibility;
use secop::errors::Error;
use secop::json::{report, Json, Timestamp};
use secop::proto::{IncomingMsg, Msg};
use secop::types::{Int, Str};
use secop::worker::{
    activation_answer, answer, describing_event, step_for, update_event, ModParam, Step,
};

fn time_at(text: &str) -> Timestamp {
    Timestamp { seconds: text.parse::<serde_json::Number>().unwrap() }
}

fn request(line: &str) -> IncomingMsg {
    Msg::parse(line.to_string()).unwrap()
}

#[test]
fn a_report_is_a_value_and_its_time() {
    assert_eq!(
        report(Json::Int(3), &time_at("1.5")),
        Json::Array(vec![
            Json::Int(3),
            Json::Object(vec![("t".to_string(), time_at("1.5").to_json())]),
        ])
    );
}

#[test]
fn a_request_says_what_to_do() {
    assert_eq!(step_for(&request("read m:p").1), Step::Read { param: "p".to_string() });
    assert_eq!(
        step_for(&request("change m:p 4").1),
        Step::Change { param: "p".to_string(), value: Json::Int(4) }
    );
    assert_eq!(
        step_for(&request("do m:c [1]").1),
        Step::Do { command: "c".to_string(), arg: Json::Array(vec![Json::Int(1)]) }
    );
    assert_eq!(step_for(&request("activate m").1), Step::Activate);
    assert_eq!(step_for(&request("describe").1), Step::Ignore);
    assert_eq!(step_for(&request("deactivate m").1), Step::Ignore);
    assert_eq!(step_for(&Msg::Quit), Step::Ignore);
}

#[test]
fn the_answer_names_what_was_asked() {
    let data = report(Json::Int(3), &time_at("1.5"));
    assert_eq!(
        answer(request("read m:p"), Ok(data.clone())),
        Some(Msg::Update { module: "m".to_string(), param: "p".to_string(), data: data.clone() })
    );
    assert_eq!(
        answer(request("change m:p 3"), Ok(data.clone())),
        Some(Msg::Changed { module: "m".to_string(), param: "p".to_string(), data: data.clone() })
    );
    assert_eq!(
        answer(request("do m:c"), Ok(data.clone())),
        Some(Msg::Done { module: "m".to_string(), command: "c".to_string(), data: data.clone() })
    );
    assert_eq!(answer(request("activate m"), Ok(data.clone())), None);
    assert_eq!(answer(request("describe"), Ok(data)), None);
}

#[test]
fn an_error_is_answered_with_the_request_quoted() {
    for line in ["read m:p", "change m:p 50", "do m:c"] {
        let reply = answer(request(line), Err(Error::no_param())).unwrap();
        assert_eq!(reply.to_string(), format!("error NoSuchParameter [\"{}\",\"\",{{}}]", line));
    }
    let reply = answer(
        request("change mod:target 50"),
        Err(Error::bad_value("expected double between 0 and 10")),
    );
    assert_eq!(
        reply.unwrap().to_string(),
        "error BadValue [\"change mod:target 50\",\"expected double between 0 and 10\",{}]"
    );
}

#[test]
fn an_activation_is_answered_with_the_updates() {
    let updates = vec![update_event("m", "p", Json::Int(1), &time_at("2.0"))];
    assert_eq!(
        activation_answer(&request("activate m"), updates.clone()),
        Some(Msg::InitUpdates { module: "m".to_string(), updates: updates.clone() })
    );
    assert_eq!(
        activation_answer(&request("activate"), vec![]),
        Some(Msg::InitUpdates { module: "".to_string(), updates: vec![] })
    );
    assert_eq!(activation_answer(&request("read m:p"), updates), None);
}

#[test]
fn an_update_event_carries_value_and_time() {
    assert_eq!(
        update_event("cryo", "value", Json::Int(3), &time_at("1000.0")).to_string(),
        "update cryo:value [3,{\"t\":1000.0}]"
    );
}

#[test]
fn a_hidden_module_is_not_described() {
    assert_eq!(describing_event("m", Visibility::Hidden, Json::Null), None);
    for v in [Visibility::User, Visibility::Advanced, Visibility::Expert] {
        assert_eq!(
            describing_event("m", v, Json::Int(1)),
            Some(Msg::Describing { id: "m".to_string(), structure: Json::Int(1) })
        );
    }
}

#[test]
fn the_cache_tells_whether_the_value_changed() {
    let mut p = ModParam::new(Int::new().min(0).max(9), 0, time_at("1.0"));
    assert_eq!(*p.get(), 0);
    assert_eq!(p.time(), time_at("1.0"));
    assert_eq!(p.update(3, time_at("2.0")), Ok((Json::Int(3), time_at("2.0"), true)));
    assert_eq!(*p.get(), 3);
    // the same value again: the time moves on, nothing is to be told
    assert_eq!(p.update(3, time_at("3.0")), Ok((Json::Int(3), time_at("3.0"), false)));
    assert_eq!(p.time(), time_at("3.0"));
    // a value that the type refuses is cached all the same
    assert_eq!(
        p.update(30, time_at("4.0")),
        Err(Error::bad_value("expected integer between 0 and 9"))
    );
    assert_eq!(*p.get(), 30);
    assert_eq!(p.time(), time_at("4.0"));
    assert!(p.to_json().is_err());
    assert_eq!(p.activation_update("m", "p"), None);
    p.set(5, time_at("5.0"));
    assert_eq!(p.to_json(), Ok(Json::Int(5)));
    assert_eq!(
        p.activation_update("m", "p").unwrap().to_string(),
        "update m:p [5,{\"t\":5.0}]"
    );
}

#[test]
fn the_cache_holds_any_type() {
    let mut p = ModParam::new(Str::new(), String::new(), time_at("1.0"));
    let (json, _, changed) = p.update("on".to_string(), time_at("2.0")).unwrap();
    assert_eq!(json, Json::Str("on".to_string()));
    assert!(changed);
    assert_eq!(p.info.maxchars, 1024);
}

#[test]
fn a_read_tells_the_subscribers_what_changed() {
    let time = time_at("9.0");
    let (data, event) = secop::worker::read_outcome("m", "p", Json::Int(4), &time, true);
    assert_eq!(data, report(Json::Int(4), &time));
    assert_eq!(event.unwrap().to_string(), "update m:p [4,{\"t\":9.0}]");
    let (data, event) = secop::worker::read_outcome("m", "p", Json::Int(4), &time, false);
    assert_eq!(data, report(Json::Int(4), &time));
    assert_eq!(event, None);
}
