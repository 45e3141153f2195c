use secop::errors::{Error, ErrorKind};
use secop::json::{Json, Timestamp};
use secop::proto::{assemble, build_message, IncomingMsg, Msg, IDENT_REPLY};
use secop::server::{process, HandlerStep};

fn number(text: &str) -> Json {
    Json::Real(text.parse::<serde_json::Number>().unwrap())
}

fn time_at(text: &str) -> Timestamp {
    Timestamp { seconds: text.parse::<serde_json::Number>().unwrap() }
}

fn parsed(line: &str) -> Msg {
    match Msg::parse(line.to_string()) {
        Ok(IncomingMsg(raw, msg)) => {
            assert_eq!(raw, line);
            msg
        }
        Err(reply) => panic!("refused: {}", reply.to_string()),
    }
}

fn refused(line: &str) -> Msg {
    match Msg::parse(line.to_string()) {
        Ok(IncomingMsg(_, msg)) => panic!("accepted: {}", msg.to_string()),
        Err(reply) => reply,
    }
}

fn report(value: Json, time: &str) -> Json {
    Json::Array(vec![value, Json::Object(vec![("t".to_string(), number(time))])])
}

#[test]
fn identification_is_answered_with_the_exact_bytes() {
    let step = process("*IDN?".to_string(), &time_at("1.5"));
    match step {
        HandlerStep::Reply(msg) => {
            assert_eq!(msg.to_string(), "SINE2020&ISSE,SECoP,V2018-11-07,v1.0\\beta");
            assert_eq!(msg.to_string().as_bytes()[36], b'\\');
        }
        other => panic!("unexpected {:?}", other),
    }
}

#[test]
fn identify_reply_constant_has_a_backslash() {
    assert_eq!(IDENT_REPLY, "SINE2020&ISSE,SECoP,V2018-11-07,v1.0\\beta");
    assert_eq!(IDENT_REPLY.len(), 41);
}

#[test]
fn ping_is_answered_with_a_pong_and_the_time() {
    let step = process("ping tok1".to_string(), &time_at("1234.5"));
    match step {
        HandlerStep::Reply(msg) => {
            assert_eq!(msg.to_string(), "pong tok1 [null,{\"t\":1234.5}]");
            assert_eq!(
                msg,
                Msg::Pong { token: "tok1".to_string(), data: report(Json::Null, "1234.5") }
            );
        }
        other => panic!("unexpected {:?}", other),
    }
}

#[test]
fn out_of_range_change_is_reported_as_bad_value() {
    let reply = Error::bad_value("expected double between 0 and 10")
        .into_msg("change mod:target 50".to_string());
    assert_eq!(
        reply.to_string(),
        "error BadValue [\"change mod:target 50\",\"expected double between 0 and 10\",{}]"
    );
}

#[test]
fn parse_reads_requests() {
    assert_eq!(
        parsed("read cryo:value"),
        Msg::Read { module: "cryo".to_string(), param: "value".to_string() }
    );
    assert_eq!(
        parsed("change cryo:target 50"),
        Msg::Change {
            module: "cryo".to_string(),
            param: "target".to_string(),
            value: Json::Int(50)
        }
    );
    assert_eq!(
        parsed("do cryo:stop"),
        Msg::Do { module: "cryo".to_string(), command: "stop".to_string(), arg: Json::Null }
    );
    assert_eq!(parsed("describe"), Msg::Describe);
    assert_eq!(parsed("activate"), Msg::Activate { module: "".to_string() });
    assert_eq!(parsed("activate cryo"), Msg::Activate { module: "cryo".to_string() });
    assert_eq!(parsed("activate cryo:value"), Msg::Activate { module: "cryo".to_string() });
    assert_eq!(parsed("deactivate cryo"), Msg::Deactivate { module: "cryo".to_string() });
    assert_eq!(parsed("ping"), Msg::Ping { token: "".to_string() });
    assert_eq!(parsed("ping a:b"), Msg::Ping { token: "a:b".to_string() });
    assert_eq!(parsed("*IDN?"), Msg::Idn);
}

#[test]
fn parse_reads_json_payloads() {
    let msg = parsed("update m:p [1,2.5,\"x\",{\"b\":null,\"a\":true},18446744073709551615,-3]");
    assert_eq!(
        msg,
        Msg::Update {
            module: "m".to_string(),
            param: "p".to_string(),
            data: Json::Array(vec![
                Json::Int(1),
                number("2.5"),
                Json::Str("x".to_string()),
                Json::Object(vec![
                    ("a".to_string(), Json::Bool(true)),
                    ("b".to_string(), Json::Null),
                ]),
                Json::UInt(18446744073709551615),
                Json::Int(-3),
            ]),
        }
    );
}

#[test]
fn parse_accepts_any_white_space_between_the_parts() {
    assert_eq!(
        parsed("read\tcryo:value"),
        Msg::Read { module: "cryo".to_string(), param: "value".to_string() }
    );
    assert_eq!(
        parsed("change\u{a0}m:p\u{2003}1"),
        Msg::Change { module: "m".to_string(), param: "p".to_string(), value: Json::Int(1) }
    );
}

#[test]
fn parse_refuses_an_unknown_verb() {
    assert_eq!(
        refused("frobnicate cryo"),
        Msg::ErrMsg {
            class: "ProtocolError".to_string(),
            report: Json::Array(vec![
                Json::Str("frobnicate cryo".to_string()),
                Json::Str("no such message type".to_string()),
                Json::Object(vec![]),
            ]),
        }
    );
}

#[test]
fn parse_refuses_a_missing_accessible() {
    let reply = refused("read cryo");
    assert_eq!(
        reply.to_string(),
        "error ProtocolError [\"read cryo\",\"missing parameter\",{}]"
    );
    assert_eq!(
        refused("change cryo 5").to_string(),
        "error ProtocolError [\"change cryo 5\",\"missing parameter\",{}]"
    );
}

#[test]
fn parse_refuses_bad_json() {
    assert_eq!(
        refused("change cryo:target {oops").to_string(),
        "error ProtocolError [\"change cryo:target {oops\",\"invalid JSON\",{}]"
    );
    // the JSON is read before the verb is looked at
    assert_eq!(
        refused("frobnicate x {oops").to_string(),
        "error ProtocolError [\"frobnicate x {oops\",\"invalid JSON\",{}]"
    );
    // an empty JSON text is no JSON
    assert_eq!(
        refused("update m:p ").to_string(),
        "error ProtocolError [\"update m:p \",\"invalid JSON\",{}]"
    );
}

#[test]
fn parse_refuses_what_has_not_the_shape_of_a_message() {
    for line in ["", " read x:y", "read  x:y", "read x:y\u{1}", "re!ad", "read x:y 1\n2"] {
        assert_eq!(
            refused(line),
            Error::protocol("invalid message format").into_msg(line.to_string())
        );
    }
}

#[test]
fn parse_knows_the_identify_reply() {
    assert_eq!(parsed(IDENT_REPLY), Msg::IdnReply { encoded: IDENT_REPLY.to_string() });
}

#[test]
fn format_writes_each_message() {
    let data = report(number("3.0"), "1000.0");
    assert_eq!(
        Msg::Update { module: "cryo".to_string(), param: "value".to_string(), data: data.clone() }
            .to_string(),
        "update cryo:value [3.0,{\"t\":1000.0}]"
    );
    assert_eq!(
        Msg::Changed { module: "cryo".to_string(), param: "value".to_string(), data: data.clone() }
            .to_string(),
        "changed cryo:value [3.0,{\"t\":1000.0}]"
    );
    assert_eq!(
        Msg::Done { module: "cryo".to_string(), command: "stop".to_string(), data }.to_string(),
        "done cryo:stop [3.0,{\"t\":1000.0}]"
    );
    assert_eq!(Msg::Active { module: "".to_string() }.to_string(), "active");
    assert_eq!(Msg::Active { module: "cryo".to_string() }.to_string(), "active cryo");
    assert_eq!(Msg::Inactive { module: "".to_string() }.to_string(), "inactive");
    assert_eq!(Msg::Inactive { module: "cryo".to_string() }.to_string(), "inactive cryo");
    assert_eq!(Msg::Idn.to_string(), "*IDN?");
    assert_eq!(Msg::Describe.to_string(), "describe");
    assert_eq!(Msg::Quit.to_string(), "<eof>");
    assert_eq!(
        Msg::InitUpdates { module: "m".to_string(), updates: vec![] }.to_string(),
        "<updates>"
    );
    assert_eq!(
        Msg::Describing {
            id: ".".to_string(),
            structure: Json::Object(vec![
                ("modules".to_string(), Json::Object(vec![])),
                ("description".to_string(), Json::Str("d".to_string())),
            ]),
        }
        .to_string(),
        "describing . {\"description\":\"d\",\"modules\":{}}"
    );
}

#[test]
fn parsing_undoes_formatting() {
    let data = report(Json::Array(vec![Json::Int(100), Json::Str("idle".to_string())]), "1001.0");
    let messages = vec![
        Msg::Update { module: "cryo".to_string(), param: "status".to_string(), data: data.clone() },
        Msg::Changed { module: "cryo".to_string(), param: "target".to_string(), data: data.clone() },
        Msg::Done { module: "cryo".to_string(), command: "stop".to_string(), data: data.clone() },
        Msg::Describing {
            id: ".".to_string(),
            structure: Json::Object(vec![("modules".to_string(), Json::Object(vec![]))]),
        },
        Msg::Active { module: "".to_string() },
        Msg::Active { module: "cryo".to_string() },
        Msg::Inactive { module: "".to_string() },
        Msg::Inactive { module: "cryo".to_string() },
        Msg::Pong { token: "tok1".to_string(), data: report(Json::Null, "12.25") },
        Error::no_module().into_msg("read nonsuch:value".to_string()),
        Msg::Idn,
        Msg::IdnReply { encoded: IDENT_REPLY.to_string() },
        Msg::Read { module: "cryo".to_string(), param: "value".to_string() },
        Msg::Change { module: "cryo".to_string(), param: "target".to_string(), value: number("0.5") },
        Msg::Do { module: "cryo".to_string(), command: "stop".to_string(), arg: Json::Null },
        Msg::Describe,
        Msg::Activate { module: "cryo".to_string() },
        Msg::Deactivate { module: "".to_string() },
        Msg::Ping { token: "".to_string() },
        Msg::Ping { token: "tok".to_string() },
    ];
    for m in messages {
        let line = m.to_string();
        assert_eq!(parsed(&line), m, "line {:?}", line);
    }
}

#[test]
fn build_message_takes_the_module_up_to_the_first_colon() {
    assert_eq!(
        build_message(&"update".to_string(), &"a:b:c".to_string(), Json::Int(1)),
        Ok(Msg::Update { module: "a".to_string(), param: "b:c".to_string(), data: Json::Int(1) })
    );
    assert_eq!(
        build_message(&"error".to_string(), &"BadValue".to_string(), Json::Null),
        Ok(Msg::ErrMsg { class: "BadValue".to_string(), report: Json::Null })
    );
    assert_eq!(
        build_message(&"done".to_string(), &"a".to_string(), Json::Null).unwrap_err().message(),
        "missing parameter"
    );
    let e = build_message(&"nothing".to_string(), &"a:b".to_string(), Json::Null).unwrap_err();
    assert_eq!(e.kind(), ErrorKind::Protocol);
    assert_eq!(e.message(), "no such message type");
}

#[test]
fn assemble_takes_null_where_there_is_no_json() {
    assert_eq!(
        assemble(&"pong".to_string(), &Some("t".to_string()), false, None),
        Ok(Msg::Pong { token: "t".to_string(), data: Json::Null })
    );
    assert_eq!(
        assemble(&"pong".to_string(), &Some("t".to_string()), true, None).unwrap_err().message(),
        "invalid JSON"
    );
    assert_eq!(
        assemble(&"describe".to_string(), &None, false, None),
        Ok(Msg::Describe)
    );
}
