use secop::config::{ModuleConfig, ServerConfig, Visibility};
use secop::json::{Json, Timestamp};
use secop::proto::{IncomingMsg, Msg};
use secop::server::{
    handle_msg, next_handler_id, trim_line, Handler, HandlerStep, Server, MAX_MSG_LEN, RECVBUF_LEN,
};

fn now() -> Timestamp {
    Timestamp { seconds: "7.5".parse::<serde_json::Number>().unwrap() }
}

fn texts(steps: &[HandlerStep]) -> Vec<String> {
    steps
        .iter()
        .map(|s| match s {
            HandlerStep::Forward(req) => format!("forward {}", req.0),
            HandlerStep::Reply(msg) => format!("reply {}", msg.to_string()),
            HandlerStep::Ignore => "ignore".to_string(),
        })
        .collect()
}

#[test]
fn limits_are_as_documented() {
    assert_eq!(RECVBUF_LEN, 4096);
    assert_eq!(MAX_MSG_LEN, 1048576);
}

#[test]
fn handler_ids_count_up_from_the_counter() {
    let mut counter = 1;
    assert_eq!(next_handler_id(&mut counter), 1);
    assert_eq!(next_handler_id(&mut counter), 2);
    assert_eq!(next_handler_id(&mut counter), 3);
    assert_eq!(counter, 4);
}

#[test]
fn carriage_returns_at_the_end_are_trimmed() {
    assert_eq!(trim_line("ping\r".to_string()), "ping");
    assert_eq!(trim_line("ping\r\r".to_string()), "ping");
    assert_eq!(trim_line("pi\rng".to_string()), "pi\rng");
    assert_eq!(trim_line("\r".to_string()), "");
    assert_eq!(trim_line("".to_string()), "");
}

#[test]
fn lines_are_framed_across_chunks() {
    let mut h = Handler::new(5);
    assert_eq!(h.hid(), 5);
    let (steps, goes_on) = h.handle(b"read cryo:va", &now());
    assert!(steps.is_empty());
    assert!(goes_on);
    let (steps, goes_on) = h.handle(b"lue\r\nping x\n*IDN?\ndescr", &now());
    assert!(goes_on);
    assert_eq!(
        texts(&steps),
        vec![
            "forward read cryo:value",
            "reply pong x [null,{\"t\":7.5}]",
            "reply SINE2020&ISSE,SECoP,V2018-11-07,v1.0\\beta",
        ]
    );
    let (steps, _) = h.handle(b"ibe\n", &now());
    assert_eq!(texts(&steps), vec!["forward describe"]);
    let (steps, _) = h.handle(b"", &now());
    assert!(steps.is_empty());
}

#[test]
fn a_line_that_does_not_parse_is_answered_at_once() {
    let mut h = Handler::new(5);
    let (steps, _) = h.handle(b"bogus\n\nread x\n", &now());
    assert_eq!(
        texts(&steps),
        vec![
            "reply error ProtocolError [\"bogus\",\"no such message type\",{}]",
            "reply error ProtocolError [\"\",\"invalid message format\",{}]",
            "reply error ProtocolError [\"read x\",\"missing parameter\",{}]",
        ]
    );
}

#[test]
fn bytes_that_are_no_utf8_are_replaced() {
    let mut h = Handler::new(5);
    let (steps, _) = h.handle(b"ping a\xffb\n", &now());
    assert_eq!(
        steps,
        vec![HandlerStep::Reply(
            secop::errors::Error::protocol("invalid message format")
                .into_msg("ping a\u{fffd}b".to_string())
        )]
    );
}

#[test]
fn a_line_that_is_too_long_ends_the_connection() {
    let mut h = Handler::new(5);
    let chunk = vec![b'a'; MAX_MSG_LEN];
    let (steps, goes_on) = h.handle(&chunk, &now());
    assert!(steps.is_empty());
    assert!(goes_on);
    let (steps, goes_on) = h.handle(b"a", &now());
    assert!(steps.is_empty());
    assert!(!goes_on);
    // complete lines are still processed
    let mut h = Handler::new(6);
    let mut chunk = b"ping\n".to_vec();
    chunk.extend(vec![b'a'; MAX_MSG_LEN + 1]);
    let (steps, goes_on) = h.handle(&chunk, &now());
    assert_eq!(texts(&steps), vec!["reply pong  [null,{\"t\":7.5}]"]);
    assert!(!goes_on);
}

#[test]
fn the_end_of_a_connection_is_told_to_the_dispatcher() {
    let h = Handler::new(9);
    assert_eq!(h.quit(), (9, IncomingMsg(String::new(), Msg::Quit)));
}

#[test]
fn replies_are_not_requests() {
    let msg = IncomingMsg("active cryo".to_string(), Msg::Active { module: "cryo".to_string() });
    assert_eq!(handle_msg(msg, &now()), HandlerStep::Ignore);
    let msg = IncomingMsg(
        "deactivate".to_string(),
        Msg::Deactivate { module: "".to_string() },
    );
    assert_eq!(handle_msg(msg.clone(), &now()), HandlerStep::Forward(msg));
    let msg = IncomingMsg(
        "update a:b 1".to_string(),
        Msg::Update { module: "a".to_string(), param: "b".to_string(), data: Json::Int(1) },
    );
    assert_eq!(handle_msg(msg, &now()), HandlerStep::Ignore);
}

#[test]
fn the_dispatcher_of_a_node_knows_its_modules() {
    let module = ModuleConfig {
        class: "Cryo".to_string(),
        description: "".to_string(),
        group: None,
        parameters: vec![],
        visibility: Visibility::User,
    };
    let server = Server::new(ServerConfig {
        equipment_id: "demo".to_string(),
        description: "demo node".to_string(),
        modules: vec![("cryo".to_string(), module.clone()), ("magnet".to_string(), module)],
    });
    let mut d = server.dispatcher();
    d.connect(1);
    let read = |line: &str| Msg::parse(line.to_string()).unwrap();
    assert!(matches!(
        d.request(1, read("read cryo:value"))[0],
        secop::dispatcher::Action::Forward { .. }
    ));
    assert!(matches!(
        d.request(1, read("read magnet:value"))[0],
        secop::dispatcher::Action::Forward { .. }
    ));
    assert!(matches!(
        d.request(1, read("read other:value"))[0],
        secop::dispatcher::Action::Reply { .. }
    ));
    assert_eq!(
        d.request(1, read("describe"))[0],
        secop::dispatcher::Action::Reply {
            hid: 1,
            msg: Msg::Describing {
                id: ".".to_string(),
                structure: Json::Object(vec![
                    ("description".to_string(), Json::Str("demo node".to_string())),
                    ("equipment_id".to_string(), Json::Str("demo".to_string())),
                    ("firmware".to_string(), Json::Str("secop-rs".to_string())),
                    ("modules".to_string(), Json::Object(vec![])),
                ]),
            },
        }
    );
}
