use secop::client::{resolve, select_target, Address, Client, LocalClient, RemoteClient, Target};
use secop::errors::{Error, ErrorKind};
use secop::json::Json;
use secop::proto::{IncomingMsg, Msg};

fn local(addr: &str, counter: &mut u64) -> LocalClient {
    match Client::new(addr, counter) {
        Ok(Client::Local(c)) => c,
        other => panic!("unexpected {:?}", other),
    }
}

#[test]
fn a_bare_name_selects_a_module_of_this_node() {
    assert_eq!(resolve("cryo"), Ok(Target::Local { module: "cryo".to_string() }));
    assert_eq!(resolve("local:///cryo"), Ok(Target::Local { module: "cryo".to_string() }));
    assert_eq!(resolve("local://cryo"), Ok(Target::Local { module: "cryo".to_string() }));
}

#[test]
fn a_secop_address_selects_a_module_of_another_node() {
    assert_eq!(
        resolve("secop://example.org:1234/magnet"),
        Ok(Target::Remote {
            host: "example.org".to_string(),
            port: 1234,
            module: "magnet".to_string()
        })
    );
    assert_eq!(
        resolve("secop://example.org/magnet"),
        Ok(Target::Remote {
            host: "example.org".to_string(),
            port: 10767,
            module: "magnet".to_string()
        })
    );
}

#[test]
fn any_other_scheme_is_a_configuration_error() {
    let e = resolve("http://example.org/x").unwrap_err();
    assert_eq!(e.kind(), ErrorKind::Config);
    assert_eq!(e.message(), "invalid URI scheme: http");
    assert_eq!(e.description(), "InternalError");
    let e = resolve("http://[oops").unwrap_err();
    assert_eq!(e, Error::config("invalid address"));
}

#[test]
fn the_parts_of_an_address_select_the_target() {
    let address = Address {
        scheme: "secop".to_string(),
        domain: None,
        port: None,
        path: "/m".to_string(),
    };
    assert_eq!(
        select_target(address),
        Ok(Target::Remote { host: "localhost".to_string(), port: 10767, module: "m".to_string() })
    );
    let address = Address {
        scheme: "local".to_string(),
        domain: None,
        port: Some(1),
        path: "".to_string(),
    };
    assert_eq!(select_target(address), Ok(Target::Local { module: "".to_string() }));
}

#[test]
fn a_local_client_takes_the_next_connection_id() {
    let mut counter = 41;
    let c = local("cryo", &mut counter);
    assert_eq!(c.hid(), 41);
    assert_eq!(counter, 42);
    assert_eq!(c.quit(), (41, IncomingMsg(String::new(), Msg::Quit)));
    let c = LocalClient::new("magnet".to_string(), 3);
    assert_eq!(c.hid(), 3);
}

#[test]
fn there_is_no_remote_client_yet() {
    let mut counter = 41;
    let e = Client::new("secop://example.org/magnet", &mut counter).unwrap_err();
    assert_eq!(e, Error::config("remote client connection not yet implemented"));
    assert_eq!(counter, 41);
    assert_eq!(
        RemoteClient::new("h", 1, "m".to_string()).unwrap_err(),
        Error::config("remote client connection not yet implemented")
    );
    assert!(Client::new("ftp://x/y", &mut counter).is_err());
    assert_eq!(counter, 41);
}

#[test]
fn requests_name_the_module() {
    let c = LocalClient::new("cryo".to_string(), 3);
    assert_eq!(c.ping_request().1, Msg::Ping { token: "cryo".to_string() });
    assert_eq!(
        c.read_request("value").1,
        Msg::Read { module: "cryo".to_string(), param: "value".to_string() }
    );
    assert_eq!(
        c.change_request("target", Json::Int(3)).1,
        Msg::Change {
            module: "cryo".to_string(),
            param: "target".to_string(),
            value: Json::Int(3)
        }
    );
    assert_eq!(
        c.command_request("stop", Json::Null),
        IncomingMsg(
            String::new(),
            Msg::Do { module: "cryo".to_string(), command: "stop".to_string(), arg: Json::Null }
        )
    );
}

#[test]
fn replies_are_matched_against_the_request() {
    let c = LocalClient::new("cryo".to_string(), 3);
    let data = Json::Array(vec![Json::Int(1)]);
    let update =
        Msg::Update { module: "cryo".to_string(), param: "v".to_string(), data: data.clone() };
    let changed =
        Msg::Changed { module: "cryo".to_string(), param: "v".to_string(), data: data.clone() };
    let done =
        Msg::Done { module: "cryo".to_string(), command: "c".to_string(), data: data.clone() };
    assert_eq!(c.read(Some(update.clone())), Ok(data.clone()));
    assert_eq!(c.change(Some(changed.clone())), Ok(data.clone()));
    assert_eq!(c.command(Some(done.clone())), Ok(data.clone()));
    assert_eq!(
        c.read(Some(changed)),
        Err(Error::protocol("invalid reply message for read: changed cryo:v [1]"))
    );
    assert_eq!(
        c.change(Some(done)),
        Err(Error::protocol("invalid reply message for change: done cryo:c [1]"))
    );
    assert_eq!(
        c.command(Some(update)),
        Err(Error::protocol("invalid reply message for do: update cryo:v [1]"))
    );
    let timeout = Error::comm_failed("local module timed out");
    assert_eq!(c.read(None), Err(timeout.clone()));
    assert_eq!(c.change(None), Err(timeout.clone()));
    assert_eq!(c.command(None), Err(timeout.clone()));
    assert_eq!(c.ping(None), Err(timeout));
}

#[test]
fn a_pong_must_carry_the_module_name() {
    let c = LocalClient::new("cryo".to_string(), 3);
    assert_eq!(c.ping(Some(Msg::Pong { token: "cryo".to_string(), data: Json::Null })), Ok(()));
    assert_eq!(
        c.ping(Some(Msg::Pong { token: "other".to_string(), data: Json::Null })),
        Err(Error::protocol("invalid reply message for ping: pong other null"))
    );
    assert_eq!(
        c.ping(Some(Msg::Idn)),
        Err(Error::protocol("invalid reply message for ping: *IDN?"))
    );
}
