//! The loopback client, by which one module talks to another module of
//! the same node: the address that selects it, the requests it sends and
//! what it makes of the replies.

use vstd::prelude::*;
use crate::dispatcher::HandlerId;
use crate::errors::{Error, ErrorKind, ErrorView};
use crate::json::{Json, JsonView};
use crate::proto::{format_spec, IncomingMsg, Msg, MsgView, protocol_error};
use crate::server::next_handler_id;
use crate::text::{chars_of, same_text, string_of};

verus! {

/// The parts of an address.
#[derive(Debug, PartialEq)]
pub struct Address {
    pub scheme: String,
    pub domain: Option<String>,
    pub port: Option<u16>,
    pub path: String,
}

/// The mathematical value of an [`Address`].
pub struct AddressView {
    pub scheme: Seq<char>,
    pub domain: Option<Seq<char>>,
    pub port: Option<u16>,
    pub path: Seq<char>,
}

impl View for Address {
    type V = AddressView;

    open spec fn view(&self) -> AddressView {
        AddressView {
            scheme: self.scheme@,
            domain: match self.domain {
                Some(d) => Some(d@),
                None => None,
            },
            port: self.port,
            path: self.path@,
        }
    }
}

/// The parts of the URL that the `url` crate reads from `addr`, taken
/// relative to `base`; nothing where either is not a URL.
pub uninterp spec fn address_of(base: Seq<char>, addr: Seq<char>) -> Option<AddressView>;

/// Reads an address as a URL relative to `base`.
///
/// Trusted: calls `Url::parse` on `base`, then `ParseOptions::parse` on
/// `addr` with that base, and hands out the scheme, the domain, the port
/// and the path of the result; the contract gives the outcome the name
/// `address_of`, a function of the two texts alone.
#[verifier::external_body]
fn parse_address(base: &str, addr: &str) -> (r: Option<Address>)
    ensures
        match r {
            Some(a) => address_of(base@, addr@) == Some(a@),
            None => address_of(base@, addr@) is None,
        },
{
    let base = url::Url::parse(base).ok()?;
    let uri = url::Url::options().base_url(Some(&base)).parse(addr).ok()?;
    Some(
        Address {
            scheme: uri.scheme().to_string(),
            domain: uri.domain().map(|d| d.to_string()),
            port: uri.port(),
            path: uri.path().to_string(),
        },
    )
}

/// What an address selects.
#[derive(Debug, PartialEq)]
pub enum Target {
    /// A module of this node.
    Local { module: String },
    /// A module of another node.
    Remote { host: String, port: u16, module: String },
}

/// The mathematical value of a [`Target`].
pub enum TargetView {
    Local { module: Seq<char> },
    Remote { host: Seq<char>, port: u16, module: Seq<char> },
}

impl View for Target {
    type V = TargetView;

    open spec fn view(&self) -> TargetView {
        match self {
            Target::Local { module } => TargetView::Local { module: module@ },
            Target::Remote { host, port, module } => TargetView::Remote {
                host: host@,
                port: *port,
                module: module@,
            },
        }
    }
}

/// A path without its first character.
pub open spec fn after_slash(path: Seq<char>) -> Seq<char> {
    if path.len() > 0 {
        path.subrange(1, path.len() as int)
    } else {
        path
    }
}

/// The module that a local address names: what follows the slash of its
/// path, or its domain where it has no path.
pub open spec fn local_module(a: AddressView) -> Seq<char> {
    if a.path.len() > 0 {
        after_slash(a.path)
    } else {
        match a.domain {
            Some(d) => d,
            None => Seq::empty(),
        }
    }
}

/// The message that refuses a scheme.
pub open spec fn scheme_message(scheme: Seq<char>) -> Seq<char> {
    "invalid URI scheme: "@ + scheme
}

/// What the parts of an address select: the scheme `local` a module of
/// this node, the scheme `secop` a module of the node at the host, which
/// is `localhost` where none is given, and the port, which is 10767 where
/// none is given.  Any other scheme is a configuration error.
pub open spec fn target_of(a: AddressView) -> Result<TargetView, ErrorView> {
    if a.scheme == "local"@ {
        Ok(TargetView::Local { module: local_module(a) })
    } else if a.scheme == "secop"@ {
        Ok(
            TargetView::Remote {
                host: match a.domain {
                    Some(d) => d,
                    None => "localhost"@,
                },
                port: match a.port {
                    Some(p) => p,
                    None => 10767u16,
                },
                module: after_slash(a.path),
            },
        )
    } else {
        Err(ErrorView { kind: ErrorKind::Config, message: scheme_message(a.scheme) })
    }
}

/// What a text selects, as an address relative to `local://`: what its
/// parts select, or a configuration error where it is no address.
pub open spec fn resolve_spec(addr: Seq<char>) -> Result<TargetView, ErrorView> {
    match address_of("local://"@, addr) {
        Some(a) => target_of(a),
        None => Err(ErrorView { kind: ErrorKind::Config, message: "invalid address"@ }),
    }
}

fn drop_first(text: &String) -> (r: String)
    ensures
        r@ == after_slash(text@),
{
    let chars = chars_of(text.as_str());
    if chars.len() == 0 {
        return text.clone();
    }
    let mut out: Vec<char> = Vec::new();
    let mut i: usize = 1;
    while i < chars.len()
        invariant
            1 <= i <= chars@.len(),
            out@ == chars@.subrange(1, i as int),
        decreases chars@.len() - i,
    {
        out.push(chars[i]);
        assert(chars@.subrange(1, i as int).push(chars@[i as int]) =~= chars@.subrange(1, i + 1));
        i += 1;
    }
    string_of(&out)
}

/// Selects what the parts of an address stand for.
pub fn select_target(address: Address) -> (r: Result<Target, Error>)
    ensures
        match r {
            Ok(t) => target_of(address@) == Ok::<TargetView, ErrorView>(t@),
            Err(e) => target_of(address@) == Err::<TargetView, ErrorView>(e@),
        },
{
    if same_text(address.scheme.as_str(), "local") {
        let module = if !address.path.as_str().is_empty() {
            drop_first(&address.path)
        } else {
            match address.domain {
                Some(d) => d,
                None => String::new(),
            }
        };
        Ok(Target::Local { module })
    } else if same_text(address.scheme.as_str(), "secop") {
        let host = match address.domain {
            Some(d) => d,
            None => "localhost".to_string(),
        };
        let port: u16 = match address.port {
            Some(p) => p,
            None => 10767,
        };
        Ok(Target::Remote { host, port, module: drop_first(&address.path) })
    } else {
        let mut message = "invalid URI scheme: ".to_string();
        message.append(address.scheme.as_str());
        Err(Error::new_owned(ErrorKind::Config, message))
    }
}

/// Selects what an address stands for.
pub fn resolve(addr: &str) -> (r: Result<Target, Error>)
    ensures
        match r {
            Ok(t) => resolve_spec(addr@) == Ok::<TargetView, ErrorView>(t@),
            Err(e) => resolve_spec(addr@) == Err::<TargetView, ErrorView>(e@),
        },
{
    match parse_address("local://", addr) {
        Some(address) => select_target(address),
        None => Err(Error::config("invalid address")),
    }
}

/// A client that sends its requests to a module of this node.
#[derive(Debug)]
pub struct LocalClient {
    hid: HandlerId,
    modname: String,
}

/// A client for a module of another node.  There is none yet.
#[derive(Debug)]
pub struct RemoteClient {
    modname: String,
}

/// A client for a module.
#[derive(Debug)]
pub enum Client {
    Local(LocalClient),
    Remote(RemoteClient),
}

/// The error of a reply that did not come in time.
pub open spec fn timed_out() -> ErrorView {
    ErrorView { kind: ErrorKind::CommunicationFailed, message: "local module timed out"@ }
}

/// The error of a reply that is of the wrong kind for a request.
pub open spec fn wrong_reply(what: Seq<char>, reply: MsgView) -> ErrorView {
    protocol_error("invalid reply message for "@ + what + ": "@ + format_spec(reply))
}

/// The data of the reply to a read, or the error.
pub open spec fn read_outcome(reply: Option<MsgView>) -> Result<JsonView, ErrorView> {
    match reply {
        None => Err(timed_out()),
        Some(MsgView::Update { data, .. }) => Ok(data),
        Some(msg) => Err(wrong_reply("read"@, msg)),
    }
}

/// The data of the reply to a change, or the error.
pub open spec fn change_outcome(reply: Option<MsgView>) -> Result<JsonView, ErrorView> {
    match reply {
        None => Err(timed_out()),
        Some(MsgView::Changed { data, .. }) => Ok(data),
        Some(msg) => Err(wrong_reply("change"@, msg)),
    }
}

/// The data of the reply to a command, or the error.
pub open spec fn command_outcome(reply: Option<MsgView>) -> Result<JsonView, ErrorView> {
    match reply {
        None => Err(timed_out()),
        Some(MsgView::Done { data, .. }) => Ok(data),
        Some(msg) => Err(wrong_reply("do"@, msg)),
    }
}

/// Whether the reply to a ping with the given token is in order, or the
/// error.
pub open spec fn ping_outcome(token: Seq<char>, reply: Option<MsgView>) -> Result<(), ErrorView> {
    match reply {
        None => Err(timed_out()),
        Some(msg) => if msg is Pong && msg->Pong_token == token {
            Ok(())
        } else {
            Err(wrong_reply("ping"@, msg))
        },
    }
}

fn wrong_reply_error(what: &str, reply: &Msg) -> (r: Error)
    ensures
        r@ == wrong_reply(what@, reply@),
{
    let mut message = "invalid reply message for ".to_string();
    message.append(what);
    message.append(": ");
    message.append(reply.to_string().as_str());
    Error::new_owned(ErrorKind::Protocol, message)
}

/// The views of the two outcomes of a request.
pub open spec fn outcome(r: Result<Json, Error>) -> Result<JsonView, ErrorView> {
    match r {
        Ok(j) => Ok(j@),
        Err(e) => Err(e@),
    }
}

/// The view of a reply that may not have come.
pub open spec fn reply_view(reply: Option<Msg>) -> Option<MsgView> {
    match reply {
        Some(m) => Some(m@),
        None => None,
    }
}

impl LocalClient {
    /// The id under which the client is registered with the dispatcher.
    pub closed spec fn id(&self) -> HandlerId {
        self.hid
    }

    /// The name of the module that the client talks to.
    pub closed spec fn module(&self) -> Seq<char> {
        self.modname@
    }

    /// A client for the module `modname` with the connection id `hid`.
    pub fn new(modname: String, hid: HandlerId) -> (r: Self)
        ensures
            r.id() == hid,
            r.module() == modname@,
    {
        Self { hid, modname }
    }

    /// The id under which the client is registered with the dispatcher.
    pub fn hid(&self) -> (r: HandlerId)
        ensures
            r == self.id(),
    {
        self.hid
    }

    /// The request that unregisters the client.
    pub fn quit(&self) -> (r: (HandlerId, IncomingMsg))
        ensures
            r.0 == self.id(),
            r.1.0@ == Seq::<char>::empty(),
            r.1.1@ == MsgView::Quit,
    {
        (self.hid, IncomingMsg::bare(Msg::Quit))
    }

    /// The request of a ping: its token is the module name.
    pub fn ping_request(&self) -> (r: IncomingMsg)
        ensures
            r.0@ == Seq::<char>::empty(),
            r.1@ == (MsgView::Ping { token: self.module() }),
    {
        IncomingMsg::bare(Msg::Ping { token: self.modname.clone() })
    }

    /// The request to read a parameter.
    pub fn read_request(&self, param: &str) -> (r: IncomingMsg)
        ensures
            r.0@ == Seq::<char>::empty(),
            r.1@ == (MsgView::Read { module: self.module(), param: param@ }),
    {
        IncomingMsg::bare(Msg::Read { module: self.modname.clone(), param: param.to_string() })
    }

    /// The request to change a parameter.
    pub fn change_request(&self, param: &str, value: Json) -> (r: IncomingMsg)
        ensures
            r.0@ == Seq::<char>::empty(),
            r.1@ == (MsgView::Change { module: self.module(), param: param@, value: value@ }),
    {
        IncomingMsg::bare(
            Msg::Change { module: self.modname.clone(), param: param.to_string(), value },
        )
    }

    /// The request to execute a command.
    pub fn command_request(&self, cmd: &str, arg: Json) -> (r: IncomingMsg)
        ensures
            r.0@ == Seq::<char>::empty(),
            r.1@ == (MsgView::Do { module: self.module(), command: cmd@, arg: arg@ }),
    {
        IncomingMsg::bare(Msg::Do { module: self.modname.clone(), command: cmd.to_string(), arg })
    }

    /// What the reply to a ping is worth; `None` stands for a reply that
    /// did not come in time.
    pub fn ping(&self, reply: Option<Msg>) -> (r: Result<(), Error>)
        ensures
            match r {
                Ok(_) => ping_outcome(self.module(), reply_view(reply)) is Ok,
                Err(e) => ping_outcome(self.module(), reply_view(reply)) == Err::<(), ErrorView>(
                    e@,
                ),
            },
    {
        match reply {
            None => Err(Error::comm_failed("local module timed out")),
            Some(msg) => {
                let fits = match &msg {
                    Msg::Pong { token, .. } => *token == self.modname,
                    _ => false,
                };
                if fits {
                    Ok(())
                } else {
                    Err(wrong_reply_error("ping", &msg))
                }
            },
        }
    }

    /// What the reply to a read is worth.
    pub fn read(&self, reply: Option<Msg>) -> (r: Result<Json, Error>)
        ensures
            outcome(r) == read_outcome(reply_view(reply)),
    {
        match reply {
            None => Err(Error::comm_failed("local module timed out")),
            Some(Msg::Update { data, .. }) => Ok(data),
            Some(msg) => Err(wrong_reply_error("read", &msg)),
        }
    }

    /// What the reply to a change is worth.
    pub fn change(&self, reply: Option<Msg>) -> (r: Result<Json, Error>)
        ensures
            outcome(r) == change_outcome(reply_view(reply)),
    {
        match reply {
            None => Err(Error::comm_failed("local module timed out")),
            Some(Msg::Changed { data, .. }) => Ok(data),
            Some(msg) => Err(wrong_reply_error("change", &msg)),
        }
    }

    /// What the reply to a command is worth.
    pub fn command(&self, reply: Option<Msg>) -> (r: Result<Json, Error>)
        ensures
            outcome(r) == command_outcome(reply_view(reply)),
    {
        match reply {
            None => Err(Error::comm_failed("local module timed out")),
            Some(Msg::Done { data, .. }) => Ok(data),
            Some(msg) => Err(wrong_reply_error("do", &msg)),
        }
    }
}

impl RemoteClient {
    /// There is no client for other nodes yet: a configuration error.
    pub fn new(_host: &str, _port: u16, _modname: String) -> (r: Result<Self, Error>)
        ensures
            r is Err,
            r->Err_0@ == (ErrorView {
                kind: ErrorKind::Config,
                message: "remote client connection not yet implemented"@,
            }),
    {
        Err(Error::config("remote client connection not yet implemented"))
    }
}

impl Client {
    /// What making a client for an address gives: a local client with the
    /// next connection id for a module of this node, and a configuration
    /// error for anything else.
    pub open spec fn new_spec(addr: Seq<char>, counter: u64) -> Result<(u64, Seq<char>), ErrorView> {
        match resolve_spec(addr) {
            Ok(TargetView::Local { module }) => Ok((counter, module)),
            Ok(TargetView::Remote { .. }) => Err(
                ErrorView {
                    kind: ErrorKind::Config,
                    message: "remote client connection not yet implemented"@,
                },
            ),
            Err(e) => Err(e),
        }
    }

    /// Makes the client for an address.  A local client takes the next
    /// connection id from `counter`.
    pub fn new(addr: &str, counter: &mut u64) -> (r: Result<Client, Error>)
        requires
            0 < *old(counter) < u64::MAX,
        ensures
            match r {
                Ok(Client::Local(c)) => Self::new_spec(addr@, *old(counter)) == Ok::<
                    (u64, Seq<char>),
                    ErrorView,
                >((c.id(), c.module())) && *final(counter) == *old(counter) + 1,
                Ok(Client::Remote(_)) => false,
                Err(e) => Self::new_spec(addr@, *old(counter)) == Err::<
                    (u64, Seq<char>),
                    ErrorView,
                >(e@) && *final(counter) == *old(counter),
            },
    {
        match resolve(addr) {
            Ok(Target::Local { module }) => {
                let hid = next_handler_id(counter);
                Ok(Client::Local(LocalClient::new(module, hid)))
            },
            Ok(Target::Remote { host, port, module }) => {
                match RemoteClient::new(host.as_str(), port, module) {
                    Ok(c) => Ok(Client::Remote(c)),
                    Err(e) => Err(e),
                }
            },
            Err(e) => Err(e),
        }
    }
}

} // verus!
