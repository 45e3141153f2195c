//! The protocol messages, and the codec between a message and its line on
//! the wire.

use vstd::prelude::*;
use crate::errors::{Error, ErrorKind, ErrorView, error_reply};
use crate::json::{json_parse_of, json_text, json_text_of, parse_json, Json, JsonView};
use crate::grammar::{find, find_char, slice_string, split_line, split_spec, LineParts};
use crate::text::chars_of;

verus! {

/// A message of the protocol, or one of the two that only travel inside
/// the node.
#[derive(Debug, PartialEq)]
pub enum Msg {
    /// identify request
    Idn,
    /// identify reply
    IdnReply { encoded: String },
    /// description request
    Describe,
    /// description reply
    Describing { id: String, structure: Json },
    /// event enable request
    Activate { module: String },
    /// event enable reply
    Active { module: String },
    /// event disable request
    Deactivate { module: String },
    /// event disable reply
    Inactive { module: String },
    /// command execution request
    Do { module: String, command: String, arg: Json },
    /// command result
    Done { module: String, command: String, data: Json },
    /// change request
    Change { module: String, param: String, value: Json },
    /// change result
    Changed { module: String, param: String, data: Json },
    /// read request
    Read { module: String, param: String },
    /// heartbeat request
    Ping { token: String },
    /// heartbeat reply
    Pong { token: String, data: Json },
    /// error reply
    ErrMsg { class: String, report: Json },
    /// update event
    Update { module: String, param: String, data: Json },
    /// not a protocol message: the initial updates of one module
    InitUpdates { module: String, updates: Vec<Msg> },
    /// not a protocol message: the connection is done
    Quit,
}

/// The mathematical value of a [`Msg`].
pub enum MsgView {
    Idn,
    IdnReply { encoded: Seq<char> },
    Describe,
    Describing { id: Seq<char>, structure: JsonView },
    Activate { module: Seq<char> },
    Active { module: Seq<char> },
    Deactivate { module: Seq<char> },
    Inactive { module: Seq<char> },
    Do { module: Seq<char>, command: Seq<char>, arg: JsonView },
    Done { module: Seq<char>, command: Seq<char>, data: JsonView },
    Change { module: Seq<char>, param: Seq<char>, value: JsonView },
    Changed { module: Seq<char>, param: Seq<char>, data: JsonView },
    Read { module: Seq<char>, param: Seq<char> },
    Ping { token: Seq<char> },
    Pong { token: Seq<char>, data: JsonView },
    ErrMsg { class: Seq<char>, report: JsonView },
    Update { module: Seq<char>, param: Seq<char>, data: JsonView },
    InitUpdates { module: Seq<char>, updates: Seq<MsgView> },
    Quit,
}

impl View for Msg {
    type V = MsgView;

    open spec fn view(&self) -> MsgView
        decreases self,
    {
        match self {
            Msg::Idn => MsgView::Idn,
            Msg::IdnReply { encoded } => MsgView::IdnReply { encoded: encoded@ },
            Msg::Describe => MsgView::Describe,
            Msg::Describing { id, structure } => MsgView::Describing {
                id: id@,
                structure: structure@,
            },
            Msg::Activate { module } => MsgView::Activate { module: module@ },
            Msg::Active { module } => MsgView::Active { module: module@ },
            Msg::Deactivate { module } => MsgView::Deactivate { module: module@ },
            Msg::Inactive { module } => MsgView::Inactive { module: module@ },
            Msg::Do { module, command, arg } => MsgView::Do {
                module: module@,
                command: command@,
                arg: arg@,
            },
            Msg::Done { module, command, data } => MsgView::Done {
                module: module@,
                command: command@,
                data: data@,
            },
            Msg::Change { module, param, value } => MsgView::Change {
                module: module@,
                param: param@,
                value: value@,
            },
            Msg::Changed { module, param, data } => MsgView::Changed {
                module: module@,
                param: param@,
                data: data@,
            },
            Msg::Read { module, param } => MsgView::Read { module: module@, param: param@ },
            Msg::Ping { token } => MsgView::Ping { token: token@ },
            Msg::Pong { token, data } => MsgView::Pong { token: token@, data: data@ },
            Msg::ErrMsg { class, report } => MsgView::ErrMsg { class: class@, report: report@ },
            Msg::Update { module, param, data } => MsgView::Update {
                module: module@,
                param: param@,
                data: data@,
            },
            Msg::InitUpdates { module, updates } => MsgView::InitUpdates {
                module: module@,
                updates: Seq::new(
                    updates@.len(),
                    |i: int|
                        if 0 <= i < updates@.len() {
                            updates@[i]@
                        } else {
                            MsgView::Quit
                        },
                ),
            },
            Msg::Quit => MsgView::Quit,
        }
    }
}

/// The views of a sequence of messages, item by item.
pub open spec fn msg_views_of(items: Seq<Msg>) -> Seq<MsgView> {
    Seq::new(items.len(), |i: int| items[i]@)
}

/// The view of a batch of initial updates holds the views of its updates.
pub proof fn lemma_init_updates_view(module: String, updates: Vec<Msg>)
    ensures
        (Msg::InitUpdates { module, updates })@ == (MsgView::InitUpdates {
            module: module@,
            updates: msg_views_of(updates@),
        }),
{
    reveal_with_fuel(<Msg as View>::view, 2);
    let v = (Msg::InitUpdates { module, updates })@;
    assert(v is InitUpdates);
    assert(v->InitUpdates_updates.len() == updates@.len());
    assert(forall|k: int| 0 <= k < updates@.len() ==> v->InitUpdates_updates[k] == updates@[k]@);
    assert(v->InitUpdates_updates =~= msg_views_of(updates@));
}

impl Clone for Msg {
    #[verifier::loop_isolation(false)]
    fn clone(&self) -> (r: Msg)
        ensures
            r@ == self@,
        decreases self,
    {
        match self {
            Msg::Idn => Msg::Idn,
            Msg::IdnReply { encoded } => Msg::IdnReply { encoded: encoded.clone() },
            Msg::Describe => Msg::Describe,
            Msg::Describing { id, structure } => Msg::Describing {
                id: id.clone(),
                structure: structure.clone(),
            },
            Msg::Activate { module } => Msg::Activate { module: module.clone() },
            Msg::Active { module } => Msg::Active { module: module.clone() },
            Msg::Deactivate { module } => Msg::Deactivate { module: module.clone() },
            Msg::Inactive { module } => Msg::Inactive { module: module.clone() },
            Msg::Do { module, command, arg } => Msg::Do {
                module: module.clone(),
                command: command.clone(),
                arg: arg.clone(),
            },
            Msg::Done { module, command, data } => Msg::Done {
                module: module.clone(),
                command: command.clone(),
                data: data.clone(),
            },
            Msg::Change { module, param, value } => Msg::Change {
                module: module.clone(),
                param: param.clone(),
                value: value.clone(),
            },
            Msg::Changed { module, param, data } => Msg::Changed {
                module: module.clone(),
                param: param.clone(),
                data: data.clone(),
            },
            Msg::Read { module, param } => Msg::Read {
                module: module.clone(),
                param: param.clone(),
            },
            Msg::Ping { token } => Msg::Ping { token: token.clone() },
            Msg::Pong { token, data } => Msg::Pong { token: token.clone(), data: data.clone() },
            Msg::ErrMsg { class, report } => Msg::ErrMsg {
                class: class.clone(),
                report: report.clone(),
            },
            Msg::Update { module, param, data } => Msg::Update {
                module: module.clone(),
                param: param.clone(),
                data: data.clone(),
            },
            Msg::InitUpdates { module, updates } => {
                let mut out: Vec<Msg> = Vec::new();
                let mut i: usize = 0;
                while i < updates.len()
                    invariant
                        i <= updates.len(),
                        out@.len() == i,
                        forall|k: int| 0 <= k < i ==> out@[k]@ == updates@[k]@,
                    decreases updates.len() - i,
                {
                    let item = updates[i].clone();
                    out.push(item);
                    i += 1;
                }
                let name = module.clone();
                proof {
                    lemma_init_updates_view(name, out);
                    lemma_init_updates_view(*module, *updates);
                    assert(msg_views_of(out@) =~= msg_views_of(updates@));
                }
                Msg::InitUpdates { module: name, updates: out }
            },
            Msg::Quit => Msg::Quit,
        }
    }
}

/// A request together with the line it came in, which an error reply
/// quotes.
#[derive(Debug, PartialEq)]
pub struct IncomingMsg(pub String, pub Msg);

impl Clone for IncomingMsg {
    fn clone(&self) -> (r: IncomingMsg)
        ensures
            r.0@ == self.0@,
            r.1@ == self.1@,
    {
        IncomingMsg(self.0.clone(), self.1.clone())
    }
}

impl IncomingMsg {
    /// A message that did not come in a line, with an empty line.
    pub fn bare(msg: Msg) -> (r: IncomingMsg)
        ensures
            r.0@ == Seq::<char>::empty(),
            r.1 == msg,
    {
        IncomingMsg(String::new(), msg)
    }

    /// The line as it came in.
    pub fn to_string(&self) -> (r: String)
        ensures
            r@ == self.0@,
    {
        self.0.clone()
    }
}


/// The identify reply.
pub const IDENT_REPLY: &'static str = "SINE2020&ISSE,SECoP,V2018-11-07,v1.0\\beta";

/// The text of the identify reply.
pub open spec fn ident_reply() -> Seq<char> {
    "SINE2020&ISSE,SECoP,V2018-11-07,v1.0\\beta"@
}

/// `verb module:accessible`.
pub open spec fn addressed(verb: Seq<char>, module: Seq<char>, accessible: Seq<char>) -> Seq<char> {
    verb + " "@ + module + ":"@ + accessible
}

/// `verb module:accessible json`.
pub open spec fn addressed_with(
    verb: Seq<char>,
    module: Seq<char>,
    accessible: Seq<char>,
    data: JsonView,
) -> Seq<char> {
    addressed(verb, module, accessible) + " "@ + json_text_of(data)
}

/// `verb word`, or the verb alone where the word is empty.
pub open spec fn with_optional(verb: Seq<char>, word: Seq<char>) -> Seq<char> {
    if word.len() == 0 {
        verb
    } else {
        verb + " "@ + word
    }
}

/// `verb word json`.
pub open spec fn with_data(verb: Seq<char>, word: Seq<char>, data: JsonView) -> Seq<char> {
    verb + " "@ + word + " "@ + json_text_of(data)
}

/// The line of a message.
pub open spec fn format_spec(m: MsgView) -> Seq<char> {
    match m {
        MsgView::Update { module, param, data } => addressed_with(
            "update"@,
            module,
            param,
            data,
        ),
        MsgView::Changed { module, param, data } => addressed_with(
            "changed"@,
            module,
            param,
            data,
        ),
        MsgView::Done { module, command, data } => addressed_with(
            "done"@,
            module,
            command,
            data,
        ),
        MsgView::Describing { id, structure } => with_data("describing"@, id, structure),
        MsgView::Active { module } => with_optional("active"@, module),
        MsgView::Inactive { module } => with_optional("inactive"@, module),
        MsgView::Pong { token, data } => with_data("pong"@, token, data),
        MsgView::Idn => "*IDN?"@,
        MsgView::IdnReply { encoded } => encoded,
        MsgView::Read { module, param } => addressed("read"@, module, param),
        MsgView::Change { module, param, value } => addressed_with(
            "change"@,
            module,
            param,
            value,
        ),
        MsgView::Do { module, command, arg } => addressed_with("do"@, module, command, arg),
        MsgView::Describe => "describe"@,
        MsgView::Activate { module } => with_optional("activate"@, module),
        MsgView::Deactivate { module } => with_optional("deactivate"@, module),
        MsgView::Ping { token } => with_optional("ping"@, token),
        MsgView::ErrMsg { class, report } => with_data("error"@, class, report),
        MsgView::InitUpdates { .. } => "<updates>"@,
        MsgView::Quit => "<eof>"@,
    }
}

fn write_addressed(verb: &str, module: &String, accessible: &String) -> (r: String)
    ensures
        r@ == addressed(verb@, module@, accessible@),
{
    let mut out = verb.to_string();
    out.append(" ");
    out.append(module.as_str());
    out.append(":");
    out.append(accessible.as_str());
    out
}

fn write_addressed_with(verb: &str, module: &String, accessible: &String, data: &Json) -> (r:
    String)
    ensures
        r@ == addressed_with(verb@, module@, accessible@, data@),
{
    let mut out = write_addressed(verb, module, accessible);
    out.append(" ");
    let text = json_text(data);
    out.append(text.as_str());
    out
}

fn write_with_optional(verb: &str, word: &String) -> (r: String)
    ensures
        r@ == with_optional(verb@, word@),
{
    let mut out = verb.to_string();
    if word.as_str().unicode_len() != 0 {
        out.append(" ");
        out.append(word.as_str());
    }
    out
}

fn write_with_data(verb: &str, word: &String, data: &Json) -> (r: String)
    ensures
        r@ == with_data(verb@, word@, data@),
{
    let mut out = verb.to_string();
    out.append(" ");
    out.append(word.as_str());
    out.append(" ");
    let text = json_text(data);
    out.append(text.as_str());
    out
}

impl Msg {
    /// Writes the message as its line on the wire, without the line end.
    pub fn to_string(&self) -> (r: String)
        ensures
            r@ == format_spec(self@),
    {
        match self {
            Msg::Update { module, param, data } => write_addressed_with(
                "update",
                module,
                param,
                data,
            ),
            Msg::Changed { module, param, data } => write_addressed_with(
                "changed",
                module,
                param,
                data,
            ),
            Msg::Done { module, command, data } => write_addressed_with(
                "done",
                module,
                command,
                data,
            ),
            Msg::Describing { id, structure } => write_with_data("describing", id, structure),
            Msg::Active { module } => write_with_optional("active", module),
            Msg::Inactive { module } => write_with_optional("inactive", module),
            Msg::Pong { token, data } => write_with_data("pong", token, data),
            Msg::Idn => "*IDN?".to_string(),
            Msg::IdnReply { encoded } => encoded.clone(),
            Msg::Read { module, param } => write_addressed("read", module, param),
            Msg::Change { module, param, value } => write_addressed_with(
                "change",
                module,
                param,
                value,
            ),
            Msg::Do { module, command, arg } => write_addressed_with("do", module, command, arg),
            Msg::Describe => "describe".to_string(),
            Msg::Activate { module } => write_with_optional("activate", module),
            Msg::Deactivate { module } => write_with_optional("deactivate", module),
            Msg::Ping { token } => write_with_optional("ping", token),
            Msg::ErrMsg { class, report } => write_with_data("error", class, report),
            Msg::InitUpdates { .. } => "<updates>".to_string(),
            Msg::Quit => "<eof>".to_string(),
        }
    }
}


/// A protocol error with the given message.
pub open spec fn protocol_error(message: Seq<char>) -> ErrorView {
    ErrorView { kind: ErrorKind::Protocol, message }
}

/// The module part of a specifier: what stands before its first colon.
pub open spec fn module_of(specifier: Seq<char>) -> Seq<char> {
    specifier.subrange(0, find_char(specifier, ':', 0))
}

/// The accessible part of a specifier: what stands after its first colon,
/// or nothing where it has no colon.
pub open spec fn accessible_of(specifier: Seq<char>) -> Option<Seq<char>> {
    let k = find_char(specifier, ':', 0);
    if k < specifier.len() {
        Some(specifier.subrange(k + 1, specifier.len() as int))
    } else {
        None
    }
}

/// The message that a verb, a specifier and a JSON value stand for.
///
/// A verb that addresses an accessible needs a colon in the specifier; a
/// verb that is not one of the protocol's is refused.
pub open spec fn build_spec(verb: Seq<char>, specifier: Seq<char>, data: JsonView) -> Result<
    MsgView,
    ErrorView,
> {
    let module = module_of(specifier);
    let accessible = accessible_of(specifier);
    let missing = Err::<MsgView, ErrorView>(protocol_error("missing parameter"@));
    if verb == "read"@ {
        match accessible {
            Some(param) => Ok(MsgView::Read { module, param }),
            None => missing,
        }
    } else if verb == "change"@ {
        match accessible {
            Some(param) => Ok(MsgView::Change { module, param, value: data }),
            None => missing,
        }
    } else if verb == "do"@ {
        match accessible {
            Some(command) => Ok(MsgView::Do { module, command, arg: data }),
            None => missing,
        }
    } else if verb == "describe"@ {
        Ok(MsgView::Describe)
    } else if verb == "activate"@ {
        Ok(MsgView::Activate { module })
    } else if verb == "deactivate"@ {
        Ok(MsgView::Deactivate { module })
    } else if verb == "ping"@ {
        Ok(MsgView::Ping { token: specifier })
    } else if verb == "*IDN?"@ {
        Ok(MsgView::Idn)
    } else if verb == "update"@ {
        match accessible {
            Some(param) => Ok(MsgView::Update { module, param, data }),
            None => missing,
        }
    } else if verb == "changed"@ {
        match accessible {
            Some(param) => Ok(MsgView::Changed { module, param, data }),
            None => missing,
        }
    } else if verb == "done"@ {
        match accessible {
            Some(command) => Ok(MsgView::Done { module, command, data }),
            None => missing,
        }
    } else if verb == "describing"@ {
        Ok(MsgView::Describing { id: specifier, structure: data })
    } else if verb == "active"@ {
        Ok(MsgView::Active { module })
    } else if verb == "inactive"@ {
        Ok(MsgView::Inactive { module })
    } else if verb == "pong"@ {
        Ok(MsgView::Pong { token: specifier, data })
    } else if verb == "error"@ {
        Ok(MsgView::ErrMsg { class: specifier, report: data })
    } else {
        Err(protocol_error("no such message type"@))
    }
}

/// The specifier of a line, empty where the line has none.
pub open spec fn specifier_of(parts: LineParts) -> Seq<char> {
    match parts.specifier {
        Some(s) => s,
        None => Seq::empty(),
    }
}

/// What a line of split parts stands for, given what its JSON text reads as.
///
/// `data` is ignored where the line has no JSON text: the value is then
/// `null`.  A JSON text that does not read as a value is an error, whatever
/// the verb.
pub open spec fn assemble_spec(parts: LineParts, data: Option<JsonView>) -> Result<
    MsgView,
    ErrorView,
> {
    match parts.json {
        Some(_) => match data {
            Some(d) => build_spec(parts.verb, specifier_of(parts), d),
            None => Err(protocol_error("invalid JSON"@)),
        },
        None => build_spec(parts.verb, specifier_of(parts), JsonView::Null),
    }
}

/// What a line stands for: a message, or the error that refuses it.
pub open spec fn parse_inner_spec(line: Seq<char>) -> Result<MsgView, ErrorView> {
    match split_spec(line) {
        Some(parts) => assemble_spec(
            parts,
            match parts.json {
                Some(text) => json_parse_of(text),
                None => None,
            },
        ),
        None => if line == ident_reply() {
            Ok(MsgView::IdnReply { encoded: ident_reply() })
        } else {
            Err(protocol_error("invalid message format"@))
        },
    }
}

/// What parsing a line gives: the message, or the error reply that quotes
/// the line.
pub open spec fn parse_spec(line: Seq<char>) -> Result<MsgView, MsgView> {
    match parse_inner_spec(line) {
        Ok(m) => Ok(m),
        Err(e) => Err(error_reply(e, line)),
    }
}

fn same(a: &String, b: &str) -> (r: bool)
    ensures
        r == (a@ == b@),
{
    let other = b.to_string();
    *a == other
}

/// Builds the message for a verb, a specifier and a JSON value.
pub fn build_message(verb: &String, specifier: &String, data: Json) -> (r: Result<Msg, Error>)
    ensures
        match r {
            Ok(m) => build_spec(verb@, specifier@, data@) == Ok::<MsgView, ErrorView>(m@),
            Err(e) => build_spec(verb@, specifier@, data@) == Err::<MsgView, ErrorView>(e@),
        },
{
    let chars = chars_of(specifier.as_str());
    let k: usize = find(&chars, ':', 0);
    let module = slice_string(&chars, 0, k);
    let accessible: Option<String> = if k < chars.len() {
        Some(slice_string(&chars, k + 1, chars.len()))
    } else {
        None
    };
    if same(verb, "read") {
        match accessible {
            Some(param) => Ok(Msg::Read { module, param }),
            None => Err(Error::protocol("missing parameter")),
        }
    } else if same(verb, "change") {
        match accessible {
            Some(param) => Ok(Msg::Change { module, param, value: data }),
            None => Err(Error::protocol("missing parameter")),
        }
    } else if same(verb, "do") {
        match accessible {
            Some(command) => Ok(Msg::Do { module, command, arg: data }),
            None => Err(Error::protocol("missing parameter")),
        }
    } else if same(verb, "describe") {
        Ok(Msg::Describe)
    } else if same(verb, "activate") {
        Ok(Msg::Activate { module })
    } else if same(verb, "deactivate") {
        Ok(Msg::Deactivate { module })
    } else if same(verb, "ping") {
        Ok(Msg::Ping { token: specifier.clone() })
    } else if same(verb, "*IDN?") {
        Ok(Msg::Idn)
    } else if same(verb, "update") {
        match accessible {
            Some(param) => Ok(Msg::Update { module, param, data }),
            None => Err(Error::protocol("missing parameter")),
        }
    } else if same(verb, "changed") {
        match accessible {
            Some(param) => Ok(Msg::Changed { module, param, data }),
            None => Err(Error::protocol("missing parameter")),
        }
    } else if same(verb, "done") {
        match accessible {
            Some(command) => Ok(Msg::Done { module, command, data }),
            None => Err(Error::protocol("missing parameter")),
        }
    } else if same(verb, "describing") {
        Ok(Msg::Describing { id: specifier.clone(), structure: data })
    } else if same(verb, "active") {
        Ok(Msg::Active { module })
    } else if same(verb, "inactive") {
        Ok(Msg::Inactive { module })
    } else if same(verb, "pong") {
        Ok(Msg::Pong { token: specifier.clone(), data })
    } else if same(verb, "error") {
        Ok(Msg::ErrMsg { class: specifier.clone(), report: data })
    } else {
        Err(Error::protocol("no such message type"))
    }
}

/// Builds the message of a line from its parts and from what its JSON text
/// was read as.
pub fn assemble(verb: &String, specifier: &Option<String>, has_json: bool, data: Option<Json>) -> (r:
    Result<Msg, Error>)
    ensures
        ({
            let parts = LineParts {
                verb: verb@,
                specifier: match *specifier {
                    Some(s) => Some(s@),
                    None => None,
                },
                json: if has_json {
                    Some(Seq::<char>::empty())
                } else {
                    None
                },
            };
            let read = match data {
                Some(d) => Some(d@),
                None => None,
            };
            match r {
                Ok(m) => assemble_spec(parts, read) == Ok::<MsgView, ErrorView>(m@),
                Err(e) => assemble_spec(parts, read) == Err::<MsgView, ErrorView>(e@),
            }
        }),
{
    let empty = String::new();
    let spec: &String = match specifier {
        Some(s) => s,
        None => &empty,
    };
    if has_json {
        match data {
            Some(d) => build_message(verb, spec, d),
            None => Err(Error::protocol("invalid JSON")),
        }
    } else {
        build_message(verb, spec, Json::Null)
    }
}

impl Msg {
    /// Parses a line into a message.
    ///
    /// A line that is refused gives the error reply that quotes it.
    pub fn parse(msg: String) -> (r: Result<IncomingMsg, Msg>)
        ensures
            match r {
                Ok(incoming) => incoming.0@ == msg@ && parse_spec(msg@) == Ok::<MsgView, MsgView>(
                    incoming.1@,
                ),
                Err(reply) => parse_spec(msg@) == Err::<MsgView, MsgView>(reply@),
            },
    {
        match Self::parse_inner(msg.as_str()) {
            Ok(v) => Ok(IncomingMsg(msg, v)),
            Err(e) => Err(e.into_msg(msg)),
        }
    }

    fn parse_inner(msg: &str) -> (r: Result<Msg, Error>)
        ensures
            match r {
                Ok(m) => parse_inner_spec(msg@) == Ok::<MsgView, ErrorView>(m@),
                Err(e) => parse_inner_spec(msg@) == Err::<MsgView, ErrorView>(e@),
            },
    {
        match split_line(msg) {
            Some(parts) => {
                let data: Option<Json> = match &parts.json {
                    Some(text) => parse_json(text.as_str()),
                    None => None,
                };
                assemble(&parts.verb, &parts.specifier, parts.json.is_some(), data)
            },
            None => {
                if same(&msg.to_string(), IDENT_REPLY) {
                    Ok(Msg::IdnReply { encoded: IDENT_REPLY.to_string() })
                } else {
                    Err(Error::protocol("invalid message format"))
                }
            },
        }
    }
}

} // verus!
