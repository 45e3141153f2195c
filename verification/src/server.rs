//! One client connection: the framing of its byte stream into lines, and
//! what becomes of each line.

use vstd::prelude::*;
use vstd::slice::slice_subrange;
use crate::config::{module_names, ServerConfig};
use crate::dispatcher::{Dispatcher, HandlerId};
use crate::json::{report, report_of, Json, JsonView, Timestamp};
use crate::proto::{ident_reply, parse_spec, IncomingMsg, Msg, MsgView, IDENT_REPLY};
use crate::text::{chars_of, string_of};

verus! {

/// The size of the buffer that a connection reads into.
pub const RECVBUF_LEN: usize = 4096;

/// The greatest length of a line that is not yet complete.
pub const MAX_MSG_LEN: usize = 1024 * 1024;

/// Gives out the next connection id and counts on.
pub fn next_handler_id(counter: &mut u64) -> (hid: HandlerId)
    requires
        0 < *old(counter) < u64::MAX,
    ensures
        hid == *old(counter),
        hid != 0,
        *final(counter) == *old(counter) + 1,
{
    let hid: u64 = *counter;
    *counter = hid + 1;
    hid
}

/// The index of the first `needle` in `haystack`.
///
/// Trusted: calls `memchr::memchr`; the contract says that the result is
/// the least index at which `needle` stands, or nothing where it stands
/// nowhere.
#[verifier::external_body]
fn first_byte(needle: u8, haystack: &[u8]) -> (r: Option<usize>)
    ensures
        match r {
            Some(i) => i < haystack@.len() && haystack@[i as int] == needle && forall|j: int|
                0 <= j < i ==> haystack@[j] != needle,
            None => forall|j: int| 0 <= j < haystack@.len() ==> haystack@[j] != needle,
        },
{
    memchr::memchr(needle, haystack)
}

/// The text that `String::from_utf8_lossy` makes of bytes: their text as
/// UTF-8, with U+FFFD in place of what is not UTF-8.
pub uninterp spec fn lossy_text_of(bytes: Seq<u8>) -> Seq<char>;

/// Turns bytes into text, whatever they are.
///
/// Trusted: calls `String::from_utf8_lossy` and takes the text as an owned
/// string; the contract gives the text the name `lossy_text_of`, a
/// function of the bytes alone.
#[verifier::external_body]
fn lossy_text(bytes: &[u8]) -> (r: String)
    ensures
        r@ == lossy_text_of(bytes@),
{
    String::from_utf8_lossy(bytes).into_owned()
}

/// The index of the first line feed in `bytes`, or the length of `bytes`
/// where there is none.
pub open spec fn line_end(bytes: Seq<u8>, from: int) -> int
    decreases bytes.len() - from,
{
    if 0 <= from < bytes.len() {
        if bytes[from] == 10u8 {
            from
        } else {
            line_end(bytes, from + 1)
        }
    } else {
        bytes.len() as int
    }
}

/// The complete lines in `bytes`, each without its line feed.
pub open spec fn lines_of(bytes: Seq<u8>) -> Seq<Seq<u8>>
    decreases bytes.len(),
{
    let k = line_end(bytes, 0);
    if 0 <= k < bytes.len() {
        seq![bytes.subrange(0, k)] + lines_of(bytes.subrange(k + 1, bytes.len() as int))
    } else {
        Seq::empty()
    }
}

/// What follows the last line feed in `bytes`: the start of a line that is
/// not yet complete.
pub open spec fn rest_of(bytes: Seq<u8>) -> Seq<u8>
    decreases bytes.len(),
{
    let k = line_end(bytes, 0);
    if 0 <= k < bytes.len() {
        rest_of(bytes.subrange(k + 1, bytes.len() as int))
    } else {
        bytes
    }
}

/// A text without the carriage returns at its end.
pub open spec fn trimmed(text: Seq<char>) -> Seq<char>
    decreases text.len(),
{
    if text.len() > 0 && text.last() == '\r' {
        trimmed(text.drop_last())
    } else {
        text
    }
}

/// The text of a line: its bytes as text, without the carriage returns at
/// its end.
pub open spec fn line_text(bytes: Seq<u8>) -> Seq<char> {
    trimmed(lossy_text_of(bytes))
}

proof fn lemma_line_end_is(bytes: Seq<u8>, from: int, at: int)
    requires
        0 <= from <= at <= bytes.len(),
        forall|j: int| from <= j < at ==> bytes[j] != 10u8,
        at < bytes.len() ==> bytes[at] == 10u8,
    ensures
        line_end(bytes, from) == at,
    decreases at - from,
{
    if from < at {
        lemma_line_end_is(bytes, from + 1, at);
    }
}

/// Removes the carriage returns at the end of a text.
pub fn trim_line(text: String) -> (r: String)
    ensures
        r@ == trimmed(text@),
{
    let chars = chars_of(text.as_str());
    let mut n: usize = chars.len();
    assert(chars@.subrange(0, n as int) =~= chars@);
    while n > 0 && chars[n - 1] == '\r'
        invariant
            n <= chars@.len(),
            trimmed(chars@) == trimmed(chars@.subrange(0, n as int)),
        decreases n,
    {
        assert(chars@.subrange(0, n as int).drop_last() =~= chars@.subrange(0, n - 1));
        n -= 1;
    }
    if n == chars.len() {
        text
    } else {
        let mut out: Vec<char> = Vec::new();
        let mut i: usize = 0;
        while i < n
            invariant
                i <= n <= chars@.len(),
                out@ == chars@.subrange(0, i as int),
            decreases n - i,
        {
            out.push(chars[i]);
            assert(chars@.subrange(0, i as int).push(chars@[i as int]) =~= chars@.subrange(
                0,
                i + 1,
            ));
            i += 1;
        }
        string_of(&out)
    }
}


/// What becomes of a line that a client sent.
#[derive(Debug, PartialEq)]
pub enum HandlerStep {
    /// The request goes to the dispatcher.
    Forward(IncomingMsg),
    /// The message goes back to the client at once.
    Reply(Msg),
    /// Nothing: the message is not one that a client may send.
    Ignore,
}

/// The mathematical value of a [`HandlerStep`].
pub enum HandlerStepView {
    Forward { line: Seq<char>, msg: MsgView },
    Reply { msg: MsgView },
    Ignore,
}

impl View for HandlerStep {
    type V = HandlerStepView;

    open spec fn view(&self) -> HandlerStepView {
        match self {
            HandlerStep::Forward(req) => HandlerStepView::Forward { line: req.0@, msg: req.1@ },
            HandlerStep::Reply(msg) => HandlerStepView::Reply { msg: msg@ },
            HandlerStep::Ignore => HandlerStepView::Ignore,
        }
    }
}

/// What becomes of a message that was parsed from `line`: requests for
/// modules and for the dispatcher are sent on; a ping is answered at once
/// with the time `now`, an identify request with the identify reply.
pub open spec fn message_step(line: Seq<char>, msg: MsgView, now: Timestamp) -> HandlerStepView {
    match msg {
        MsgView::Change { .. } => HandlerStepView::Forward { line, msg },
        MsgView::Do { .. } => HandlerStepView::Forward { line, msg },
        MsgView::Read { .. } => HandlerStepView::Forward { line, msg },
        MsgView::Describe => HandlerStepView::Forward { line, msg },
        MsgView::Activate { .. } => HandlerStepView::Forward { line, msg },
        MsgView::Deactivate { .. } => HandlerStepView::Forward { line, msg },
        MsgView::Ping { token } => HandlerStepView::Reply {
            msg: MsgView::Pong { token, data: report_of(JsonView::Null, now) },
        },
        MsgView::Idn => HandlerStepView::Reply { msg: MsgView::IdnReply { encoded: ident_reply() } },
        _ => HandlerStepView::Ignore,
    }
}

/// What becomes of a line: of the message that it parses to, or the
/// error reply goes back at once.
pub open spec fn line_step(line: Seq<char>, now: Timestamp) -> HandlerStepView {
    match parse_spec(line) {
        Ok(msg) => message_step(line, msg, now),
        Err(reply) => HandlerStepView::Reply { msg: reply },
    }
}

/// The views of a list of steps, item by item.
pub open spec fn steps_of(items: Seq<HandlerStep>) -> Seq<HandlerStepView> {
    Seq::new(items.len(), |i: int| items[i]@)
}

/// The steps for a list of lines.
pub open spec fn line_steps(lines: Seq<Seq<u8>>, now: Timestamp) -> Seq<HandlerStepView> {
    Seq::new(lines.len(), |i: int| line_step(line_text(lines[i]), now))
}

/// The node: its configuration.
pub struct Server {
    config: ServerConfig,
}

impl Server {
    pub fn new(config: ServerConfig) -> (r: Server)
        ensures
            r.config() == config,
    {
        Server { config }
    }

    /// The configuration of the node.
    pub closed spec fn config(&self) -> ServerConfig {
        self.config
    }

    /// The dispatcher for the node at its start: every configured module
    /// has its subscription set, and no connection is registered.
    pub fn dispatcher(&self) -> (r: Dispatcher)
        ensures
            r@.wf(),
            r@.description == self.config().description@,
            r@.equipment_id == self.config().equipment_id@,
            r@.handlers.len() == 0,
            r@.remaining == 0,
            r@.structures.len() == 0,
            forall|i: int| 0 <= i < r@.active.len() ==> (#[trigger] r@.active[i]).len() == 0,
            crate::sets::distinct_names(module_names(self.config().modules@)) ==> r@.modules
                == module_names(self.config().modules@),
            forall|k: int|
                0 <= k < self.config().modules@.len() ==> r@.module_index(
                    #[trigger] module_names(self.config().modules@)[k],
                ) < r@.modules.len(),
            forall|name: Seq<char>|
                r@.module_index(name) < r@.modules.len() ==> module_names(
                    self.config().modules@,
                ).contains(name),
    {
        let mut d = Dispatcher::new(
            self.config.description.clone(),
            self.config.equipment_id.clone(),
        );
        let ghost names = module_names(self.config.modules@);
        let mut i: usize = 0;
        while i < self.config.modules.len()
            invariant
                i <= self.config.modules@.len(),
                names == module_names(self.config.modules@),
                d@.wf(),
                d@.description == self.config.description@,
                d@.equipment_id == self.config.equipment_id@,
                d@.handlers.len() == 0,
                d@.remaining == 0,
                d@.structures.len() == 0,
                forall|i: int| 0 <= i < d@.active.len() ==> (#[trigger] d@.active[i]).len() == 0,
                crate::sets::distinct_names(names) ==> d@.modules == names.subrange(0, i as int),
                forall|k: int|
                    0 <= k < i ==> d@.module_index(#[trigger] names[k]) < d@.modules.len(),
                forall|name: Seq<char>|
                    d@.module_index(name) < d@.modules.len() ==> names.contains(name),
            decreases self.config.modules@.len() - i,
        {
            let ghost before = d@;
            let name = self.config.modules[i].0.clone();
            d.add_module(name);
            proof {
                assert(names[i as int] == name@);
                if crate::sets::distinct_names(names) {
                    let sofar = names.subrange(0, i as int);
                    assert forall|k: int| 0 <= k < sofar.len() implies sofar[k] != name@ by {
                        assert(sofar[k] == names[k]);
                    }
                    lemma_not_found(sofar, name@, 0);
                    assert(sofar.push(name@) =~= names.subrange(0, i + 1));
                }
                assert forall|other: Seq<char>|
                    before.module_index(other) < before.modules.len() implies d@.module_index(
                    other,
                ) < d@.modules.len() by {
                    crate::sets::lemma_name_position(before.modules, other, 0);
                    lemma_still_there(before.modules, name@, other);
                }
                assert forall|other: Seq<char>|
                    d@.module_index(other) < d@.modules.len() implies names.contains(other) by {
                    crate::sets::lemma_name_position(d@.modules, other, 0);
                    crate::sets::lemma_name_position(before.modules, other, 0);
                    if d@.modules != before.modules {
                        lemma_new_or_old(before.modules, name@, other);
                    }
                }
                crate::sets::lemma_name_position(d@.modules, name@, 0);
                crate::sets::lemma_name_position(before.modules, name@, 0);
                if d@.modules != before.modules {
                    lemma_found_at_end(before.modules, name@);
                }
            }
            i += 1;
        }
        assert(names.subrange(0, names.len() as int) =~= names);
        d
    }
}

proof fn lemma_not_found(modules: Seq<Seq<char>>, name: Seq<char>, from: int)
    requires
        0 <= from <= modules.len(),
        forall|k: int| from <= k < modules.len() ==> modules[k] != name,
    ensures
        crate::sets::name_position(modules, name, from) == modules.len(),
    decreases modules.len() - from,
{
    if from < modules.len() {
        lemma_not_found(modules, name, from + 1);
    }
}

proof fn lemma_still_there(modules: Seq<Seq<char>>, name: Seq<char>, other: Seq<char>)
    requires
        crate::sets::name_position(modules, other, 0) < modules.len(),
    ensures
        crate::sets::name_position(modules.push(name), other, 0) < modules.len(),
{
    crate::sets::lemma_name_position(modules, other, 0);
    let at = crate::sets::name_position(modules, other, 0);
    lemma_position_upto(modules.push(name), other, 0, at);
}

proof fn lemma_position_upto(modules: Seq<Seq<char>>, name: Seq<char>, from: int, at: int)
    requires
        0 <= from <= at < modules.len(),
        modules[at] == name,
    ensures
        crate::sets::name_position(modules, name, from) <= at,
    decreases at - from,
{
    if from < at && modules[from] != name {
        lemma_position_upto(modules, name, from + 1, at);
    }
}

proof fn lemma_found_at_end(modules: Seq<Seq<char>>, name: Seq<char>)
    ensures
        crate::sets::name_position(modules.push(name), name, 0) < modules.push(name).len(),
{
    lemma_position_upto(modules.push(name), name, 0, modules.len() as int);
}

proof fn lemma_new_or_old(modules: Seq<Seq<char>>, name: Seq<char>, other: Seq<char>)
    requires
        crate::sets::name_position(modules.push(name), other, 0) < modules.len() + 1,
    ensures
        other == name || crate::sets::name_position(modules, other, 0) < modules.len(),
{
    let longer = modules.push(name);
    crate::sets::lemma_name_position(longer, other, 0);
    let at = crate::sets::name_position(longer, other, 0);
    if at < modules.len() {
        assert(modules[at] == longer[at]);
        lemma_position_upto(modules, other, 0, at);
    }
}

/// A client connection: its id and the bytes of the line that is not yet
/// complete.
pub struct Handler {
    hid: HandlerId,
    buf: Vec<u8>,
}

/// What becomes of a message that came in with its line.
pub fn handle_msg(msg: IncomingMsg, now: &Timestamp) -> (r: HandlerStep)
    ensures
        r@ == message_step(msg.0@, msg.1@, *now),
{
    match &msg.1 {
        Msg::Change { .. } => HandlerStep::Forward(msg),
        Msg::Do { .. } => HandlerStep::Forward(msg),
        Msg::Read { .. } => HandlerStep::Forward(msg),
        Msg::Describe => HandlerStep::Forward(msg),
        Msg::Activate { .. } => HandlerStep::Forward(msg),
        Msg::Deactivate { .. } => HandlerStep::Forward(msg),
        Msg::Ping { token } => HandlerStep::Reply(
            Msg::Pong { token: token.clone(), data: report(Json::Null, now) },
        ),
        Msg::Idn => HandlerStep::Reply(Msg::IdnReply { encoded: IDENT_REPLY.to_string() }),
        _ => HandlerStep::Ignore,
    }
}

/// What becomes of a line.
pub fn process(line: String, now: &Timestamp) -> (r: HandlerStep)
    ensures
        r@ == line_step(line@, *now),
{
    match Msg::parse(line) {
        Ok(msg) => handle_msg(msg, now),
        Err(reply) => HandlerStep::Reply(reply),
    }
}

impl Handler {
    /// The id of the connection.
    pub closed spec fn id(&self) -> HandlerId {
        self.hid
    }

    /// The bytes of the line that is not yet complete.
    pub closed spec fn pending(&self) -> Seq<u8> {
        self.buf@
    }

    /// The handler of a new connection.
    pub fn new(hid: HandlerId) -> (r: Handler)
        ensures
            r.id() == hid,
            r.pending() == Seq::<u8>::empty(),
    {
        Handler { hid, buf: Vec::new() }
    }

    /// The id of the connection.
    pub fn hid(&self) -> (r: HandlerId)
        ensures
            r == self.id(),
    {
        self.hid
    }

    /// The request that tells the dispatcher that the connection is done.
    pub fn quit(&self) -> (r: (HandlerId, IncomingMsg))
        ensures
            r.0 == self.id(),
            r.1.0@ == Seq::<char>::empty(),
            r.1.1@ == MsgView::Quit,
    {
        (self.hid, IncomingMsg::bare(Msg::Quit))
    }

    /// Takes the bytes that were read from the client.  Every line that
    /// they complete is processed, in order; what follows the last line
    /// feed is kept.  The second result says whether the connection goes
    /// on: it ends where more bytes are kept than a line may have.
    pub fn handle(&mut self, chunk: &[u8], now: &Timestamp) -> (r: (Vec<HandlerStep>, bool))
        requires
            old(self).pending().len() + chunk@.len() <= usize::MAX,
        ensures
            final(self).id() == old(self).id(),
            final(self).pending() == rest_of(old(self).pending() + chunk@),
            steps_of(r.0@) == line_steps(lines_of(old(self).pending() + chunk@), *now),
            r.1 == (final(self).pending().len() <= MAX_MSG_LEN),
    {
        let ghost all = self.buf@ + chunk@;
        let mut i: usize = 0;
        while i < chunk.len()
            invariant
                i <= chunk@.len(),
                self.buf@ == old(self).buf@ + chunk@.subrange(0, i as int),
                self.hid == old(self).hid,
                old(self).buf@.len() + chunk@.len() <= usize::MAX,
            decreases chunk@.len() - i,
        {
            self.buf.push(chunk[i]);
            assert(old(self).buf@ + chunk@.subrange(0, i as int).push(chunk@[i as int]) =~= old(
                self,
            ).buf@ + chunk@.subrange(0, i + 1));
            assert(chunk@.subrange(0, i as int).push(chunk@[i as int]) =~= chunk@.subrange(
                0,
                i + 1,
            ));
            i += 1;
        }
        assert(chunk@.subrange(0, chunk@.len() as int) =~= chunk@);
        assert(self.buf@ == all);
        let n: usize = self.buf.len();
        let mut steps: Vec<HandlerStep> = Vec::new();
        let ghost mut done: Seq<Seq<u8>> = Seq::empty();
        let mut from: usize = 0;
        assert(all.subrange(0, n as int) =~= all);
        assert(steps_of(steps@) =~= line_steps(done, *now));
        loop
            invariant
                from <= n,
                n == all.len(),
                self.buf@ == all,
                self.hid == old(self).hid,
                lines_of(all) == done + lines_of(all.subrange(from as int, n as int)),
                rest_of(all) == rest_of(all.subrange(from as int, n as int)),
                steps_of(steps@) == line_steps(done, *now),
            ensures
                from <= n,
                self.buf@ == all,
                self.hid == old(self).hid,
                steps_of(steps@) == line_steps(lines_of(all), *now),
                rest_of(all) == all.subrange(from as int, n as int),
            decreases n - from,
        {
            let tail = slice_subrange(self.buf.as_slice(), from, n);
            let ghost rest = all.subrange(from as int, n as int);
            match first_byte(10u8, tail) {
                Some(to) => {
                    proof {
                        lemma_line_end_is(rest, 0, to as int);
                        assert(rest.subrange(to + 1, rest.len() as int) =~= all.subrange(
                            from + to + 1,
                            n as int,
                        ));
                    }
                    let line = trim_line(lossy_text(slice_subrange(tail, 0, to)));
                    let ghost before = steps@;
                    steps.push(process(line, now));
                    proof {
                        let segment = rest.subrange(0, to as int);
                        assert(steps_of(steps@) =~= steps_of(before).push(
                            line_step(line_text(segment), *now),
                        ));
                        assert(line_steps(done.push(segment), *now) =~= line_steps(
                            done,
                            *now,
                        ).push(line_step(line_text(segment), *now)));
                        assert(done + (seq![segment] + lines_of(
                            rest.subrange(to + 1, rest.len() as int),
                        )) =~= done.push(segment) + lines_of(
                            rest.subrange(to + 1, rest.len() as int),
                        ));
                        done = done.push(segment);
                    }
                    from = from + to + 1;
                },
                None => {
                    proof {
                        lemma_line_end_is(rest, 0, rest.len() as int);
                        assert(done + Seq::<Seq<u8>>::empty() =~= done);
                    }
                    break ;
                },
            }
        }
        let mut kept: Vec<u8> = Vec::new();
        let mut i: usize = from;
        while i < n
            invariant
                from <= i <= n,
                n == self.buf@.len(),
                kept@ == self.buf@.subrange(from as int, i as int),
            decreases n - i,
        {
            kept.push(self.buf[i]);
            assert(self.buf@.subrange(from as int, i as int).push(self.buf@[i as int])
                =~= self.buf@.subrange(from as int, i + 1));
            i += 1;
        }
        self.buf = kept;
        let goes_on = self.buf.len() <= MAX_MSG_LEN;
        (steps, goes_on)
    }
}

} // verus!
