//! The work of a module on one request, and the cache of a parameter.
//!
//! A module worker takes a request, does what the request asks of the
//! hardware, and answers.  What is asked and what is answered are decided
//! here; the hardware is the caller's.

use vstd::prelude::*;
use vstd::std_specs::cmp::PartialEqSpec;
use crate::config::Visibility;
use crate::errors::{error_reply, Error, ErrorView};
use crate::json::{report, report_of, Json, JsonView, Timestamp};
use crate::proto::{lemma_init_updates_view, msg_views_of, IncomingMsg, Msg, MsgView};
use crate::types::{json_result, TypeInfo};

verus! {

/// What a request asks a module to do.
#[derive(Debug, PartialEq)]
pub enum Step {
    /// Read a parameter.
    Read { param: String },
    /// Change a parameter.
    Change { param: String, value: Json },
    /// Execute a command.
    Do { command: String, arg: Json },
    /// Collect the current values of all parameters.
    Activate,
    /// Nothing: the message is not one for a module.
    Ignore,
}

/// The mathematical value of a [`Step`].
pub enum StepView {
    Read { param: Seq<char> },
    Change { param: Seq<char>, value: JsonView },
    Do { command: Seq<char>, arg: JsonView },
    Activate,
    Ignore,
}

impl View for Step {
    type V = StepView;

    open spec fn view(&self) -> StepView {
        match self {
            Step::Read { param } => StepView::Read { param: param@ },
            Step::Change { param, value } => StepView::Change { param: param@, value: value@ },
            Step::Do { command, arg } => StepView::Do { command: command@, arg: arg@ },
            Step::Activate => StepView::Activate,
            Step::Ignore => StepView::Ignore,
        }
    }
}

/// What a message asks a module to do.
pub open spec fn step_of(msg: MsgView) -> StepView {
    match msg {
        MsgView::Read { param, .. } => StepView::Read { param },
        MsgView::Change { param, value, .. } => StepView::Change { param, value },
        MsgView::Do { command, arg, .. } => StepView::Do { command, arg },
        MsgView::Activate { .. } => StepView::Activate,
        _ => StepView::Ignore,
    }
}

/// The answer to a request, given how the work went: the result of a read
/// as an `update`, of a change as `changed`, of a command as `done`, and an
/// error as the error reply that quotes the request.  Other messages get
/// no answer.
pub open spec fn answer_of(line: Seq<char>, msg: MsgView, result: Result<JsonView, ErrorView>)
    -> Option<MsgView> {
    match msg {
        MsgView::Read { module, param } => match result {
            Ok(data) => Some(MsgView::Update { module, param, data }),
            Err(e) => Some(error_reply(e, line)),
        },
        MsgView::Change { module, param, .. } => match result {
            Ok(data) => Some(MsgView::Changed { module, param, data }),
            Err(e) => Some(error_reply(e, line)),
        },
        MsgView::Do { module, command, .. } => match result {
            Ok(data) => Some(MsgView::Done { module, command, data }),
            Err(e) => Some(error_reply(e, line)),
        },
        _ => None,
    }
}

/// What a request asks the module to do.
pub fn step_for(msg: &Msg) -> (r: Step)
    ensures
        r@ == step_of(msg@),
{
    match msg {
        Msg::Read { param, .. } => Step::Read { param: param.clone() },
        Msg::Change { param, value, .. } => Step::Change {
            param: param.clone(),
            value: value.clone(),
        },
        Msg::Do { command, arg, .. } => Step::Do { command: command.clone(), arg: arg.clone() },
        Msg::Activate { .. } => Step::Activate,
        _ => Step::Ignore,
    }
}

/// The answer to a read, a change or a command, given how the work went.
pub fn answer(req: IncomingMsg, result: Result<Json, Error>) -> (r: Option<Msg>)
    ensures
        match r {
            Some(m) => answer_of(req.0@, req.1@, json_result(result)) == Some(m@),
            None => answer_of(req.0@, req.1@, json_result(result)) is None,
        },
{
    let IncomingMsg(line, msg) = req;
    match msg {
        Msg::Read { module, param } => match result {
            Ok(data) => Some(Msg::Update { module, param, data }),
            Err(e) => Some(e.into_msg(line)),
        },
        Msg::Change { module, param, value } => match result {
            Ok(data) => Some(Msg::Changed { module, param, data }),
            Err(e) => Some(e.into_msg(line)),
        },
        Msg::Do { module, command, arg } => match result {
            Ok(data) => Some(Msg::Done { module, command, data }),
            Err(e) => Some(e.into_msg(line)),
        },
        _ => None,
    }
}

/// The answer to an activation: the updates, under the module name that
/// the request gave.  Other messages get no answer.
pub fn activation_answer(req: &IncomingMsg, updates: Vec<Msg>) -> (r: Option<Msg>)
    ensures
        match req.1@ {
            MsgView::Activate { module } => r is Some && r->0@ == (MsgView::InitUpdates {
                module,
                updates: msg_views_of(updates@),
            }),
            _ => r is None,
        },
{
    match &req.1 {
        Msg::Activate { module } => {
            let name = module.clone();
            proof {
                lemma_init_updates_view(name, updates);
            }
            Some(Msg::InitUpdates { module: name, updates })
        },
        _ => None,
    }
}

/// The event that tells subscribers the value of a parameter.
pub fn update_event(module: &str, param: &str, value: Json, time: &Timestamp) -> (r: Msg)
    ensures
        r@ == (MsgView::Update { module: module@, param: param@, data: report_of(value@, *time) }),
{
    Msg::Update { module: module.to_string(), param: param.to_string(), data: report(value, time) }
}

/// What a read makes of a value that was taken into the cache at `time`:
/// the data of the reply, and the event for the subscribers if the value
/// changed.
pub fn read_outcome(module: &str, param: &str, value: Json, time: &Timestamp, changed: bool) -> (r:
    (Json, Option<Msg>))
    ensures
        r.0@ == report_of(value@, *time),
        match r.1 {
            Some(event) => changed && event@ == (MsgView::Update {
                module: module@,
                param: param@,
                data: report_of(value@, *time),
            }),
            None => !changed,
        },
{
    let event = if changed {
        Some(update_event(module, param, value.clone(), time))
    } else {
        None
    };
    (report(value, time), event)
}

/// The message by which a module tells the dispatcher how it is to be
/// described.  A module of visibility `none` is for internal use and
/// sends none.
pub fn describing_event(name: &str, visibility: Visibility, structure: Json) -> (r: Option<Msg>)
    ensures
        match r {
            Some(m) => visibility != Visibility::Hidden && m@ == (MsgView::Describing {
                id: name@,
                structure: structure@,
            }),
            None => visibility == Visibility::Hidden,
        },
{
    if visibility != Visibility::Hidden {
        Some(Msg::Describing { id: name.to_string(), structure })
    } else {
        None
    }
}

/// The cache of one parameter: its value, the time at which the value was
/// determined, and its type.
pub struct ModParam<I: TypeInfo> {
    data: I::Repr,
    time: Timestamp,
    /// The type of the parameter.
    pub info: I,
}

impl<I: TypeInfo> ModParam<I> {
    /// The cached value.
    pub closed spec fn value(&self) -> I::Repr {
        self.data
    }

    /// The time at which the cached value was determined.
    pub closed spec fn stamp(&self) -> Timestamp {
        self.time
    }

    /// The type of the parameter.
    pub closed spec fn descriptor(&self) -> I {
        self.info
    }

    /// A cache that holds `initial`, determined at `now`.
    pub fn new(info: I, initial: I::Repr, now: Timestamp) -> (r: Self)
        ensures
            r.value() == initial,
            r.stamp() == now,
            r.descriptor() == info,
    {
        Self { data: initial, time: now, info }
    }

    /// Puts a value into the cache.
    pub fn set(&mut self, value: I::Repr, now: Timestamp)
        ensures
            final(self).value() == value,
            final(self).stamp() == now,
            final(self).descriptor() == old(self).descriptor(),
    {
        self.time = now;
        self.data = value;
    }

    /// The time at which the cached value was determined.
    pub fn time(&self) -> (r: Timestamp)
        ensures
            r == self.stamp(),
    {
        self.time.clone()
    }

    /// A reference to the cached value.
    pub fn get(&self) -> (r: &I::Repr)
        ensures
            *r == self.value(),
    {
        &self.data
    }
}

impl<I: TypeInfo> ModParam<I> where I::Repr: PartialEq + Clone {
    /// Takes a newly determined value: the time of the cache is set to
    /// `now` in any case, and the value is put into the cache if it
    /// differs from the one that is there.  Returns the value as JSON, the
    /// time, and whether the value differed, in which case subscribers are
    /// to be told.
    pub fn update(&mut self, value: I::Repr, now: Timestamp) -> (r: Result<
        (Json, Timestamp, bool),
        Error,
    >)
        ensures
            final(self).stamp() == now,
            final(self).descriptor() == old(self).descriptor(),
            match r {
                Ok((json, time, is_update)) => {
                    &&& old(self).descriptor().encoded(value.deep_view()) == Ok::<JsonView, ErrorView>(
                        json@,
                    )
                    &&& time == now
                    &&& <I::Repr as PartialEqSpec>::obeys_eq_spec() ==> is_update
                        == !value.eq_spec(&old(self).value())
                    &&& is_update ==> cloned(value, final(self).value())
                    &&& !is_update ==> final(self).value() == old(self).value()
                },
                Err(e) => old(self).descriptor().encoded(value.deep_view()) == Err::<JsonView, ErrorView>(
                    e@,
                ),
            },
    {
        self.time = now;
        let is_update = if value != self.data {
            self.data = value.clone();
            true
        } else {
            false
        };
        match self.info.to_json(value) {
            Ok(json) => Ok((json, self.time.clone(), is_update)),
            Err(e) => Err(e),
        }
    }

    /// The cached value as JSON.
    pub fn to_json(&self) -> (r: Result<Json, Error>)
        ensures
            match r {
                Ok(json) => exists|copy: I::Repr|
                    cloned(self.value(), copy) && self.descriptor().encoded(copy.deep_view()) == Ok::<
                        JsonView,
                        ErrorView,
                    >(json@),
                Err(e) => exists|copy: I::Repr|
                    cloned(self.value(), copy) && self.descriptor().encoded(copy.deep_view()) == Err::<
                        JsonView,
                        ErrorView,
                    >(e@),
            },
    {
        let copy = self.data.clone();
        assert(cloned(self.value(), copy));
        self.info.to_json(copy)
    }

    /// The update that tells a newly activated connection the cached
    /// value, or nothing where the type refuses the value.
    pub fn activation_update(&self, module: &str, param: &str) -> (r: Option<Msg>)
        ensures
            match r {
                Some(m) => exists|copy: I::Repr|
                    cloned(self.value(), copy) && self.descriptor().encoded(copy.deep_view()) is Ok && m@
                        == (MsgView::Update {
                        module: module@,
                        param: param@,
                        data: report_of(self.descriptor().encoded(copy.deep_view())->Ok_0, self.stamp()),
                    }),
                None => exists|copy: I::Repr|
                    cloned(self.value(), copy) && self.descriptor().encoded(copy.deep_view()) is Err,
            },
    {
        let copy = self.data.clone();
        assert(cloned(self.value(), copy));
        match self.info.to_json(copy) {
            Ok(value) => Some(update_event(module, param, value, &self.time)),
            Err(_) => None,
        }
    }
}

} // verus!
