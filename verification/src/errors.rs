//! The errors of the protocol, and the class under which each is reported
//! on the wire.

use vstd::prelude::*;
use crate::json::{lemma_array_view, lemma_object_view, member_views_of, views_of, Json, JsonView};
use crate::proto::{Msg, MsgView};

verus! {

/// What went wrong.
#[derive(Debug, Clone, Copy, PartialEq, Eq, Structural)]
pub enum ErrorKind {
    Config,
    Programming,
    Parsing,
    Protocol,
    NoSuchModule,
    NoSuchParameter,
    NoSuchCommand,
    CommandFailed,
    CommandRunning,
    ReadOnly,
    BadValue,
    CommunicationFailed,
    Timeout,
    HardwareError,
    IsBusy,
    IsError,
    Disabled,
}

/// An error: its kind and a message for the reader.
#[derive(Debug, PartialEq)]
pub struct Error {
    kind: ErrorKind,
    message: String,
}

/// The mathematical value of an [`Error`].
pub struct ErrorView {
    pub kind: ErrorKind,
    pub message: Seq<char>,
}

impl View for Error {
    type V = ErrorView;

    closed spec fn view(&self) -> ErrorView {
        ErrorView { kind: self.kind, message: self.message@ }
    }
}

/// The class under which an error of the given kind is reported.
pub open spec fn wire_class(kind: ErrorKind) -> Seq<char> {
    match kind {
        ErrorKind::Config | ErrorKind::Programming | ErrorKind::Parsing => "InternalError"@,
        ErrorKind::Protocol => "ProtocolError"@,
        ErrorKind::NoSuchModule => "NoSuchModule"@,
        ErrorKind::NoSuchParameter => "NoSuchParameter"@,
        ErrorKind::NoSuchCommand => "NoSuchCommand"@,
        ErrorKind::CommandFailed => "CommandFailed"@,
        ErrorKind::CommandRunning => "CommandRunning"@,
        ErrorKind::ReadOnly => "ReadOnly"@,
        ErrorKind::BadValue => "BadValue"@,
        ErrorKind::CommunicationFailed | ErrorKind::Timeout | ErrorKind::HardwareError =>
            "CommunicationFailed"@,
        ErrorKind::IsBusy => "IsBusy"@,
        ErrorKind::IsError => "IsError"@,
        ErrorKind::Disabled => "Disabled"@,
    }
}

/// The message of an error after a note was added to it in parentheses.
pub open spec fn amended(message: Seq<char>, note: Seq<char>) -> Seq<char> {
    message + " ("@ + note + ")"@
}

/// The report `[line, message, {}]` of an error reply.
pub open spec fn error_report(line: Seq<char>, message: Seq<char>) -> JsonView {
    JsonView::Array(seq![JsonView::Str(line), JsonView::Str(message), JsonView::Object(seq![])])
}

/// The error reply for an error that the request `line` caused.
pub open spec fn error_reply(e: ErrorView, line: Seq<char>) -> MsgView {
    MsgView::ErrMsg { class: wire_class(e.kind), report: error_report(line, e.message) }
}

impl Error {
    pub fn new(kind: ErrorKind, msg: &str) -> (r: Self)
        ensures
            r@ == (ErrorView { kind, message: msg@ }),
    {
        Error { kind, message: msg.to_string() }
    }

    pub fn new_owned(kind: ErrorKind, msg: String) -> (r: Self)
        ensures
            r@ == (ErrorView { kind, message: msg@ }),
    {
        Error { kind, message: msg }
    }

    pub fn bad_value(msg: &str) -> (r: Self)
        ensures
            r@ == (ErrorView { kind: ErrorKind::BadValue, message: msg@ }),
    {
        Error { kind: ErrorKind::BadValue, message: msg.to_string() }
    }

    /// Adds a note in parentheses to the message, so that an error found
    /// deep inside a value says where.
    pub fn amend(self, msg: &str) -> (r: Self)
        ensures
            r@ == (ErrorView { kind: self@.kind, message: amended(self@.message, msg@) }),
    {
        let mut message = self.message;
        message.append(" (");
        message.append(msg);
        message.append(")");
        Error { kind: self.kind, message }
    }

    /// The error reply that quotes the request `msg` that caused this error.
    pub fn into_msg(self, msg: String) -> (r: Msg)
        ensures
            r@ == error_reply(self@, msg@),
    {
        let class = self.description().to_string();
        let mut report: Vec<Json> = Vec::new();
        report.push(Json::Str(msg));
        report.push(Json::Str(self.message));
        let members: Vec<(String, Json)> = Vec::new();
        report.push(Json::Object(members));
        proof {
            lemma_object_view(members);
            assert(member_views_of(members@) =~= seq![]);
            lemma_array_view(report);
            assert(views_of(report@) =~= seq![
                JsonView::Str(msg@),
                JsonView::Str(self.message@),
                JsonView::Object(seq![]),
            ]);
        }
        Msg::ErrMsg { class, report: Json::Array(report) }
    }

    pub fn config(msg: &str) -> (r: Self)
        ensures
            r@ == (ErrorView { kind: ErrorKind::Config, message: msg@ }),
    {
        Error { kind: ErrorKind::Config, message: msg.to_string() }
    }

    pub fn protocol(msg: &str) -> (r: Self)
        ensures
            r@ == (ErrorView { kind: ErrorKind::Protocol, message: msg@ }),
    {
        Error { kind: ErrorKind::Protocol, message: msg.to_string() }
    }

    pub fn no_module() -> (r: Self)
        ensures
            r@ == (ErrorView { kind: ErrorKind::NoSuchModule, message: Seq::empty() }),
    {
        Error { kind: ErrorKind::NoSuchModule, message: String::new() }
    }

    pub fn no_param() -> (r: Self)
        ensures
            r@ == (ErrorView { kind: ErrorKind::NoSuchParameter, message: Seq::empty() }),
    {
        Error { kind: ErrorKind::NoSuchParameter, message: String::new() }
    }

    pub fn no_command() -> (r: Self)
        ensures
            r@ == (ErrorView { kind: ErrorKind::NoSuchCommand, message: Seq::empty() }),
    {
        Error { kind: ErrorKind::NoSuchCommand, message: String::new() }
    }

    pub fn comm_failed(msg: &str) -> (r: Self)
        ensures
            r@ == (ErrorView { kind: ErrorKind::CommunicationFailed, message: msg@ }),
    {
        Error { kind: ErrorKind::CommunicationFailed, message: msg.to_string() }
    }

    pub fn kind(&self) -> (r: ErrorKind)
        ensures
            r == self@.kind,
    {
        self.kind
    }

    pub fn message(&self) -> (r: &String)
        ensures
            r@ == self@.message,
    {
        &self.message
    }

    /// The class of this error on the wire.
    pub fn description(&self) -> (r: &'static str)
        ensures
            r@ == wire_class(self@.kind),
    {
        match self.kind {
            ErrorKind::Config | ErrorKind::Programming | ErrorKind::Parsing => "InternalError",
            ErrorKind::Protocol => "ProtocolError",
            ErrorKind::NoSuchModule => "NoSuchModule",
            ErrorKind::NoSuchParameter => "NoSuchParameter",
            ErrorKind::NoSuchCommand => "NoSuchCommand",
            ErrorKind::CommandFailed => "CommandFailed",
            ErrorKind::CommandRunning => "CommandRunning",
            ErrorKind::ReadOnly => "ReadOnly",
            ErrorKind::BadValue => "BadValue",
            ErrorKind::CommunicationFailed => "CommunicationFailed",
            ErrorKind::Timeout => "CommunicationFailed",
            ErrorKind::HardwareError => "CommunicationFailed",
            ErrorKind::IsBusy => "IsBusy",
            ErrorKind::IsError => "IsError",
            ErrorKind::Disabled => "Disabled",
        }
    }

    /// The error as a line of text: its class, a colon and its message.
    pub fn to_string(&self) -> (r: String)
        ensures
            r@ == wire_class(self@.kind) + ": "@ + self@.message,
    {
        let mut out = self.description().to_string();
        out.append(": ");
        out.append(self.message.as_str());
        out
    }
}

impl Clone for Error {
    fn clone(&self) -> (r: Error)
        ensures
            r@ == self@,
    {
        Error { kind: self.kind, message: self.message.clone() }
    }
}

} // verus!
