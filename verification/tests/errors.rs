use secop::errors::{Error, ErrorKind};
use secop::text::{i64_text, usize_text};

#[test]
fn every_kind_has_its_wire_class() {
    let cases = [
        (ErrorKind::Config, "InternalError"),
        (ErrorKind::Programming, "InternalError"),
        (ErrorKind::Parsing, "InternalError"),
        (ErrorKind::Protocol, "ProtocolError"),
        (ErrorKind::NoSuchModule, "NoSuchModule"),
        (ErrorKind::NoSuchParameter, "NoSuchParameter"),
        (ErrorKind::NoSuchCommand, "NoSuchCommand"),
        (ErrorKind::CommandFailed, "CommandFailed"),
        (ErrorKind::CommandRunning, "CommandRunning"),
        (ErrorKind::ReadOnly, "ReadOnly"),
        (ErrorKind::BadValue, "BadValue"),
        (ErrorKind::CommunicationFailed, "CommunicationFailed"),
        (ErrorKind::Timeout, "CommunicationFailed"),
        (ErrorKind::HardwareError, "CommunicationFailed"),
        (ErrorKind::IsBusy, "IsBusy"),
        (ErrorKind::IsError, "IsError"),
        (ErrorKind::Disabled, "Disabled"),
    ];
    for (kind, class) in cases {
        assert_eq!(Error::new(kind, "x").description(), class);
    }
}

#[test]
fn quick_constructors_set_kind_and_message() {
    assert_eq!(Error::config("a").kind(), ErrorKind::Config);
    assert_eq!(Error::protocol("a").kind(), ErrorKind::Protocol);
    assert_eq!(Error::bad_value("a").kind(), ErrorKind::BadValue);
    assert_eq!(Error::comm_failed("a").kind(), ErrorKind::CommunicationFailed);
    assert_eq!(Error::no_module().kind(), ErrorKind::NoSuchModule);
    assert_eq!(Error::no_param().kind(), ErrorKind::NoSuchParameter);
    assert_eq!(Error::no_command().kind(), ErrorKind::NoSuchCommand);
    assert_eq!(Error::no_module().message(), "");
    assert_eq!(Error::comm_failed("gone").message(), "gone");
    assert_eq!(
        Error::new_owned(ErrorKind::Timeout, "late".to_string()),
        Error::new(ErrorKind::Timeout, "late")
    );
}

#[test]
fn amend_adds_a_note_in_parentheses() {
    let e = Error::bad_value("expected null").amend("in item 3");
    assert_eq!(e.message(), "expected null (in item 3)");
    assert_eq!(e.kind(), ErrorKind::BadValue);
    assert_eq!(e.amend("in x").message(), "expected null (in item 3) (in x)");
}

#[test]
fn an_error_is_written_as_class_and_message() {
    assert_eq!(Error::bad_value("too big").to_string(), "BadValue: too big");
    assert_eq!(Error::new(ErrorKind::Timeout, "").to_string(), "CommunicationFailed: ");
}

#[test]
fn integers_are_written_in_decimal() {
    assert_eq!(i64_text(0), "0");
    assert_eq!(i64_text(7), "7");
    assert_eq!(i64_text(-7), "-7");
    assert_eq!(i64_text(1234567890), "1234567890");
    assert_eq!(i64_text(i64::MAX), "9223372036854775807");
    assert_eq!(i64_text(i64::MIN), "-9223372036854775808");
    assert_eq!(usize_text(0), "0");
    assert_eq!(usize_text(1024), "1024");
    assert_eq!(usize_text(usize::MAX), usize::MAX.to_string());
}
