use libtpfanspeed::{Error, ErrorKind};

#[test]
fn constructors_keep_their_parts() {
    let e = Error::new(ErrorKind::FileNotFound, "gone".to_string(), "look".to_string());
    assert_eq!(*e.kind(), ErrorKind::FileNotFound);
    assert_eq!(e.desc(), Some("gone"));
    assert_eq!(e.help(), Some("look"));

    let e = Error::without_description_help(ErrorKind::GenericError);
    assert_eq!(*e.kind(), ErrorKind::GenericError);
    assert_eq!(e.desc(), None);
    assert_eq!(e.help(), None);

    let e = Error::without_description(ErrorKind::PermissionDenied, "sudo".to_string());
    assert_eq!(e.desc(), None);
    assert_eq!(e.help(), Some("sudo"));

    let e = Error::without_help(ErrorKind::ValueTooLow, "low".to_string());
    assert_eq!(e.desc(), Some("low"));
    assert_eq!(e.help(), None);
}

#[test]
fn messages_name_kind_and_description() {
    let e = Error::without_help(ErrorKind::InvalidValue, "x is bad".to_string());
    assert_eq!(e.message(), "Fan speed setting invalid: x is bad");
    assert_eq!(e.description(), "x is bad");
    let e = Error::without_description(ErrorKind::FanControlDisabled, "hint".to_string());
    assert_eq!(e.message(), "Fan control disabled");
    assert_eq!(e.description(), "");
}

#[test]
fn every_kind_has_its_message() {
    assert_eq!(ErrorKind::ValueTooLow.message(), "Fan speed setting too low");
    assert_eq!(ErrorKind::ValueTooHigh.message(), "Fan speed setting too high");
    assert_eq!(ErrorKind::InvalidValue.message(), "Fan speed setting invalid");
    assert_eq!(ErrorKind::FileNotFound.message(), "File not found");
    assert_eq!(ErrorKind::PermissionDenied.message(), "Permission Denied");
    assert_eq!(ErrorKind::FanControlDisabled.message(), "Fan control disabled");
    assert_eq!(ErrorKind::GenericError.message(), "Generic error");
}
