use libtpfanspeed::control::{
    generic_failure, is_current_speed, open_failure, rpm_from_control, sensors_failure, speed_command,
    speed_from_control, write_failure, IoFailure,
};
use libtpfanspeed::{ErrorKind, FanSpeed};

const ENABLED: &str = "status:\t\tenabled\nspeed:\t\t2900\nlevel:\t\tauto\ncommands:\tlevel <level> (<level> is 0-7, auto, disengaged, full-speed)\n";
const DISABLED: &str = "status:\t\tenabled\nspeed:\t\t2900\nlevel:\t\tauto\n";

#[test]
fn set_speed_without_marker_is_disabled() {
    let e = speed_command(DISABLED, FanSpeed::Auto).unwrap_err();
    assert_eq!(*e.kind(), ErrorKind::FanControlDisabled);
    assert_eq!(e.help(), Some("Did you load thinkpad_acpi with fan_control=1?"));
    let e = speed_command("", FanSpeed::Level(2)).unwrap_err();
    assert_eq!(*e.kind(), ErrorKind::FanControlDisabled);
}

#[test]
fn set_speed_with_marker_writes_level() {
    assert_eq!(speed_command(ENABLED, FanSpeed::Auto).unwrap(), "level auto");
    assert_eq!(speed_command(ENABLED, FanSpeed::Level(4)).unwrap(), "level 4");
    assert_eq!(speed_command(ENABLED, FanSpeed::FullSpeed).unwrap(), "level full-speed");
    assert_eq!(speed_command("command", FanSpeed::Disengaged).unwrap(), "level disengaged");
}

#[test]
fn rpm_and_speed_lines_are_read() {
    let contents = "status\nspeed: 3200\nlevel: 4\n";
    assert_eq!(rpm_from_control(contents).unwrap(), 3200);
    assert_eq!(speed_from_control(contents).unwrap(), "4");
}

#[test]
fn kernel_format_is_read() {
    assert_eq!(rpm_from_control(ENABLED).unwrap(), 2900);
    assert_eq!(speed_from_control(ENABLED).unwrap(), "auto");
    assert_eq!(speed_from_control("a\nb:x\nlevel:  full-speed \r").unwrap(), "full-speed");
    assert_eq!(speed_from_control("a\nb\nlevel: a: b").unwrap(), "a: b");
}

#[test]
fn malformed_control_files_are_errors() {
    assert_eq!(*rpm_from_control("status").unwrap_err().kind(), ErrorKind::GenericError);
    assert_eq!(*rpm_from_control("status\nspeed 3200\n").unwrap_err().kind(), ErrorKind::GenericError);
    assert_eq!(*rpm_from_control("status\nspeed: fast\n").unwrap_err().kind(), ErrorKind::GenericError);
    assert_eq!(*rpm_from_control("status\nspeed: 70000\n").unwrap_err().kind(), ErrorKind::GenericError);
    assert_eq!(rpm_from_control("status\nspeed: 65535\n").unwrap(), 65535);
    assert_eq!(*speed_from_control("status\nspeed: 1\n").unwrap_err().kind(), ErrorKind::GenericError);
    assert_eq!(speed_from_control("status\nspeed: 1\nlevel:").unwrap(), "");
}

#[test]
fn io_failures_are_classified() {
    let e = open_failure(IoFailure::NotFound, false, "x");
    assert_eq!(*e.kind(), ErrorKind::FileNotFound);
    assert_eq!(e.help(), Some("Did you load thinkpad_acpi?"));
    assert_eq!(*open_failure(IoFailure::PermissionDenied, true, "x").kind(), ErrorKind::PermissionDenied);
    assert_eq!(*open_failure(IoFailure::Other, true, "x").kind(), ErrorKind::GenericError);
    assert_eq!(*write_failure(IoFailure::InvalidInput, "x").kind(), ErrorKind::FanControlDisabled);
    assert_eq!(*write_failure(IoFailure::Other, "x").kind(), ErrorKind::GenericError);
    let e = sensors_failure(IoFailure::NotFound, "x");
    assert_eq!(*e.kind(), ErrorKind::FileNotFound);
    assert_eq!(e.help(), Some("Do you have lm_sensors installed?"));
    assert_eq!(*sensors_failure(IoFailure::PermissionDenied, "x").kind(), ErrorKind::GenericError);
    assert_eq!(generic_failure("boom").desc(), Some("Some error occurred: boom"));
}

#[test]
fn current_speed_is_recognised() {
    assert!(is_current_speed(FanSpeed::Level(4), "4"));
    assert!(is_current_speed(FanSpeed::Auto, "auto"));
    assert!(!is_current_speed(FanSpeed::Auto, "4"));
    assert!(!is_current_speed(FanSpeed::Level(4), "04"));
}
