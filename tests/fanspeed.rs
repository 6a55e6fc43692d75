use libtpfanspeed::fanspeed::MAX_LEVEL;
use libtpfanspeed::{ErrorKind, FanSpeed};

fn parse(s: &str) -> Result<FanSpeed, libtpfanspeed::Error> {
    FanSpeed::from_string(s.to_string())
}

fn parse_kind(s: &str) -> ErrorKind {
    *parse(s).unwrap_err().kind()
}

#[test]
fn named_modes_parse() {
    assert_eq!(parse("auto").unwrap(), FanSpeed::Auto);
    assert_eq!(parse("full-speed").unwrap(), FanSpeed::FullSpeed);
    assert_eq!(parse("disengaged").unwrap(), FanSpeed::Disengaged);
}

#[test]
fn level_parses_and_renders() {
    assert_eq!(parse("4").unwrap(), FanSpeed::Level(4));
    assert_eq!(FanSpeed::Level(4).token(), "4");
}

#[test]
fn bad_values_are_classified() {
    assert_eq!(parse_kind("-1"), ErrorKind::ValueTooLow);
    assert_eq!(parse_kind("999"), ErrorKind::ValueTooHigh);
    assert_eq!(parse_kind("banana"), ErrorKind::InvalidValue);
}

#[test]
fn levels_outside_bound_are_invalid() {
    // Levels run from 0 to 7: the help text's range, which the kernel accepts.
    assert_eq!(MAX_LEVEL, 7);
    assert_eq!(parse("0").unwrap(), FanSpeed::Level(0));
    assert_eq!(parse("7").unwrap(), FanSpeed::Level(7));
    for n in 8..=255u32 {
        assert_eq!(parse_kind(&n.to_string()), ErrorKind::InvalidValue, "{n}");
    }
    assert_eq!(parse_kind("256"), ErrorKind::ValueTooHigh);
    assert_eq!(parse_kind("-300"), ErrorKind::ValueTooLow);
}

#[test]
fn number_edge_cases() {
    assert_eq!(parse("+3").unwrap(), FanSpeed::Level(3));
    assert_eq!(parse("007").unwrap(), FanSpeed::Level(7));
    assert_eq!(parse_kind(""), ErrorKind::InvalidValue);
    assert_eq!(parse_kind("-"), ErrorKind::InvalidValue);
    assert_eq!(parse_kind("+"), ErrorKind::InvalidValue);
    assert_eq!(parse_kind("-a"), ErrorKind::InvalidValue);
    assert_eq!(parse_kind("Auto"), ErrorKind::InvalidValue);
    assert_eq!(parse_kind(" auto"), ErrorKind::InvalidValue);
    assert_eq!(parse_kind("4 "), ErrorKind::InvalidValue);
    assert_eq!(parse_kind("99999999999999999999"), ErrorKind::ValueTooHigh);
}

#[test]
fn parse_errors_carry_description_and_help() {
    let help = "Valid fan speeds range from 0-7, auto, full-speed and disengaged";
    let e = parse("-1").unwrap_err();
    assert_eq!(e.desc(), Some("-1 is negative"));
    assert_eq!(e.help(), Some(help));
    let e = parse("999").unwrap_err();
    assert_eq!(e.desc(), Some("Fan speed 999 is too high"));
    let e = parse("banana").unwrap_err();
    assert_eq!(e.desc(), Some("banana is an invalid fan speed setting"));
    assert_eq!(e.help(), Some(help));
}

#[test]
fn tokens_round_trip() {
    let mut all = vec![FanSpeed::Auto, FanSpeed::FullSpeed, FanSpeed::Disengaged];
    for n in 0..=MAX_LEVEL {
        all.push(FanSpeed::Level(n));
    }
    for f in all {
        assert_eq!(FanSpeed::from_string(f.token()).unwrap(), f);
    }
    assert_eq!(FanSpeed::Auto.token(), "auto");
    assert_eq!(FanSpeed::FullSpeed.token(), "full-speed");
    assert_eq!(FanSpeed::Disengaged.token(), "disengaged");
    assert_eq!(FanSpeed::Level(200).token(), "200");
}
