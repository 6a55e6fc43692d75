use crate::error::{Error, ErrorKind};
use crate::fanspeed::{is_unsigned_number, speed_token, unsigned_digits, FanSpeed};
use crate::text::{
    contains, contains_text, decimal_value, digits_value, index_in, index_of, text_chars, trim,
    trim_bounds,
};
use vstd::prelude::*;
use vstd::string::*;

verus! {

/// How an operation on a file or a program failed, as the library tells
/// failures apart.
#[derive(Debug, Clone, Copy, PartialEq, Eq, Structural)]
pub enum IoFailure {
    NotFound,
    PermissionDenied,
    InvalidInput,
    Other,
}

/// The line of the control file that holds the fan's RPM.
pub const RPM_LINE: usize = 1;

/// The line of the control file that holds the current speed setting.
pub const SPEED_LINE: usize = 2;

/// Line `k` of a text, lines being separated by `'\n'`; nothing past the last.
pub open spec fn line_at(s: Seq<char>, k: nat) -> Option<Seq<char>>
    decreases k,
{
    match index_of(s, '\n') {
        None => if k == 0 {
            Some(s)
        } else {
            None
        },
        Some(i) => if k == 0 {
            Some(s.take(i as int))
        } else {
            line_at(s.skip(i + 1 as int), (k - 1) as nat)
        },
    }
}

/// What follows the first colon of a `label: value` line, trimmed.
pub open spec fn line_value(line: Seq<char>) -> Option<Seq<char>> {
    match index_of(line, ':') {
        Some(i) => Some(trim(line.skip(i + 1 as int))),
        None => None,
    }
}

/// The value on line `k` of the control file.
pub open spec fn control_value(s: Seq<char>, k: nat) -> Option<Seq<char>> {
    match line_at(s, k) {
        Some(line) => line_value(line),
        None => None,
    }
}

/// A text read as an RPM: an optional plus sign, then decimal digits for a
/// number below 65536.
pub open spec fn rpm_of(t: Seq<char>) -> Option<u16> {
    if is_unsigned_number(t) && decimal_value(unsigned_digits(t)) <= 65535 {
        Some(decimal_value(unsigned_digits(t)) as u16)
    } else {
        None
    }
}

/// The RPM that the control file reports.
pub open spec fn control_rpm(s: Seq<char>) -> Option<u16> {
    match control_value(s, RPM_LINE as nat) {
        Some(t) => rpm_of(t),
        None => None,
    }
}

/// The marker whose presence in the control file shows that the fan can be set.
pub open spec fn command_marker() -> Seq<char> {
    "command"@
}

pub open spec fn control_enabled(s: Seq<char>) -> bool {
    contains(s, command_marker())
}

/// What is written to the control file to set a speed.
pub open spec fn level_command(f: FanSpeed) -> Seq<char> {
    "level "@ + speed_token(f)
}

pub open spec fn control_disabled_help() -> Seq<char> {
    "Did you load thinkpad_acpi with fan_control=1?"@
}

/// The bounds of line `k` of `cs[from..]`.
fn line_bounds(cs: &Vec<char>, from: usize, k: usize) -> (r: Option<(usize, usize)>)
    requires
        from <= cs.len(),
    ensures
        match r {
            Some((a, b)) => from <= a <= b <= cs.len() && line_at(
                cs@.subrange(from as int, cs.len() as int),
                k as nat,
            ) == Some(cs@.subrange(a as int, b as int)),
            None => line_at(cs@.subrange(from as int, cs.len() as int), k as nat) is None,
        },
    decreases k,
{
    let ghost s = cs@.subrange(from as int, cs.len() as int);
    match index_in(cs, from, cs.len(), '\n') {
        None => if k == 0 {
            Some((from, cs.len()))
        } else {
            None
        },
        Some(j) => {
            assert(s.take(j - from) =~= cs@.subrange(from as int, j as int));
            assert(s.skip(j - from + 1) =~= cs@.subrange(j + 1, cs.len() as int));
            if k == 0 {
                Some((from, j))
            } else {
                line_bounds(cs, j + 1, k - 1)
            }
        },
    }
}

/// The bounds of the value on line `k` of `cs`.
fn value_bounds(cs: &Vec<char>, k: usize) -> (r: Option<(usize, usize)>)
    ensures
        match r {
            Some((a, b)) => a <= b <= cs.len() && control_value(cs@, k as nat) == Some(
                cs@.subrange(a as int, b as int),
            ),
            None => control_value(cs@, k as nat) is None,
        },
{
    assert(cs@.subrange(0, cs.len() as int) =~= cs@);
    let (a, b) = match line_bounds(cs, 0, k) {
        Some(bounds) => bounds,
        None => return None,
    };
    let ghost line = cs@.subrange(a as int, b as int);
    match index_in(cs, a, b, ':') {
        None => None,
        Some(j) => {
            assert(line.skip(j - a + 1) =~= cs@.subrange(j + 1, b as int));
            Some(trim_bounds(cs, j + 1, b))
        },
    }
}

/// The value on line `k` of the control file.
fn control_field(contents: &str, k: usize) -> (r: Option<String>)
    ensures
        match r {
            Some(v) => control_value(contents@, k as nat) == Some(v@),
            None => control_value(contents@, k as nat) is None,
        },
{
    let cs = text_chars(contents);
    match value_bounds(&cs, k) {
        Some((a, b)) => Some(String::from_str(contents.substring_char(a, b))),
        None => None,
    }
}

fn unreadable(description: &str) -> (r: Error)
    ensures
        r.spec_kind() == ErrorKind::GenericError,
{
    Error::without_help(ErrorKind::GenericError, String::from_str(description))
}

/// The current speed setting that the control file's contents report.
pub fn speed_from_control(contents: &str) -> (r: Result<String, Error>)
    ensures
        match r {
            Ok(v) => control_value(contents@, SPEED_LINE as nat) == Some(v@),
            Err(e) => control_value(contents@, SPEED_LINE as nat) is None && e.spec_kind()
                == ErrorKind::GenericError,
        },
{
    match control_field(contents, SPEED_LINE) {
        Some(v) => Ok(v),
        None => Err(unreadable("the control file has no speed line")),
    }
}

/// Reads an RPM.
fn read_rpm(t: &str) -> (r: Option<u16>)
    ensures
        r == rpm_of(t@),
{
    let cs = text_chars(t);
    let start: usize = if cs.len() > 0 && cs[0] == '+' {
        1
    } else {
        0
    };
    assert(cs@.subrange(start as int, cs.len() as int) =~= unsigned_digits(t@));
    match digits_value(&cs, start, 65536) {
        Some(v) => if v > 65535 {
            None
        } else {
            Some(v as u16)
        },
        None => None,
    }
}

/// The RPM that the control file's contents report.
pub fn rpm_from_control(contents: &str) -> (r: Result<u16, Error>)
    ensures
        match r {
            Ok(n) => control_rpm(contents@) == Some(n),
            Err(e) => control_rpm(contents@) is None && e.spec_kind() == ErrorKind::GenericError,
        },
{
    match control_field(contents, RPM_LINE) {
        Some(v) => match read_rpm(v.as_str()) {
            Some(n) => Ok(n),
            None => Err(unreadable("the RPM in the control file is not a number")),
        },
        None => Err(unreadable("the control file has no RPM line")),
    }
}

/// What to write to the control file, given its contents, to set the fan to
/// `fan_speed`; the fan cannot be set when the contents lack the marker.
pub fn speed_command(contents: &str, fan_speed: FanSpeed) -> (r: Result<String, Error>)
    ensures
        match r {
            Ok(cmd) => control_enabled(contents@) && cmd@ == level_command(fan_speed),
            Err(e) => {
                &&& !control_enabled(contents@)
                &&& e.spec_kind() == ErrorKind::FanControlDisabled
                &&& e.spec_help() == Some(control_disabled_help())
            },
        },
{
    let cs = text_chars(contents);
    let marker = text_chars("command");
    if contains_text(&cs, &marker) {
        Ok(String::from_str("level ").concat(fan_speed.token().as_str()))
    } else {
        Err(
            Error::new(
                ErrorKind::FanControlDisabled,
                String::from_str("Can't control the fan speed"),
                String::from_str("Did you load thinkpad_acpi with fan_control=1?"),
            ),
        )
    }
}

/// Whether `current`, as the control file reports it, is the token of `fan_speed`.
pub fn is_current_speed(fan_speed: FanSpeed, current: &str) -> (r: bool)
    ensures
        r == (speed_token(fan_speed) == current@),
{
    fan_speed.token() == String::from_str(current)
}

/// The error for a failure to open the control file, for reading or for
/// writing.
pub fn open_failure(failure: IoFailure, writing: bool, detail: &str) -> (r: Error)
    ensures
        r.spec_kind() == match failure {
            IoFailure::NotFound => ErrorKind::FileNotFound,
            IoFailure::PermissionDenied => ErrorKind::PermissionDenied,
            _ => ErrorKind::GenericError,
        },
        failure == IoFailure::NotFound ==> r.spec_help() == Some("Did you load thinkpad_acpi?"@),
{
    match failure {
        IoFailure::NotFound => Error::new(
            ErrorKind::FileNotFound,
            String::from_str("File /proc/acpi/ibm/fan not found"),
            String::from_str("Did you load thinkpad_acpi?"),
        ),
        IoFailure::PermissionDenied => if writing {
            Error::new(
                ErrorKind::PermissionDenied,
                String::from_str("while trying to write to /proc/acpi/ibm/fan"),
                String::from_str("Do you have root permissions?"),
            )
        } else {
            Error::new(
                ErrorKind::PermissionDenied,
                String::from_str("while trying to read from /proc/acpi/ibm/fan"),
                String::from_str("Do you have sufficient permissions?"),
            )
        },
        _ => generic_failure(detail),
    }
}

/// The error for a failure to write a command to the control file: the
/// kernel refuses commands as invalid input when fan control is off.
pub fn write_failure(failure: IoFailure, detail: &str) -> (r: Error)
    ensures
        r.spec_kind() == if failure == IoFailure::InvalidInput {
            ErrorKind::FanControlDisabled
        } else {
            ErrorKind::GenericError
        },
        failure == IoFailure::InvalidInput ==> r.spec_help() == Some(control_disabled_help()),
{
    if failure == IoFailure::InvalidInput {
        Error::new(
            ErrorKind::FanControlDisabled,
            String::from_str("Can't control the fan speed"),
            String::from_str("Did you load thinkpad_acpi with fan_control=1?"),
        )
    } else {
        generic_failure(detail)
    }
}

/// The error for a failure to run the sensor tool.
pub fn sensors_failure(failure: IoFailure, detail: &str) -> (r: Error)
    ensures
        r.spec_kind() == if failure == IoFailure::NotFound {
            ErrorKind::FileNotFound
        } else {
            ErrorKind::GenericError
        },
        failure == IoFailure::NotFound ==> r.spec_help() == Some(
            "Do you have lm_sensors installed?"@,
        ),
{
    if failure == IoFailure::NotFound {
        Error::new(
            ErrorKind::FileNotFound,
            String::from_str("Could not access sensors command"),
            String::from_str("Do you have lm_sensors installed?"),
        )
    } else {
        generic_failure(detail)
    }
}

/// A generic error that carries what went wrong.
pub fn generic_failure(detail: &str) -> (r: Error)
    ensures
        r.spec_kind() == ErrorKind::GenericError,
        r.spec_description() == Some("Some error occurred: "@ + detail@),
        r.spec_help() is None,
{
    Error::without_help(
        ErrorKind::GenericError,
        String::from_str("Some error occurred: ").concat(detail),
    )
}

} // verus!
