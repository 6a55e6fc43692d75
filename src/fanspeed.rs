use crate::error::{Error, ErrorKind};
use crate::text::{
    all_digits, decimal_string, decimal_text, decimal_value, digits_value, is_digit,
    lemma_decimal_text_digits, text_chars,
};
use vstd::prelude::*;
use vstd::string::*;

verus! {

/// A fan setting: a numbered level, or one of the named modes.
#[derive(Debug, Clone, Copy, PartialEq, Eq, Structural)]
pub enum FanSpeed {
    /// A fixed level, from 0 (off) to `MAX_LEVEL`.
    Level(u8),
    /// Full speed.
    FullSpeed,
    /// Full speed, with the RPM monitoring of the embedded controller off.
    Disengaged,
    /// The embedded controller governs the speed.
    Auto,
}

/// The highest level. Levels run from 0 to this bound, both included, as the
/// help text says and `thinkpad_acpi` accepts.
pub const MAX_LEVEL: u8 = 7;

pub open spec fn valid_speeds_help() -> Seq<char> {
    "Valid fan speeds range from 0-7, auto, full-speed and disengaged"@
}

/// The token that stands for a setting on the command line and in the
/// control file.
pub open spec fn speed_token(f: FanSpeed) -> Seq<char> {
    match f {
        FanSpeed::Level(n) => decimal_text(n as nat),
        FanSpeed::FullSpeed => "full-speed"@,
        FanSpeed::Disengaged => "disengaged"@,
        FanSpeed::Auto => "auto"@,
    }
}

/// A minus sign followed by decimal digits.
pub open spec fn is_negative_number(s: Seq<char>) -> bool {
    s.len() > 1 && s[0] == '-' && all_digits(s.skip(1))
}

/// The digits of an unsigned number, after an optional plus sign.
pub open spec fn unsigned_digits(s: Seq<char>) -> Seq<char> {
    if s.len() > 0 && s[0] == '+' {
        s.skip(1)
    } else {
        s
    }
}

/// An optional plus sign followed by decimal digits.
pub open spec fn is_unsigned_number(s: Seq<char>) -> bool {
    unsigned_digits(s).len() > 0 && all_digits(unsigned_digits(s))
}

/// How a text reads as a fan setting: numbers are levels, bounded by the
/// width of a byte and then by `MAX_LEVEL`; other text must be a mode's name.
pub open spec fn parse_fan_speed(s: Seq<char>) -> Result<FanSpeed, ErrorKind> {
    if is_negative_number(s) {
        Err(ErrorKind::ValueTooLow)
    } else if is_unsigned_number(s) {
        let v = decimal_value(unsigned_digits(s));
        if v > 255 {
            Err(ErrorKind::ValueTooHigh)
        } else if v <= MAX_LEVEL {
            Ok(FanSpeed::Level(v as u8))
        } else {
            Err(ErrorKind::InvalidValue)
        }
    } else if s == "disengaged"@ {
        Ok(FanSpeed::Disengaged)
    } else if s == "auto"@ {
        Ok(FanSpeed::Auto)
    } else if s == "full-speed"@ {
        Ok(FanSpeed::FullSpeed)
    } else {
        Err(ErrorKind::InvalidValue)
    }
}

/// What the description of a failed parse says of the text.
pub open spec fn parse_failure_description(s: Seq<char>, kind: ErrorKind) -> Seq<char> {
    match kind {
        ErrorKind::ValueTooLow => s + " is negative"@,
        ErrorKind::ValueTooHigh => "Fan speed "@ + s + " is too high"@,
        _ => s + " is an invalid fan speed setting"@,
    }
}

fn failure(value: &String, kind: ErrorKind) -> (r: Error)
    ensures
        r.spec_kind() == kind,
        r.spec_description() == Some(parse_failure_description(value@, kind)),
        r.spec_help() == Some(valid_speeds_help()),
{
    let description = match kind {
        ErrorKind::ValueTooLow => value.clone().concat(" is negative"),
        ErrorKind::ValueTooHigh => String::from_str("Fan speed ").concat(value.as_str()).concat(
            " is too high",
        ),
        _ => value.clone().concat(" is an invalid fan speed setting"),
    };
    Error::new(
        kind,
        description,
        String::from_str("Valid fan speeds range from 0-7, auto, full-speed and disengaged"),
    )
}

impl FanSpeed {
    /// Reads a fan setting from its token.
    pub fn from_string(value: String) -> (r: Result<Self, Error>)
        ensures
            match r {
                Ok(f) => parse_fan_speed(value@) == Ok::<FanSpeed, ErrorKind>(f),
                Err(e) => {
                    &&& parse_fan_speed(value@) == Err::<FanSpeed, ErrorKind>(e.spec_kind())
                    &&& e.spec_description() == Some(
                        parse_failure_description(value@, e.spec_kind()),
                    )
                    &&& e.spec_help() == Some(valid_speeds_help())
                },
            },
    {
        let cs = text_chars(value.as_str());
        if cs.len() > 1 && cs[0] == '-' {
            assert(cs@.subrange(1, cs.len() as int) =~= cs@.skip(1));
            if digits_value(&cs, 1, 256).is_some() {
                return Err(failure(&value, ErrorKind::ValueTooLow));
            }
        }
        let start: usize = if cs.len() > 0 && cs[0] == '+' {
            1
        } else {
            0
        };
        assert(cs@.subrange(start as int, cs.len() as int) =~= unsigned_digits(value@));
        if let Some(v) = digits_value(&cs, start, 256) {
            if v > 255 {
                return Err(failure(&value, ErrorKind::ValueTooHigh));
            } else if v <= MAX_LEVEL as u32 {
                return Ok(FanSpeed::Level(v as u8));
            } else {
                return Err(failure(&value, ErrorKind::InvalidValue));
            }
        }
        if value == String::from_str("disengaged") {
            Ok(FanSpeed::Disengaged)
        } else if value == String::from_str("auto") {
            Ok(FanSpeed::Auto)
        } else if value == String::from_str("full-speed") {
            Ok(FanSpeed::FullSpeed)
        } else {
            Err(failure(&value, ErrorKind::InvalidValue))
        }
    }

    /// The token of this setting: its level in decimal, or the mode's name.
    pub fn token(&self) -> (r: String)
        ensures
            r@ == speed_token(*self),
    {
        match self {
            FanSpeed::Level(n) => decimal_string(*n as u64),
            FanSpeed::FullSpeed => String::from_str("full-speed"),
            FanSpeed::Disengaged => String::from_str("disengaged"),
            FanSpeed::Auto => String::from_str("auto"),
        }
    }
}

/// Reading back the token of any setting that reading can produce gives the
/// same setting.
pub proof fn lemma_token_round_trip(f: FanSpeed)
    requires
        f matches FanSpeed::Level(n) ==> n <= MAX_LEVEL,
    ensures
        parse_fan_speed(speed_token(f)) == Ok::<FanSpeed, ErrorKind>(f),
{
    reveal_strlit("full-speed");
    reveal_strlit("disengaged");
    reveal_strlit("auto");
    match f {
        FanSpeed::Level(n) => {
            lemma_decimal_text_digits(n as nat);
            let t = decimal_text(n as nat);
            assert(is_digit(t[0]));
            assert(unsigned_digits(t) == t);
        },
        FanSpeed::FullSpeed => {
            let t = "full-speed"@;
            assert(!is_digit(t[0]));
            assert(t != "disengaged"@);
            assert(t != "auto"@);
        },
        FanSpeed::Disengaged => {
            let t = "disengaged"@;
            assert(!is_digit(t[0]));
        },
        FanSpeed::Auto => {
            let t = "auto"@;
            assert(!is_digit(t[0]));
            assert(t != "disengaged"@);
        },
    }
}

/// The decimal text of any number above `MAX_LEVEL` that still fits in a
/// byte is refused as an invalid setting. Larger numbers are refused as too
/// high instead.
pub proof fn lemma_level_above_bound_invalid(n: nat)
    requires
        MAX_LEVEL < n <= 255,
    ensures
        parse_fan_speed(decimal_text(n)) == Err::<FanSpeed, ErrorKind>(ErrorKind::InvalidValue),
{
    lemma_decimal_text_digits(n);
    let t = decimal_text(n);
    assert(is_digit(t[0]));
    assert(unsigned_digits(t) == t);
}

} // verus!
