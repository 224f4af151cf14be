//! The values that a request may set: airflow percentages and setpoints.

use vstd::prelude::*;
use crate::manager::snapshot::Temperature;
use crate::text;
use crate::web::error::{quoted, AppError};

verus! {

/// The lowest and the highest setpoint, and the one taken where a zone has none,
/// in tenths of a degree.
pub const SETPOINT_MIN: i16 = 100;

pub const SETPOINT_MAX: i16 = 250;

pub const SETPOINT_DEFAULT: i16 = 200;

/// The setpoint closest to a temperature.
pub open spec fn spec_clamp_setpoint(deci: int) -> int {
    if deci < SETPOINT_MIN {
        SETPOINT_MIN as int
    } else if deci > SETPOINT_MAX {
        SETPOINT_MAX as int
    } else {
        deci
    }
}

/// The setpoint closest to a temperature.
pub fn clamp_setpoint(t: Temperature) -> (r: Temperature)
    ensures
        r.deci == spec_clamp_setpoint(t.deci as int),
{
    if t.deci < SETPOINT_MIN {
        Temperature { deci: SETPOINT_MIN }
    } else if t.deci > SETPOINT_MAX {
        Temperature { deci: SETPOINT_MAX }
    } else {
        t
    }
}

/// Whether a character is a decimal digit.
pub open spec fn is_digit(c: char) -> bool {
    '0' <= c <= '9'
}

/// Whether every character of a text is a decimal digit.
pub open spec fn all_digits(s: Seq<char>) -> bool {
    forall|i: int| 0 <= i < s.len() ==> is_digit(#[trigger] s[i])
}

/// The number that a text of decimal digits stands for.
pub open spec fn digits_value(s: Seq<char>) -> nat
    decreases s.len(),
{
    if s.len() == 0 {
        0
    } else {
        (digits_value(s.drop_last()) * 10 + (s.last() as int - '0' as int)) as nat
    }
}

/// The number that a text stands for: decimal digits, with a plus sign before
/// them or none.
pub open spec fn spec_number(s: Seq<char>) -> Option<nat> {
    let digits = if s.len() > 0 && s[0] == '+' {
        s.skip(1)
    } else {
        s
    };
    if digits.len() > 0 && all_digits(digits) {
        Some(digits_value(digits))
    } else {
        None
    }
}

/// The message about a text that is no airflow percentage.
pub open spec fn bad_airflow(s: Seq<char>) -> Seq<char> {
    "invalid airflow: "@ + crate::web::error::debug_text(s)
}

/// A longer text of digits stands for no smaller number.
proof fn lemma_digits_grow(s: Seq<char>, n: int)
    requires
        0 <= n <= s.len(),
        all_digits(s),
    ensures
        digits_value(s.take(n)) <= digits_value(s),
    decreases s.len() - n,
{
    if n < s.len() {
        lemma_digits_grow(s, n + 1);
        assert(s.take(n + 1).drop_last() =~= s.take(n));
        assert(is_digit(s[n]));
    } else {
        assert(s.take(n) =~= s);
    }
}

/// Reads an airflow percentage, 0 to 100.
pub fn parse_airflow(value: &str) -> (r: Result<u8, AppError>)
    ensures
        match spec_number(value@) {
            Some(n) => if n <= 100 {
                r matches Ok(pct) && pct == n
            } else {
                r matches Err(e) && e@ == bad_airflow(value@)
            },
            None => r matches Err(e) && e@ == bad_airflow(value@),
        },
{
    let chars = text::chars_of(value);
    let refused = AppError { message: text::joined("invalid airflow: ", quoted(value).as_str()) };
    let start: usize = if chars.len() > 0 && chars[0] == '+' {
        1
    } else {
        0
    };
    let ghost digits = value@.skip(start as int);
    assert(start == 0 ==> digits =~= value@);
    if start == chars.len() {
        return Err(refused);
    }
    let mut n: u8 = 0;
    for i in start..chars.len()
        invariant
            chars@ == value@,
            start <= chars@.len(),
            digits == value@.skip(start as int),
            forall|k: int| 0 <= k < i - start ==> is_digit(#[trigger] digits[k]),
            n <= 100,
            n == digits_value(digits.take(i - start)),
            refused@ == bad_airflow(value@),
            spec_number(value@) == (if all_digits(digits) {
                Some(digits_value(digits))
            } else {
                None
            }),
    {
        let c = chars[i];
        let ghost k = i - start;
        assert(digits[k] == c);
        if c < '0' || c > '9' {
            return Err(refused);
        }
        let wide: u32 = n as u32 * 10 + (c as u32 - '0' as u32);
        assert(digits.take(k + 1).drop_last() =~= digits.take(k));
        if wide > 100 {
            proof {
                if all_digits(digits) {
                    lemma_digits_grow(digits, k + 1);
                }
            }
            return Err(refused);
        }
        n = wide as u8;
    }
    assert(digits.take(digits.len() as int) =~= digits);
    Ok(n)
}

/// A text read as a number of degrees, in tenths of a degree, as
/// `airtouch5::types::Temperature` rounds it; none where the text is no number.
pub uninterp spec fn read_deci(value: Seq<char>) -> Option<i16>;

/// The tenths that a text of digits stands for, with a point and one more digit
/// behind them or none, below a thousand degrees; none for any other text.
pub open spec fn spec_tenths(value: Seq<char>) -> Option<i16> {
    let n = value.len();
    let tenths = if n > 0 && all_digits(value) {
        digits_value(value) * 10int
    } else if n > 2 && value[n - 2] == '.' && is_digit(value.last()) && all_digits(
        value.take(n - 2),
    ) {
        digits_value(value.take(n - 2)) * 10 + (value.last() as int - '0' as int)
    } else {
        10000
    };
    if tenths < 10000 {
        Some(tenths as i16)
    } else {
        None
    }
}

/// Calls `str::parse` for a floating point number, and on what it gives
/// `airtouch5::types::Temperature::from_float` and `as_deci`. The result is named
/// [`read_deci`] and depends on the text alone. An empty text is no number; a text
/// of digits, with one decimal or none, below a thousand degrees reads as the tenths
/// it stands for. Which other texts are numbers, and to which tenth each is rounded,
/// is not stated.
#[verifier::external_body]
pub(crate) fn read_temperature(value: &str) -> (r: Option<i16>)
    ensures
        r == read_deci(value@),
        value@.len() == 0 ==> r is None,
        spec_tenths(value@) is Some ==> r == spec_tenths(value@),
{
    match value.parse() {
        Ok(degrees) => Some(airtouch5::types::Temperature::from_float(degrees).as_deci()),
        Err(_) => None,
    }
}

/// The message about a text that is no setpoint.
pub open spec fn bad_setpoint(s: Seq<char>) -> Seq<char> {
    "invalid setpoint: "@ + crate::web::error::debug_text(s)
}

/// What a request for a setpoint comes to, by what its text reads as.
pub open spec fn spec_setpoint(read: Option<i16>) -> Option<Temperature> {
    match read {
        Some(deci) => if SETPOINT_MIN <= deci <= SETPOINT_MAX {
            Some(Temperature { deci })
        } else {
            None
        },
        None => None,
    }
}

/// Accepts a setpoint of 10.0 to 25.0 degrees, by what its text reads as.
pub fn accept_setpoint(value: &str, read: Option<i16>) -> (r: Result<Temperature, AppError>)
    ensures
        match spec_setpoint(read) {
            Some(t) => r matches Ok(got) && got == t,
            None => r matches Err(e) && e@ == bad_setpoint(value@),
        },
{
    if let Some(deci) = read {
        if SETPOINT_MIN <= deci && deci <= SETPOINT_MAX {
            return Ok(Temperature { deci });
        }
    }
    Err(AppError { message: text::joined("invalid setpoint: ", quoted(value).as_str()) })
}

/// Reads a setpoint of 10.0 to 25.0 degrees.
pub fn parse_setpoint(value: &str) -> (r: Result<Temperature, AppError>)
    ensures
        match spec_setpoint(read_deci(value@)) {
            Some(t) => r matches Ok(got) && got == t,
            None => r matches Err(e) && e@ == bad_setpoint(value@),
        },
        value@.len() == 0 ==> r is Err,
        spec_tenths(value@) matches Some(deci) ==> (if SETPOINT_MIN <= deci <= SETPOINT_MAX {
            r matches Ok(t) && t.deci == deci
        } else {
            r is Err
        }),
{
    accept_setpoint(value, read_temperature(value))
}

} // verus!
