//! Human-readable durations: parse text such as `"5m 2 seconds"` or
//! `"1h1m1s"` into an exact nanosecond count, and format a nanosecond
//! count back into compact (`"6m 3s"`), spelled-out (`"6 minutes 3
//! seconds"`) or lossless, round-trip-safe text.

pub mod chars;
pub mod decimal;
pub mod error;
pub mod format;
pub mod laws;
pub mod lexer;
pub mod parse;
pub mod render;
pub mod roundtrip;
pub mod rtunits;
pub mod std_time;
pub mod units;

pub use error::Error;
pub use decimal::Decimal;
pub use parse::parse;

use vstd::prelude::*;
use crate::chars::chars_to_string;
use crate::render::spec_format_exact;
use crate::render::spec_format_human;
use crate::render::format_exact_chars;
use crate::render::format_human_chars;
use crate::std_time::std_nanos;
use crate::std_time::MAX_STD_NANOS;
use vstd::arithmetic::div_mod::lemma_div_is_ordered;

verus! {

/// Nanoseconds in a microsecond.
pub const NANOS_PER_MICRO: u128 = 1_000;
/// Nanoseconds in a millisecond.
pub const NANOS_PER_MILLI: u128 = 1_000_000;
/// Nanoseconds in a second.
pub const NANOS_PER_SEC: u128 = 1_000_000_000;
/// Nanoseconds in a minute.
pub const NANOS_PER_MINUTE: u128 = 60_000_000_000;
/// Nanoseconds in an hour.
pub const NANOS_PER_HOUR: u128 = 3_600_000_000_000;
/// Nanoseconds in a day.
pub const NANOS_PER_DAY: u128 = 86_400_000_000_000;
/// Nanoseconds in a week.
pub const NANOS_PER_WEEK: u128 = 604_800_000_000_000;
/// Nanoseconds in a year (365.25 days, i.e. 31,557,600 seconds exactly).
pub const NANOS_PER_YEAR: u128 = 31_557_600_000_000_000;

/// A human readable duration backed by a [u128].
///
/// The underlying [u128] represents the duration in nanoseconds.
#[derive(Eq, PartialEq, Ord, PartialOrd, Copy, Clone, Debug, Hash, Default, Structural)]
pub struct Duration(pub(crate) u128);

impl View for Duration {
    type V = u128;

    closed spec fn view(&self) -> u128 {
        self.0
    }
}

/// Converting a [Duration] to the standard duration type: the
/// nanosecond count itself when it fits, else the standard type's
/// maximum.
pub open spec fn to_std_ns(n: u128) -> u128 {
    if n <= MAX_STD_NANOS {
        n
    } else {
        MAX_STD_NANOS
    }
}

/// What [Duration::try_to_std] hands back for a nanosecond count `n`:
/// whole nanoseconds when they fit a `u64`, else whole milliseconds,
/// else whole seconds.
pub open spec fn try_to_std_ns(n: u128) -> Option<u128> {
    if n <= u64::MAX {
        Some(n)
    } else if n / 1_000_000 <= u64::MAX {
        Some(((n / 1_000_000) * 1_000_000) as u128)
    } else if n / 1_000_000_000 <= u64::MAX {
        Some(((n / 1_000_000_000) * 1_000_000_000) as u128)
    } else {
        None
    }
}

impl Duration {
    /// Creates a new `Duration` from the specified number of nanoseconds.
    pub fn from_nanos(ns: u128) -> (r: Self)
        ensures
            r@ == ns,
    {
        Self(ns)
    }

    /// Creates a new `Duration` from the specified number of microseconds.
    pub fn from_micros(us: u128) -> (r: Self)
        requires
            us * NANOS_PER_MICRO <= u128::MAX,
        ensures
            r@ == us * NANOS_PER_MICRO,
    {
        Self(us * NANOS_PER_MICRO)
    }

    /// Creates a new `Duration` from the specified number of milliseconds.
    pub fn from_millis(ms: u128) -> (r: Self)
        requires
            ms * NANOS_PER_MILLI <= u128::MAX,
        ensures
            r@ == ms * NANOS_PER_MILLI,
    {
        Self(ms * NANOS_PER_MILLI)
    }

    /// Creates a new `Duration` from the specified number of seconds.
    pub fn from_secs(secs: u128) -> (r: Self)
        requires
            secs * NANOS_PER_SEC <= u128::MAX,
        ensures
            r@ == secs * NANOS_PER_SEC,
    {
        Self(secs * NANOS_PER_SEC)
    }

    /// Convert to a standard [core::time::Duration], capped at that
    /// type's maximum when the value does not fit.
    pub fn to_std(self) -> (r: core::time::Duration)
        ensures
            std_nanos(r) == to_std_ns(self@),
    {
        if self.0 <= MAX_STD_NANOS {
            proof {
                lemma_div_is_ordered(self.0 as int, MAX_STD_NANOS as int, 1_000_000_000);
            }
            let secs = (self.0 / 1_000_000_000) as u64;
            let nanos = (self.0 % 1_000_000_000) as u32;
            core::time::Duration::new(secs, nanos)
        } else {
            core::time::Duration::new(u64::MAX, 999_999_999)
        }
    }

    /// Tries to convert `self` into a standard [core::time::Duration],
    /// stepping down to whole milliseconds and then whole seconds when
    /// the nanosecond count does not fit a `u64`; [None] if even the
    /// seconds do not.
    pub fn try_to_std(self) -> (r: Option<core::time::Duration>)
        ensures
            match r {
                Some(s) => try_to_std_ns(self@) == Some(std_nanos(s) as u128),
                None => try_to_std_ns(self@) is None,
            },
    {
        if self.0 <= u64::MAX as u128 {
            Some(core::time::Duration::from_nanos(self.0 as u64))
        } else if self.0 / 1_000_000 <= u64::MAX as u128 {
            Some(core::time::Duration::from_millis((self.0 / 1_000_000) as u64))
        } else if self.0 / 1_000_000_000 <= u64::MAX as u128 {
            Some(core::time::Duration::from_secs((self.0 / 1_000_000_000) as u64))
        } else {
            None
        }
    }

    /// Convert from a standard [core::time::Duration], keeping the
    /// exact nanosecond count.
    pub fn from_std(d: core::time::Duration) -> (r: Self)
        ensures
            r@ == std_nanos(d),
    {
        Self(d.as_nanos())
    }

    /// Returns the total number of nanoseconds contained by this Duration.
    pub fn as_nanos(self) -> (r: u128)
        ensures
            r == self@,
    {
        self.0
    }

    /// Returns the total number of whole microseconds contained by this
    /// Duration.
    pub fn as_micros(self) -> (r: u128)
        ensures
            r == self@ / NANOS_PER_MICRO,
    {
        self.0 / NANOS_PER_MICRO
    }

    /// Returns this duration in microseconds as a [Decimal]: exact
    /// while the nanosecond count fits the decimal's mantissa, whole
    /// microseconds beyond that.
    pub fn as_micros_dec(self) -> (r: Decimal)
        ensures
            self@ <= crate::decimal::MAX_MANTISSA ==> r == (Decimal {
                neg: false,
                mantissa: self@,
                scale: 3,
            }),
            self@ > crate::decimal::MAX_MANTISSA ==> r == (Decimal {
                neg: false,
                mantissa: self@ / NANOS_PER_MICRO,
                scale: 0,
            }),
    {
        if self.0 <= crate::decimal::MAX_MANTISSA {
            Decimal { neg: false, mantissa: self.0, scale: 3 }
        } else {
            Decimal { neg: false, mantissa: self.0 / NANOS_PER_MICRO, scale: 0 }
        }
    }

    /// Returns the total number of whole milliseconds contained by this
    /// Duration.
    pub fn as_millis(self) -> (r: u128)
        ensures
            r == self@ / NANOS_PER_MILLI,
    {
        self.0 / NANOS_PER_MILLI
    }

    /// Returns this duration in milliseconds as a [Decimal]: exact
    /// while the nanosecond count fits the decimal's mantissa, whole
    /// milliseconds beyond that.
    pub fn as_millis_dec(self) -> (r: Decimal)
        ensures
            self@ <= crate::decimal::MAX_MANTISSA ==> r == (Decimal {
                neg: false,
                mantissa: self@,
                scale: 6,
            }),
            self@ > crate::decimal::MAX_MANTISSA ==> r == (Decimal {
                neg: false,
                mantissa: self@ / NANOS_PER_MILLI,
                scale: 0,
            }),
    {
        if self.0 <= crate::decimal::MAX_MANTISSA {
            Decimal { neg: false, mantissa: self.0, scale: 6 }
        } else {
            Decimal { neg: false, mantissa: self.0 / NANOS_PER_MILLI, scale: 0 }
        }
    }

    /// Returns the total number of whole seconds contained by this
    /// Duration.
    pub fn as_secs(self) -> (r: u128)
        ensures
            r == self@ / NANOS_PER_SEC,
    {
        self.0 / NANOS_PER_SEC
    }

    /// Returns this duration in seconds as a [Decimal]: exact while
    /// the nanosecond count fits the decimal's mantissa, whole seconds
    /// beyond that.
    pub fn as_secs_dec(self) -> (r: Decimal)
        ensures
            self@ <= crate::decimal::MAX_MANTISSA ==> r == (Decimal {
                neg: false,
                mantissa: self@,
                scale: 9,
            }),
            self@ > crate::decimal::MAX_MANTISSA ==> r == (Decimal {
                neg: false,
                mantissa: self@ / NANOS_PER_SEC,
                scale: 0,
            }),
    {
        if self.0 <= crate::decimal::MAX_MANTISSA {
            Decimal { neg: false, mantissa: self.0, scale: 9 }
        } else {
            Decimal { neg: false, mantissa: self.0 / NANOS_PER_SEC, scale: 0 }
        }
    }

    /// Returns true if this Duration is 0.
    pub fn is_zero(self) -> (r: bool)
        ensures
            r == (self@ == 0),
    {
        self.0 == 0
    }

    /// Returns a value whose rendering is lossless: parsing the text
    /// it renders to always yields `self` again.
    pub fn format_exact(self) -> (r: ExactDisplay)
        ensures
            r@ == self@,
    {
        ExactDisplay(self.0)
    }

    /// The compact human rendering with the default precision of two
    /// fractional digits.
    pub fn to_string(&self) -> (s: String)
        ensures
            s@ == spec_format_human(self@, false, 2),
    {
        format_human(*self, FormatStyle::Compact, 2)
    }

    /// The sum of two durations.
    pub fn add(self, rhs: Duration) -> (r: Duration)
        requires
            self@ + rhs@ <= u128::MAX,
        ensures
            r@ == self@ + rhs@,
    {
        Self(self.0 + rhs.0)
    }

    /// The difference of two durations.
    pub fn sub(self, rhs: Duration) -> (r: Duration)
        requires
            self@ >= rhs@,
        ensures
            r@ == self@ - rhs@,
    {
        Self(self.0 - rhs.0)
    }

    /// The duration scaled by an integer factor.
    pub fn mul(self, rhs: u128) -> (r: Duration)
        requires
            self@ * rhs <= u128::MAX,
        ensures
            r@ == self@ * rhs,
    {
        Self(self.0 * rhs)
    }

    /// The duration divided by an integer divisor.
    pub fn div(self, rhs: u128) -> (r: Duration)
        requires
            rhs != 0,
        ensures
            r@ == self@ / rhs,
    {
        Self(self.0 / rhs)
    }

    /// The remainder of dividing the duration by an integer divisor.
    pub fn rem(self, rhs: u128) -> (r: Duration)
        requires
            rhs != 0,
        ensures
            r@ == self@ % rhs,
    {
        Self(self.0 % rhs)
    }
}

impl core::str::FromStr for Duration {
    type Err = Error;

    fn from_str(s: &str) -> Result<Self, Self::Err> {
        parse(s)
    }
}

/// Parse the human-readable duration string into a standard
/// [core::time::Duration], capped at that type's maximum.
///
/// See [parse] for the accepted forms.
pub fn parse_std(input: &str) -> (r: Result<core::time::Duration, Error>)
    ensures
        match r {
            Ok(s) => crate::parse::spec_parse(input@) matches crate::parse::ParseOut::Val(v)
                && std_nanos(s) == to_std_ns(v),
            Err(e) => match e {
                Error::InvalidDuration => crate::parse::spec_parse(input@)
                    == crate::parse::ParseOut::Invalid,
                Error::ValueTooBig => crate::parse::spec_parse(input@)
                    == crate::parse::ParseOut::TooBig,
                Error::MissingUnit => crate::parse::spec_parse(input@)
                    == crate::parse::ParseOut::Missing,
                Error::IsNegative(d) => crate::parse::spec_parse(input@)
                    == crate::parse::ParseOut::Neg(d),
                Error::InvalidUnit(t) => crate::parse::spec_parse(input@)
                    matches crate::parse::ParseOut::BadUnit(tok) && t@ == tok,
            },
        },
{
    match parse(input) {
        Ok(d) => Ok(d.to_std()),
        Err(e) => Err(e),
    }
}

/// Constructs a new [Duration] from a standard duration. Equivalent to
/// [Duration::from_std].
pub fn pretty(d: core::time::Duration) -> (r: Duration)
    ensures
        r@ == std_nanos(d),
{
    Duration::from_std(d)
}

/// A [Duration] wrapper whose rendering is lossless: the text
/// [ExactDisplay::to_string] yields parses back to the identical
/// nanosecond count. The only way to obtain one is
/// [Duration::format_exact].
#[derive(Copy, Clone, Debug, Eq, PartialEq, Ord, PartialOrd, Hash, Structural)]
pub struct ExactDisplay(pub(crate) u128);

impl View for ExactDisplay {
    type V = u128;

    closed spec fn view(&self) -> u128 {
        self.0
    }
}

impl ExactDisplay {
    /// The lossless rendering itself.
    pub fn to_string(&self) -> (s: String)
        ensures
            s@ == spec_format_exact(self@),
    {
        let v = format_exact_chars(self.0);
        chars_to_string(&v)
    }
}

/// Which of the two textual forms the human formatter produces.
#[derive(Copy, Clone, Debug, Eq, PartialEq, Structural)]
pub enum FormatStyle {
    /// Compact unit suffixes: `"5m"`, `"1.5s"`.
    Compact,
    /// Spelled-out, plural-aware unit names: `"5 minutes"`,
    /// `"1.5 seconds"`.
    Spelled,
}

/// Render a [Duration] as approximate human-friendly text, truncating
/// decimals to `precision` fractional digits.
pub fn format_human(d: Duration, style: FormatStyle, precision: u32) -> (s: String)
    ensures
        s@ == spec_format_human(d@, style is Spelled, precision),
{
    let spelled = match style {
        FormatStyle::Compact => false,
        FormatStyle::Spelled => true,
    };
    let v = format_human_chars(d.0, spelled, precision);
    chars_to_string(&v)
}

} // verus!
