//! The parse error taxonomy. Parsing is all-or-nothing: any component
//! failure discards the whole in-progress accumulation and reports one
//! of these causes.

use vstd::prelude::*;
use vstd::string::StringExecFns;
use crate::decimal::Decimal;

verus! {

/// Why a duration text was rejected.
#[derive(Clone, Debug, PartialEq, Eq)]
pub enum Error {
    /// Catch-all for values that aren't proper durations.
    InvalidDuration,
    /// A numeric quantity exceeds the representable range at some
    /// stage: lexing, unit multiplication, or final accumulation.
    ValueTooBig,
    /// A number stands with no following unit text, and the number is
    /// not the sole token of the input (a bare number is milliseconds,
    /// not an error).
    MissingUnit,
    /// A syntactically valid decimal number was negative; carries the
    /// parsed decimal for diagnostic display.
    IsNegative(Decimal),
    /// Unit text is present but unrecognized, or recognized but
    /// immediately followed by more letters; carries the offending
    /// token.
    InvalidUnit(String),
}

/// The diagnostic text of each error cause.
pub open spec fn error_message(e: &Error) -> Seq<char> {
    match e {
        Error::InvalidDuration => "invalid duration"@,
        Error::ValueTooBig => "the duration value is too big to store"@,
        Error::MissingUnit => "missing unit after number"@,
        Error::IsNegative(d) => "durations cannot be negative ("@ + crate::render::dec_display(*d)
            + ")"@,
        Error::InvalidUnit(t) => "invalid duration unit `"@ + t@ + "`"@,
    }
}

impl Error {
    /// A human-readable description of the error.
    pub fn message(&self) -> (s: String)
        ensures
            s@ == error_message(self),
    {
        match self {
            Error::InvalidDuration => String::from_str("invalid duration"),
            Error::ValueTooBig => String::from_str("the duration value is too big to store"),
            Error::MissingUnit => String::from_str("missing unit after number"),
            Error::IsNegative(d) => {
                let mut s = String::from_str("durations cannot be negative (");
                let dv = d.to_string();
                s.append(dv.as_str());
                s.append(")");
                proof {
                    assert(s@ =~= error_message(self));
                }
                s
            },
            Error::InvalidUnit(t) => {
                let mut s = String::from_str("invalid duration unit `");
                s.append(t.as_str());
                s.append("`");
                proof {
                    assert(s@ =~= error_message(self));
                }
                s
            },
        }
    }
}

} // verus!
