//! The two formatters. Both select the coarsest unit whose threshold
//! the value clears. The exact formatter never truncates: every tier
//! renders its sub-second remainder as a full-precision decimal, so
//! its output parses back to the identical nanosecond count. The
//! human formatter truncates decimals to a caller-chosen precision and
//! shows at most two subordinate whole units.

use vstd::prelude::*;
use crate::decimal::pow10;
use crate::decimal::lemma_pow10_values;
use crate::format::dec_digits;
use crate::format::full_dec_str;
use crate::format::trunc_dec_str;
use crate::format::push_str;
use crate::format::push_digits;
use crate::format::push_trunc_dec;
use crate::NANOS_PER_MICRO;
use crate::NANOS_PER_MILLI;
use crate::NANOS_PER_SEC;
use crate::NANOS_PER_MINUTE;
use crate::NANOS_PER_HOUR;
use crate::NANOS_PER_DAY;
use crate::NANOS_PER_YEAR;

verus! {

/// A subordinate whole-unit part: empty when the count is zero, else
/// a space, the digits and the compact suffix.
pub open spec fn sub_int(v: u128, short: Seq<char>) -> Seq<char> {
    if v == 0 {
        Seq::empty()
    } else {
        seq![' '] + dec_digits(v) + short
    }
}

/// The trailing seconds of the exact formatter: empty when no
/// nanoseconds remain, else a space and the full-precision seconds.
pub open spec fn sec_tail_exact(r: u128) -> Seq<char> {
    if r == 0 {
        Seq::empty()
    } else {
        seq![' '] + full_dec_str(r, NANOS_PER_SEC, 9) + seq!['s']
    }
}

/// What the exact formatter prints for `n` nanoseconds.
pub open spec fn spec_format_exact(n: u128) -> Seq<char> {
    if n < NANOS_PER_MICRO {
        dec_digits(n) + seq!['n', 's']
    } else if n < NANOS_PER_MILLI {
        full_dec_str(n, NANOS_PER_MICRO, 3) + seq!['u', 's']
    } else if n < NANOS_PER_SEC {
        full_dec_str(n, NANOS_PER_MILLI, 6) + seq!['m', 's']
    } else if n < NANOS_PER_MINUTE {
        full_dec_str(n, NANOS_PER_SEC, 9) + seq!['s']
    } else if n < NANOS_PER_HOUR {
        dec_digits(n / NANOS_PER_MINUTE) + seq!['m'] + sec_tail_exact(n % NANOS_PER_MINUTE)
    } else if n < NANOS_PER_DAY {
        let r1 = n % NANOS_PER_HOUR;
        dec_digits(n / NANOS_PER_HOUR) + seq!['h'] + sub_int(r1 / NANOS_PER_MINUTE, seq!['m'])
            + sec_tail_exact(r1 % NANOS_PER_MINUTE)
    } else if n < NANOS_PER_YEAR {
        let r1 = n % NANOS_PER_DAY;
        let r2 = r1 % NANOS_PER_HOUR;
        dec_digits(n / NANOS_PER_DAY) + seq!['d'] + sub_int(r1 / NANOS_PER_HOUR, seq!['h'])
            + sub_int(r2 / NANOS_PER_MINUTE, seq!['m']) + sec_tail_exact(r2 % NANOS_PER_MINUTE)
    } else {
        let r1 = n % NANOS_PER_YEAR;
        let r2 = r1 % NANOS_PER_DAY;
        let r3 = r2 % NANOS_PER_HOUR;
        dec_digits(n / NANOS_PER_YEAR) + seq!['y', 'r'] + sub_int(r1 / NANOS_PER_DAY, seq!['d'])
            + sub_int(r2 / NANOS_PER_HOUR, seq!['h']) + sub_int(r3 / NANOS_PER_MINUTE, seq!['m'])
            + sec_tail_exact(r3 % NANOS_PER_MINUTE)
    }
}

/// Appends a subordinate whole-unit part.
fn push_sub_int(out: &mut Vec<char>, v: u128, short: &str)
    ensures
        final(out)@ == old(out)@ + sub_int(v, short@),
{
    if v != 0 {
        out.push(' ');
        push_digits(out, v);
        push_str(out, short);
        proof {
            assert(out@ =~= old(out)@ + sub_int(v, short@));
        }
    } else {
        proof {
            assert(out@ =~= old(out)@ + sub_int(v, short@));
        }
    }
}

/// Appends the exact formatter's trailing seconds.
fn push_sec_tail_exact(out: &mut Vec<char>, r: u128)
    ensures
        final(out)@ == old(out)@ + sec_tail_exact(r),
{
    proof {
        lemma_pow10_values();
    }
    if r != 0 {
        out.push(' ');
        push_trunc_dec(out, r, 1_000_000_000, 9, 9);
        out.push('s');
        proof {
            assert(out@ =~= old(out)@ + sec_tail_exact(r));
        }
    } else {
        proof {
            assert(out@ =~= old(out)@ + sec_tail_exact(r));
        }
    }
}

/// Renders `n` nanoseconds losslessly.
pub fn format_exact_chars(n: u128) -> (out: Vec<char>)
    ensures
        out@ == spec_format_exact(n),
{
    proof {
        lemma_pow10_values();
    }
    let mut out: Vec<char> = Vec::new();
    if n < NANOS_PER_MICRO {
        push_digits(&mut out, n);
        push_str(&mut out, "ns");
        proof {
            reveal_strlit("ns");
            assert(out@ =~= spec_format_exact(n));
        }
    } else if n < NANOS_PER_MILLI {
        push_trunc_dec(&mut out, n, 1_000, 3, 3);
        push_str(&mut out, "us");
        proof {
            reveal_strlit("us");
            assert(out@ =~= spec_format_exact(n));
        }
    } else if n < NANOS_PER_SEC {
        push_trunc_dec(&mut out, n, 1_000_000, 6, 6);
        push_str(&mut out, "ms");
        proof {
            reveal_strlit("ms");
            assert(out@ =~= spec_format_exact(n));
        }
    } else if n < NANOS_PER_MINUTE {
        push_trunc_dec(&mut out, n, 1_000_000_000, 9, 9);
        push_str(&mut out, "s");
        proof {
            reveal_strlit("s");
            assert(out@ =~= spec_format_exact(n));
        }
    } else if n < NANOS_PER_HOUR {
        push_digits(&mut out, n / NANOS_PER_MINUTE);
        push_str(&mut out, "m");
        push_sec_tail_exact(&mut out, n % NANOS_PER_MINUTE);
        proof {
            reveal_strlit("m");
            assert(out@ =~= spec_format_exact(n));
        }
    } else if n < NANOS_PER_DAY {
        let r1 = n % NANOS_PER_HOUR;
        push_digits(&mut out, n / NANOS_PER_HOUR);
        push_str(&mut out, "h");
        push_sub_int(&mut out, r1 / NANOS_PER_MINUTE, "m");
        push_sec_tail_exact(&mut out, r1 % NANOS_PER_MINUTE);
        proof {
            reveal_strlit("h");
            reveal_strlit("m");
            assert(out@ =~= spec_format_exact(n));
        }
    } else if n < NANOS_PER_YEAR {
        let r1 = n % NANOS_PER_DAY;
        let r2 = r1 % NANOS_PER_HOUR;
        push_digits(&mut out, n / NANOS_PER_DAY);
        push_str(&mut out, "d");
        push_sub_int(&mut out, r1 / NANOS_PER_HOUR, "h");
        push_sub_int(&mut out, r2 / NANOS_PER_MINUTE, "m");
        push_sec_tail_exact(&mut out, r2 % NANOS_PER_MINUTE);
        proof {
            reveal_strlit("d");
            reveal_strlit("h");
            reveal_strlit("m");
            assert(out@ =~= spec_format_exact(n));
        }
    } else {
        let r1 = n % NANOS_PER_YEAR;
        let r2 = r1 % NANOS_PER_DAY;
        let r3 = r2 % NANOS_PER_HOUR;
        push_digits(&mut out, n / NANOS_PER_YEAR);
        push_str(&mut out, "yr");
        push_sub_int(&mut out, r1 / NANOS_PER_DAY, "d");
        push_sub_int(&mut out, r2 / NANOS_PER_HOUR, "h");
        push_sub_int(&mut out, r3 / NANOS_PER_MINUTE, "m");
        push_sec_tail_exact(&mut out, r3 % NANOS_PER_MINUTE);
        proof {
            reveal_strlit("yr");
            reveal_strlit("d");
            reveal_strlit("h");
            reveal_strlit("m");
            assert(out@ =~= spec_format_exact(n));
        }
    }
    out
}

/// A whole-unit magnitude in one of its two textual forms: compact
/// suffix, or spelled out with a singular special case for one.
pub open spec fn int_part(v: u128, short: Seq<char>, long: Seq<char>, spelled: bool) -> Seq<char> {
    if spelled && v == 1 {
        seq!['1', ' '] + long
    } else if spelled {
        dec_digits(v) + seq![' '] + long + seq!['s']
    } else {
        dec_digits(v) + short
    }
}

/// A decimal magnitude `ns / unit` in one of its two forms; the
/// singular form applies only to an exact unit count of one, before
/// any truncation.
pub open spec fn dec_part(
    ns: u128,
    unit: u128,
    k: nat,
    prec: u32,
    short: Seq<char>,
    long: Seq<char>,
    spelled: bool,
) -> Seq<char> {
    if spelled && ns == unit {
        seq!['1', ' '] + long
    } else {
        let keep = if (prec as nat) < k {
            prec as nat
        } else {
            k
        };
        let t = trunc_dec_str(ns, unit, k, keep);
        if spelled {
            t + seq![' '] + long + seq!['s']
        } else {
            t + short
        }
    }
}

/// A subordinate whole-unit part of the human formatter.
pub open spec fn sub_int_part(v: u128, short: Seq<char>, long: Seq<char>, spelled: bool) -> Seq<
    char,
> {
    if v == 0 {
        Seq::empty()
    } else {
        seq![' '] + int_part(v, short, long, spelled)
    }
}

/// What the human formatter prints for `n` nanoseconds: the coarsest
/// cleared unit, decimal at sub-minute tiers, with up to two
/// subordinate whole units above that.
pub open spec fn spec_format_human(n: u128, spelled: bool, prec: u32) -> Seq<char> {
    if n < NANOS_PER_MICRO {
        int_part(n, "ns"@, "nanosecond"@, spelled)
    } else if n < NANOS_PER_MILLI {
        dec_part(n, NANOS_PER_MICRO, 3, prec, "us"@, "microsecond"@, spelled)
    } else if n < NANOS_PER_SEC {
        dec_part(n, NANOS_PER_MILLI, 6, prec, "ms"@, "millisecond"@, spelled)
    } else if n < NANOS_PER_MINUTE {
        dec_part(n, NANOS_PER_SEC, 9, prec, "s"@, "second"@, spelled)
    } else if n < NANOS_PER_HOUR {
        int_part(n / NANOS_PER_MINUTE, "m"@, "minute"@, spelled) + sub_int_part(
            (n % NANOS_PER_MINUTE) / NANOS_PER_SEC,
            "s"@,
            "second"@,
            spelled,
        )
    } else if n < NANOS_PER_DAY {
        let r1 = n % NANOS_PER_HOUR;
        int_part(n / NANOS_PER_HOUR, "h"@, "hour"@, spelled) + sub_int_part(
            r1 / NANOS_PER_MINUTE,
            "m"@,
            "minute"@,
            spelled,
        ) + sub_int_part((r1 % NANOS_PER_MINUTE) / NANOS_PER_SEC, "s"@, "second"@, spelled)
    } else if n < NANOS_PER_YEAR {
        let r1 = n % NANOS_PER_DAY;
        int_part(n / NANOS_PER_DAY, "d"@, "day"@, spelled) + sub_int_part(
            r1 / NANOS_PER_HOUR,
            "h"@,
            "hour"@,
            spelled,
        ) + sub_int_part((r1 % NANOS_PER_HOUR) / NANOS_PER_MINUTE, "m"@, "minute"@, spelled)
    } else {
        let r1 = n % NANOS_PER_YEAR;
        int_part(n / NANOS_PER_YEAR, "yr"@, "year"@, spelled) + sub_int_part(
            r1 / NANOS_PER_DAY,
            "d"@,
            "day"@,
            spelled,
        ) + sub_int_part((r1 % NANOS_PER_DAY) / NANOS_PER_HOUR, "h"@, "hour"@, spelled)
    }
}

/// Appends a whole-unit magnitude in the chosen form.
fn push_int_part(out: &mut Vec<char>, v: u128, short: &str, long: &str, spelled: bool)
    ensures
        final(out)@ == old(out)@ + int_part(v, short@, long@, spelled),
{
    if spelled && v == 1 {
        out.push('1');
        out.push(' ');
        push_str(out, long);
        proof {
            assert(out@ =~= old(out)@ + int_part(v, short@, long@, spelled));
        }
    } else if spelled {
        push_digits(out, v);
        out.push(' ');
        push_str(out, long);
        out.push('s');
        proof {
            assert(out@ =~= old(out)@ + int_part(v, short@, long@, spelled));
        }
    } else {
        push_digits(out, v);
        push_str(out, short);
        proof {
            assert(out@ =~= old(out)@ + int_part(v, short@, long@, spelled));
        }
    }
}

/// Appends a decimal magnitude in the chosen form.
fn push_dec_part(
    out: &mut Vec<char>,
    ns: u128,
    unit: u128,
    k: u32,
    prec: u32,
    short: &str,
    long: &str,
    spelled: bool,
)
    requires
        k <= 11,
        unit == pow10(k as nat),
    ensures
        final(out)@ == old(out)@ + dec_part(ns, unit, k as nat, prec, short@, long@, spelled),
{
    if spelled && ns == unit {
        out.push('1');
        out.push(' ');
        push_str(out, long);
        proof {
            assert(out@ =~= old(out)@ + dec_part(ns, unit, k as nat, prec, short@, long@, spelled));
        }
    } else {
        let keep = if prec < k {
            prec
        } else {
            k
        };
        push_trunc_dec(out, ns, unit, k, keep);
        if spelled {
            out.push(' ');
            push_str(out, long);
            out.push('s');
            proof {
                assert(out@ =~= old(out)@ + dec_part(
                    ns,
                    unit,
                    k as nat,
                    prec,
                    short@,
                    long@,
                    spelled,
                ));
            }
        } else {
            push_str(out, short);
            proof {
                assert(out@ =~= old(out)@ + dec_part(
                    ns,
                    unit,
                    k as nat,
                    prec,
                    short@,
                    long@,
                    spelled,
                ));
            }
        }
    }
}

/// Appends a subordinate whole-unit part of the human formatter.
fn push_sub_int_part(out: &mut Vec<char>, v: u128, short: &str, long: &str, spelled: bool)
    ensures
        final(out)@ == old(out)@ + sub_int_part(v, short@, long@, spelled),
{
    if v != 0 {
        out.push(' ');
        push_int_part(out, v, short, long, spelled);
        proof {
            assert(out@ =~= old(out)@ + sub_int_part(v, short@, long@, spelled));
        }
    } else {
        proof {
            assert(out@ =~= old(out)@ + sub_int_part(v, short@, long@, spelled));
        }
    }
}

/// Renders `n` nanoseconds for people.
pub fn format_human_chars(n: u128, spelled: bool, prec: u32) -> (out: Vec<char>)
    ensures
        out@ == spec_format_human(n, spelled, prec),
{
    proof {
        lemma_pow10_values();
    }
    let mut out: Vec<char> = Vec::new();
    if n < NANOS_PER_MICRO {
        push_int_part(&mut out, n, "ns", "nanosecond", spelled);
    } else if n < NANOS_PER_MILLI {
        push_dec_part(&mut out, n, 1_000, 3, prec, "us", "microsecond", spelled);
    } else if n < NANOS_PER_SEC {
        push_dec_part(&mut out, n, 1_000_000, 6, prec, "ms", "millisecond", spelled);
    } else if n < NANOS_PER_MINUTE {
        push_dec_part(&mut out, n, 1_000_000_000, 9, prec, "s", "second", spelled);
    } else if n < NANOS_PER_HOUR {
        push_int_part(&mut out, n / NANOS_PER_MINUTE, "m", "minute", spelled);
        push_sub_int_part(&mut out, (n % NANOS_PER_MINUTE) / NANOS_PER_SEC, "s", "second", spelled);
        proof {
            assert(out@ =~= spec_format_human(n, spelled, prec));
        }
    } else if n < NANOS_PER_DAY {
        let r1 = n % NANOS_PER_HOUR;
        push_int_part(&mut out, n / NANOS_PER_HOUR, "h", "hour", spelled);
        push_sub_int_part(&mut out, r1 / NANOS_PER_MINUTE, "m", "minute", spelled);
        push_sub_int_part(&mut out, (r1 % NANOS_PER_MINUTE) / NANOS_PER_SEC, "s", "second", spelled);
        proof {
            assert(out@ =~= spec_format_human(n, spelled, prec));
        }
    } else if n < NANOS_PER_YEAR {
        let r1 = n % NANOS_PER_DAY;
        push_int_part(&mut out, n / NANOS_PER_DAY, "d", "day", spelled);
        push_sub_int_part(&mut out, r1 / NANOS_PER_HOUR, "h", "hour", spelled);
        push_sub_int_part(&mut out, (r1 % NANOS_PER_HOUR) / NANOS_PER_MINUTE, "m", "minute", spelled);
        proof {
            assert(out@ =~= spec_format_human(n, spelled, prec));
        }
    } else {
        let r1 = n % NANOS_PER_YEAR;
        push_int_part(&mut out, n / NANOS_PER_YEAR, "yr", "year", spelled);
        push_sub_int_part(&mut out, r1 / NANOS_PER_DAY, "d", "day", spelled);
        push_sub_int_part(&mut out, (r1 % NANOS_PER_DAY) / NANOS_PER_HOUR, "h", "hour", spelled);
        proof {
            assert(out@ =~= spec_format_human(n, spelled, prec));
        }
    }
    out
}

/// How a [crate::Decimal] displays: an optional minus sign, the whole
/// part, and — when the scale is not zero — a decimal point and the
/// zero-padded fractional digits, kept as they are (no
/// normalization). A scale beyond the decimal's range is clamped.
pub open spec fn dec_display(d: crate::Decimal) -> Seq<char> {
    let sc = if d.scale <= crate::decimal::MAX_SCALE {
        d.scale
    } else {
        crate::decimal::MAX_SCALE
    };
    let sign: Seq<char> = if d.neg {
        seq!['-']
    } else {
        Seq::empty()
    };
    if sc == 0 {
        sign + dec_digits(d.mantissa)
    } else {
        sign + dec_digits((d.mantissa as nat / pow10(sc as nat)) as u128) + seq!['.']
            + crate::format::pad_digits((d.mantissa as nat % pow10(sc as nat)) as u128, sc as nat)
    }
}

impl crate::Decimal {
    /// The decimal as text.
    pub fn to_string(&self) -> (s: String)
        ensures
            s@ == dec_display(*self),
    {
        let sc = if self.scale <= crate::decimal::MAX_SCALE {
            self.scale
        } else {
            crate::decimal::MAX_SCALE
        };
        let mut out: Vec<char> = Vec::new();
        if self.neg {
            out.push('-');
        }
        if sc == 0 {
            push_digits(&mut out, self.mantissa);
            proof {
                assert(out@ =~= dec_display(*self));
            }
        } else {
            proof {
                lemma_pow10_values();
                crate::decimal::lemma_pow10_increases(sc as nat, 28);
                crate::decimal::lemma_pow10_pos(sc as nat);
            }
            let p = crate::decimal::pow10_u128(sc);
            push_digits(&mut out, self.mantissa / p);
            out.push('.');
            crate::format::push_pad(&mut out, self.mantissa % p, sc);
            proof {
                assert(out@ =~= dec_display(*self));
            }
        }
        crate::chars::chars_to_string(&out)
    }
}

} // verus!
