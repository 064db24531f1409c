//! The duration parser: drives the numeric lexer and the unit table
//! across the input, accumulating nanosecond contributions with
//! overflow checking. Components may be separated by a comma, by
//! spaces and tabs, or by nothing at all; an input that is one bare
//! number is read as milliseconds.

use vstd::prelude::*;
use crate::chars::is_ws;
use crate::chars::is_sp;
use crate::chars::is_alpha;
use crate::chars::ws_char;
use crate::chars::sp_char;
use crate::chars::alpha_test;
use crate::chars::str_to_chars;
use crate::chars::chars_to_string;
use crate::decimal::Decimal;
use crate::decimal::MAX_MANTISSA;
use crate::decimal::lemma_pow10_values;
use crate::error::Error;
use crate::lexer::spec_lex;
use crate::lexer::exec_lex;
use crate::lexer::lemma_lex_wf;
use crate::units::match_unit;
use crate::units::exec_match_unit;
use crate::units::lemma_match_unit_advances;
use crate::units::comp_ns;
use crate::units::mul_unit;
use crate::Duration;
use vstd::arithmetic::div_mod::lemma_div_nonincreasing;
use vstd::arithmetic::mul::lemma_mul_upper_bound;

verus! {

/// The first position at or after `i` (and before `hi`) that is not
/// whitespace.
pub open spec fn skip_ws(s: Seq<char>, i: int, hi: int) -> int
    decreases hi - i,
{
    if i < 0 || i >= hi || hi > s.len() {
        i
    } else if is_ws(s[i]) {
        skip_ws(s, i + 1, hi)
    } else {
        i
    }
}

pub proof fn lemma_skip_ws(s: Seq<char>, i: int, hi: int)
    requires
        0 <= i <= hi <= s.len(),
    ensures
        i <= skip_ws(s, i, hi) <= hi,
        forall|k: int| i <= k < skip_ws(s, i, hi) ==> is_ws(#[trigger] s[k]),
        skip_ws(s, i, hi) < hi ==> !is_ws(s[skip_ws(s, i, hi)]),
    decreases hi - i,
{
    if i < hi && is_ws(s[i]) {
        lemma_skip_ws(s, i + 1, hi);
    }
}

/// The first position at or after `i` that is not a space or tab.
pub open spec fn skip_sp(s: Seq<char>, i: int, hi: int) -> int
    decreases hi - i,
{
    if i < 0 || i >= hi || hi > s.len() {
        i
    } else if is_sp(s[i]) {
        skip_sp(s, i + 1, hi)
    } else {
        i
    }
}

pub proof fn lemma_skip_sp(s: Seq<char>, i: int, hi: int)
    requires
        0 <= i <= hi <= s.len(),
    ensures
        i <= skip_sp(s, i, hi) <= hi,
    decreases hi - i,
{
    if i < hi && is_sp(s[i]) {
        lemma_skip_sp(s, i + 1, hi);
    }
}

/// Where the input ends once trailing whitespace is dropped.
pub open spec fn trim_end(s: Seq<char>, j: int) -> int
    decreases j,
{
    if j <= 0 || j > s.len() {
        0
    } else if is_ws(s[j - 1]) {
        trim_end(s, j - 1)
    } else {
        j
    }
}

pub proof fn lemma_trim_end(s: Seq<char>, j: int)
    requires
        0 <= j <= s.len(),
    ensures
        0 <= trim_end(s, j) <= j,
        trim_end(s, j) > 0 ==> !is_ws(s[trim_end(s, j) - 1]),
    decreases j,
{
    if j > 0 && is_ws(s[j - 1]) {
        lemma_trim_end(s, j - 1);
    }
}

/// Where the whitespace-free run starting at `i` ends.
pub open spec fn token_end(s: Seq<char>, i: int, hi: int) -> int
    decreases hi - i,
{
    if i < 0 || i >= hi || hi > s.len() {
        i
    } else if !is_ws(s[i]) {
        token_end(s, i + 1, hi)
    } else {
        i
    }
}

pub proof fn lemma_token_end(s: Seq<char>, i: int, hi: int)
    requires
        0 <= i <= hi <= s.len(),
    ensures
        i <= token_end(s, i, hi) <= hi,
    decreases hi - i,
{
    if i < hi && !is_ws(s[i]) {
        lemma_token_end(s, i + 1, hi);
    }
}

/// The first whitespace-delimited token of `s[i..hi)`: what an
/// invalid-unit error reports.
pub open spec fn first_token(s: Seq<char>, i: int, hi: int) -> Seq<char> {
    let a = skip_ws(s, i, hi);
    s.subrange(a, token_end(s, a, hi))
}

/// Where the next component starts: one optional comma, then any run
/// of spaces and tabs — or nothing at all.
pub open spec fn sep_end(s: Seq<char>, i: int, hi: int) -> int {
    if 0 <= i < hi <= s.len() && s[i] == ',' {
        skip_sp(s, i + 1, hi)
    } else {
        skip_sp(s, i, hi)
    }
}

pub proof fn lemma_sep_end(s: Seq<char>, i: int, hi: int)
    requires
        0 <= i <= hi <= s.len(),
    ensures
        i <= sep_end(s, i, hi) <= hi,
{
    if 0 <= i < hi && s[i] == ',' {
        lemma_skip_sp(s, i + 1, hi);
    } else {
        lemma_skip_sp(s, i, hi);
    }
}

/// What parsing yields: a nanosecond count, or one of the error
/// taxonomy's causes.
pub enum ParseOut {
    Val(u128),
    TooBig,
    Neg(Decimal),
    Missing,
    BadUnit(Seq<char>),
    Invalid,
}

/// One component after another from position `i`, each added onto
/// `acc`: the meaning of the component loop.
pub open spec fn spec_components(s: Seq<char>, i: int, hi: int, acc: u128) -> ParseOut
    decreases hi - i,
    when 0 <= i <= hi <= s.len()
    via spec_components_dec
{
    if i >= hi {
        ParseOut::Val(acc)
    } else {
        match spec_lex(s, i, hi) {
            None => ParseOut::Invalid,
            Some(lx) => {
                if lx.over {
                    ParseOut::TooBig
                } else if lx.neg {
                    ParseOut::Neg(Decimal { neg: true, mantissa: lx.mant, scale: lx.scale })
                } else {
                    let u0 = skip_sp(s, lx.end, hi);
                    if u0 >= hi {
                        ParseOut::Missing
                    } else {
                        match match_unit(s, u0, hi) {
                            None => ParseOut::BadUnit(first_token(s, u0, hi)),
                            Some(p) => {
                                if p.0 < hi && is_alpha(s[p.0]) {
                                    ParseOut::BadUnit(first_token(s, u0, hi))
                                } else {
                                    let c = comp_ns(lx.mant, lx.scale, p.1.mult);
                                    if acc + c > u128::MAX {
                                        ParseOut::TooBig
                                    } else {
                                        spec_components(
                                            s,
                                            sep_end(s, p.0, hi),
                                            hi,
                                            (acc + c) as u128,
                                        )
                                    }
                                }
                            },
                        }
                    }
                }
            },
        }
    }
}

#[via_fn]
proof fn spec_components_dec(s: Seq<char>, i: int, hi: int, acc: u128) {
    if 0 <= i <= hi <= s.len() && i < hi && spec_lex(s, i, hi) is Some {
        lemma_lex_wf(s, i, hi);
        let lx = spec_lex(s, i, hi)->0;
        lemma_skip_sp(s, lx.end, hi);
        let u0 = skip_sp(s, lx.end, hi);
        if u0 < hi && match_unit(s, u0, hi) is Some {
            lemma_match_unit_advances(s, u0, hi, 0);
            let p = match_unit(s, u0, hi)->0;
            lemma_sep_end(s, p.0, hi);
        }
    }
}

/// What `parse` means: trim the input; an empty remainder is invalid;
/// a remainder that is one bare number is that many milliseconds;
/// otherwise the component loop reads it all.
pub open spec fn spec_parse(s: Seq<char>) -> ParseOut {
    let lo = skip_ws(s, 0, s.len() as int);
    let hi = trim_end(s, s.len() as int);
    if lo >= hi {
        ParseOut::Invalid
    } else if spec_lex(s, lo, hi) is Some && (spec_lex(s, lo, hi)->0).end == hi {
        let lx = spec_lex(s, lo, hi)->0;
        if lx.over {
            ParseOut::TooBig
        } else if lx.neg {
            ParseOut::Neg(Decimal { neg: true, mantissa: lx.mant, scale: lx.scale })
        } else {
            ParseOut::Val(comp_ns(lx.mant, lx.scale, 1_000_000) as u128)
        }
    } else {
        spec_components(s, lo, hi, 0)
    }
}

fn exec_skip_ws(v: &Vec<char>, i: usize, hi: usize) -> (j: usize)
    requires
        i <= hi <= v@.len(),
    ensures
        j == skip_ws(v@, i as int, hi as int),
        i <= j <= hi,
{
    proof {
        lemma_skip_ws(v@, i as int, hi as int);
    }
    let mut j: usize = i;
    while j < hi && ws_char(v[j])
        invariant
            i <= j <= hi <= v@.len(),
            skip_ws(v@, i as int, hi as int) == skip_ws(v@, j as int, hi as int),
        decreases hi - j,
    {
        j = j + 1;
    }
    j
}

fn exec_skip_sp(v: &Vec<char>, i: usize, hi: usize) -> (j: usize)
    requires
        i <= hi <= v@.len(),
    ensures
        j == skip_sp(v@, i as int, hi as int),
        i <= j <= hi,
{
    proof {
        lemma_skip_sp(v@, i as int, hi as int);
    }
    let mut j: usize = i;
    while j < hi && sp_char(v[j])
        invariant
            i <= j <= hi <= v@.len(),
            skip_sp(v@, i as int, hi as int) == skip_sp(v@, j as int, hi as int),
        decreases hi - j,
    {
        j = j + 1;
    }
    j
}

fn exec_trim_end(v: &Vec<char>, n: usize) -> (h: usize)
    requires
        n <= v@.len(),
    ensures
        h == trim_end(v@, n as int),
        h <= n,
{
    proof {
        lemma_trim_end(v@, n as int);
    }
    let mut h: usize = n;
    while h > 0 && ws_char(v[h - 1])
        invariant
            h <= n <= v@.len(),
            trim_end(v@, n as int) == trim_end(v@, h as int),
        decreases h,
    {
        h = h - 1;
    }
    h
}

fn exec_token_end(v: &Vec<char>, i: usize, hi: usize) -> (j: usize)
    requires
        i <= hi <= v@.len(),
    ensures
        j == token_end(v@, i as int, hi as int),
        i <= j <= hi,
{
    proof {
        lemma_token_end(v@, i as int, hi as int);
    }
    let mut j: usize = i;
    while j < hi && !ws_char(v[j])
        invariant
            i <= j <= hi <= v@.len(),
            token_end(v@, i as int, hi as int) == token_end(v@, j as int, hi as int),
        decreases hi - j,
    {
        j = j + 1;
    }
    j
}

/// Builds the offending-token text an invalid-unit error carries.
fn token_string(v: &Vec<char>, i: usize, hi: usize) -> (t: String)
    requires
        i <= hi <= v@.len(),
    ensures
        t@ == first_token(v@, i as int, hi as int),
{
    let a = exec_skip_ws(v, i, hi);
    let b = exec_token_end(v, a, hi);
    let mut w: Vec<char> = Vec::new();
    let mut k: usize = a;
    while k < b
        invariant
            a <= k <= b <= v@.len(),
            w@ == v@.subrange(a as int, k as int),
        decreases b - k,
    {
        w.push(v[k]);
        proof {
            assert(w@ =~= v@.subrange(a as int, k + 1));
        }
        k = k + 1;
    }
    proof {
        assert(w@ =~= v@.subrange(a as int, b as int));
    }
    chars_to_string(&w)
}

/// A component's contribution never exceeds `u128::MAX` when the unit
/// is milliseconds.
proof fn lemma_bare_fits(m: u128, sc: u32)
    requires
        m <= MAX_MANTISSA,
    ensures
        comp_ns(m, sc, 1_000_000) <= u128::MAX,
{
    lemma_pow10_values();
    crate::decimal::lemma_pow10_pos(sc as nat);
    lemma_mul_upper_bound(m as int, MAX_MANTISSA as int, 1_000_000, 1_000_000);
    lemma_div_nonincreasing((m * 1_000_000) as int, crate::decimal::pow10(sc as nat) as int);
}

/// Parse a human-readable duration text into a [Duration].
///
/// The text is one or more `<number> <unit>` components, separated by
/// commas, whitespace, or nothing; a bare number alone is read as
/// milliseconds. The result and every rejection are exactly those of
/// [spec_parse] on the text's characters.
pub fn parse(input: &str) -> (r: Result<Duration, Error>)
    ensures
        match r {
            Ok(d) => spec_parse(input@) == ParseOut::Val(d@),
            Err(e) => match e {
                Error::InvalidDuration => spec_parse(input@) == ParseOut::Invalid,
                Error::ValueTooBig => spec_parse(input@) == ParseOut::TooBig,
                Error::MissingUnit => spec_parse(input@) == ParseOut::Missing,
                Error::IsNegative(d) => spec_parse(input@) == ParseOut::Neg(d),
                Error::InvalidUnit(t) => spec_parse(input@) matches ParseOut::BadUnit(tok) && t@
                    == tok,
            },
        },
{
    let v = str_to_chars(input);
    let n = v.len();
    let lo = exec_skip_ws(&v, 0, n);
    let hi = exec_trim_end(&v, n);
    if lo >= hi {
        return Err(Error::InvalidDuration);
    }
    match exec_lex(&v, lo, hi) {
        Some(x) => {
            if x.end == hi {
                if x.over {
                    return Err(Error::ValueTooBig);
                }
                if x.neg {
                    return Err(
                        Error::IsNegative(Decimal { neg: true, mantissa: x.mant, scale: x.scale }),
                    );
                }
                proof {
                    lemma_lex_wf(v@, lo as int, hi as int);
                    lemma_pow10_values();
                    lemma_bare_fits(x.mant, x.scale);
                }
                match mul_unit(x.mant, x.scale, 1_000_000, 1, 6) {
                    Some(ns) => {
                        return Ok(Duration::from_nanos(ns));
                    },
                    None => {
                        proof {
                            assert(false);
                        }
                        return Err(Error::ValueTooBig);
                    },
                }
            }
        },
        None => {},
    }
    let ghost s = v@;
    proof {
        assert(spec_parse(input@) == spec_components(s, lo as int, hi as int, 0));
    }
    let mut i: usize = lo;
    let mut acc: u128 = 0;
    while i < hi
        invariant
            lo <= i <= hi <= v@.len(),
            v@ == input@,
            s == v@,
            spec_parse(input@) == spec_components(s, i as int, hi as int, acc),
        decreases hi - i,
    {
        let ghost i0 = i as int;
        let ghost acc0 = acc;
        match exec_lex(&v, i, hi) {
            None => {
                return Err(Error::InvalidDuration);
            },
            Some(x) => {
                proof {
                    lemma_lex_wf(s, i as int, hi as int);
                }
                if x.over {
                    return Err(Error::ValueTooBig);
                }
                if x.neg {
                    return Err(
                        Error::IsNegative(Decimal { neg: true, mantissa: x.mant, scale: x.scale }),
                    );
                }
                let u0 = exec_skip_sp(&v, x.end, hi);
                if u0 >= hi {
                    return Err(Error::MissingUnit);
                }
                match exec_match_unit(&v, u0, hi) {
                    None => {
                        return Err(Error::InvalidUnit(token_string(&v, u0, hi)));
                    },
                    Some(u) => {
                        proof {
                            lemma_match_unit_advances(s, u0 as int, hi as int, 0);
                        }
                        let uend = u.0;
                        if uend < hi && alpha_test(v[uend]) {
                            return Err(Error::InvalidUnit(token_string(&v, u0, hi)));
                        }
                        match mul_unit(x.mant, x.scale, u.1, u.2, u.3) {
                            None => {
                                return Err(Error::ValueTooBig);
                            },
                            Some(c) => {
                                match acc.checked_add(c) {
                                    None => {
                                        return Err(Error::ValueTooBig);
                                    },
                                    Some(a2) => {
                                        acc = a2;
                                        i = exec_sep_end(&v, uend, hi);
                                        proof {
                                            assert(spec_components(s, i0, hi as int, acc0)
                                                == spec_components(s, i as int, hi as int, acc));
                                        }
                                    },
                                }
                            },
                        }
                    },
                }
            },
        }
    }
    Ok(Duration::from_nanos(acc))
}

fn exec_sep_end(v: &Vec<char>, i: usize, hi: usize) -> (j: usize)
    requires
        i <= hi <= v@.len(),
    ensures
        j == sep_end(v@, i as int, hi as int),
        i <= j <= hi,
{
    proof {
        lemma_sep_end(v@, i as int, hi as int);
    }
    if i < hi && v[i] == ',' {
        exec_skip_sp(v, i + 1, hi)
    } else {
        exec_skip_sp(v, i, hi)
    }
}

} // verus!
