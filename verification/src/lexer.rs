//! The numeric lexer: recognizes `[sign]digits[.digits]`,
//! `[sign]digits.`, `[sign].digits` or `[sign]digits` at a position of
//! the text and folds the digits into an intermediate decimal. An
//! integer part larger than the decimal's mantissa can hold is an
//! overflow; fractional digits beyond what it can hold are truncated.

use vstd::prelude::*;
use crate::chars::is_digit;
use crate::chars::digit_val;
use crate::chars::digit_test;
use crate::chars::digit_value;
use crate::decimal::MAX_MANTISSA;
use crate::decimal::MAX_SCALE;

verus! {

/// Where the run of digits starting at `i` ends (exclusive), never
/// passing `hi`.
pub open spec fn digits_end(s: Seq<char>, i: int, hi: int) -> int
    decreases hi - i,
{
    if i < 0 || i >= hi || hi > s.len() {
        i
    } else if is_digit(s[i]) {
        digits_end(s, i + 1, hi)
    } else {
        i
    }
}

pub proof fn lemma_digits_end(s: Seq<char>, i: int, hi: int)
    requires
        0 <= i <= hi <= s.len(),
    ensures
        i <= digits_end(s, i, hi) <= hi,
        forall|k: int| i <= k < digits_end(s, i, hi) ==> is_digit(#[trigger] s[k]),
        digits_end(s, i, hi) < hi ==> !is_digit(s[digits_end(s, i, hi)]),
    decreases hi - i,
{
    if i < hi && is_digit(s[i]) {
        lemma_digits_end(s, i + 1, hi);
    }
}

/// The value of the digit run `s[i..j)`, read in base ten.
pub open spec fn int_val(s: Seq<char>, i: int, j: int) -> nat
    decreases j - i,
{
    if i >= j {
        0
    } else {
        int_val(s, i, j - 1) * 10 + digit_val(s[j - 1]) as nat
    }
}

/// Reading one more digit never shrinks the value.
pub proof fn lemma_int_val_grows(s: Seq<char>, i: int, k: int, j: int)
    requires
        i <= k <= j,
    ensures
        int_val(s, i, k) <= int_val(s, i, j),
    decreases j - k,
{
    if k < j {
        lemma_int_val_grows(s, i, k, j - 1);
        assert(int_val(s, i, j - 1) * 10 >= int_val(s, i, j - 1)) by (nonlinear_arith);
    }
}

/// Folding fractional digits into a mantissa: digits are taken while
/// the scale and the mantissa still have room, the rest is truncated.
pub open spec fn frac_fold(s: Seq<char>, i: int, j: int, m: u128, sc: u32) -> (u128, u32)
    decreases j - i,
{
    if i >= j || sc >= MAX_SCALE {
        (m, sc)
    } else if m * 10 + digit_val(s[i]) as nat <= MAX_MANTISSA {
        frac_fold(s, i + 1, j, (m * 10 + digit_val(s[i])) as u128, (sc + 1) as u32)
    } else {
        (m, sc)
    }
}

pub proof fn lemma_frac_fold_wf(s: Seq<char>, i: int, j: int, m: u128, sc: u32)
    requires
        m <= MAX_MANTISSA,
        sc <= MAX_SCALE,
    ensures
        frac_fold(s, i, j, m, sc).0 <= MAX_MANTISSA,
        frac_fold(s, i, j, m, sc).1 <= MAX_SCALE,
    decreases j - i,
{
    if i < j && sc < MAX_SCALE && m * 10 + digit_val(s[i]) as nat <= MAX_MANTISSA {
        lemma_frac_fold_wf(s, i + 1, j, (m * 10 + digit_val(s[i])) as u128, (sc + 1) as u32);
    }
}

/// What the lexer found: where the literal ends, its sign, its digits
/// as a mantissa and scale, and whether the integer part overflowed
/// the mantissa.
pub struct LexOut {
    pub end: int,
    pub neg: bool,
    pub mant: u128,
    pub scale: u32,
    pub over: bool,
}

/// The numeric lexer: recognizes one decimal literal at `i`, reading
/// no further than `hi`. Digits must stand on at least one side of the
/// optional decimal point.
pub open spec fn spec_lex(s: Seq<char>, i: int, hi: int) -> Option<LexOut> {
    let sign = i < hi && (s[i] == '-' || s[i] == '+');
    let neg = i < hi && s[i] == '-';
    let i1 = if sign {
        i + 1
    } else {
        i
    };
    let i2 = digits_end(s, i1, hi);
    if i2 > i1 {
        let iv = int_val(s, i1, i2);
        if i2 < hi && s[i2] == '.' {
            let i4 = digits_end(s, i2 + 1, hi);
            if iv > MAX_MANTISSA {
                Some(LexOut { end: i4, neg, mant: 0, scale: 0, over: true })
            } else {
                let f = frac_fold(s, i2 + 1, i4, iv as u128, 0);
                Some(LexOut { end: i4, neg, mant: f.0, scale: f.1, over: false })
            }
        } else {
            if iv > MAX_MANTISSA {
                Some(LexOut { end: i2, neg, mant: 0, scale: 0, over: true })
            } else {
                Some(LexOut { end: i2, neg, mant: iv as u128, scale: 0, over: false })
            }
        }
    } else if i1 < hi && s[i1] == '.' && digits_end(s, i1 + 1, hi) > i1 + 1 {
        let i4 = digits_end(s, i1 + 1, hi);
        let f = frac_fold(s, i1 + 1, i4, 0, 0);
        Some(LexOut { end: i4, neg, mant: f.0, scale: f.1, over: false })
    } else {
        None
    }
}

/// A recognized literal ends after `i` and within `hi`, with a
/// well-formed mantissa and scale.
pub proof fn lemma_lex_wf(s: Seq<char>, i: int, hi: int)
    requires
        0 <= i <= hi <= s.len(),
        spec_lex(s, i, hi) is Some,
    ensures
        ({
            let lx = spec_lex(s, i, hi)->0;
            &&& i < lx.end <= hi
            &&& lx.mant <= MAX_MANTISSA
            &&& lx.scale <= MAX_SCALE
        }),
{
    let sign = i < hi && (s[i] == '-' || s[i] == '+');
    let i1 = if sign {
        i + 1
    } else {
        i
    };
    lemma_digits_end(s, i1, hi);
    let i2 = digits_end(s, i1, hi);
    if i2 > i1 {
        if i2 < hi && s[i2] == '.' {
            lemma_digits_end(s, i2 + 1, hi);
            let iv = int_val(s, i1, i2);
            if iv <= MAX_MANTISSA {
                lemma_frac_fold_wf(s, i2 + 1, digits_end(s, i2 + 1, hi), iv as u128, 0);
            }
        }
    } else {
        lemma_digits_end(s, i1 + 1, hi);
        lemma_frac_fold_wf(s, i1 + 1, digits_end(s, i1 + 1, hi), 0, 0);
    }
}

/// Finds the end of the digit run starting at `i`.
pub fn exec_digits_end(v: &Vec<char>, i: usize, hi: usize) -> (j: usize)
    requires
        i <= hi <= v@.len(),
    ensures
        j == digits_end(v@, i as int, hi as int),
        i <= j <= hi,
{
    proof {
        lemma_digits_end(v@, i as int, hi as int);
    }
    let mut j: usize = i;
    while j < hi && digit_test(v[j])
        invariant
            i <= j <= hi <= v@.len(),
            digits_end(v@, i as int, hi as int) == digits_end(v@, j as int, hi as int),
        decreases hi - j,
    {
        j = j + 1;
    }
    j
}

/// Folds the digit run `v[i..j)` into an integer; `None` means the
/// value exceeds the mantissa bound.
pub fn exec_int_val(v: &Vec<char>, i: usize, j: usize) -> (r: Option<u128>)
    requires
        i <= j <= v@.len(),
        forall|k: int| i <= k < j ==> is_digit(#[trigger] v@[k]),
    ensures
        match r {
            Some(m) => m == int_val(v@, i as int, j as int) && m <= MAX_MANTISSA,
            None => int_val(v@, i as int, j as int) > MAX_MANTISSA,
        },
{
    let mut m: u128 = 0;
    let mut k: usize = i;
    while k < j
        invariant
            i <= k <= j <= v@.len(),
            forall|q: int| i <= q < j ==> is_digit(#[trigger] v@[q]),
            m == int_val(v@, i as int, k as int),
            m <= MAX_MANTISSA,
        decreases j - k,
    {
        let d = digit_value(v[k]);
        if m > (MAX_MANTISSA - d) / 10 {
            proof {
                assert(m * 10 + d > MAX_MANTISSA) by (nonlinear_arith)
                    requires
                        m > (MAX_MANTISSA - d) / 10 && d < 10,
                ;
                lemma_int_val_grows(v@, i as int, k + 1, j as int);
            }
            return None;
        }
        proof {
            assert(m * 10 + d <= MAX_MANTISSA) by (nonlinear_arith)
                requires
                    m <= (MAX_MANTISSA - d) / 10 && d < 10,
            ;
        }
        m = m * 10 + d;
        k = k + 1;
    }
    Some(m)
}

/// Folds fractional digits onto a mantissa, truncating what no longer
/// fits.
pub fn exec_frac_fold(v: &Vec<char>, i: usize, j: usize, m0: u128, sc0: u32) -> (r: (u128, u32))
    requires
        i <= j <= v@.len(),
        forall|k: int| i <= k < j ==> is_digit(#[trigger] v@[k]),
        m0 <= MAX_MANTISSA,
        sc0 <= MAX_SCALE,
    ensures
        r == frac_fold(v@, i as int, j as int, m0, sc0),
        r.0 <= MAX_MANTISSA,
        r.1 <= MAX_SCALE,
{
    let mut m: u128 = m0;
    let mut sc: u32 = sc0;
    let mut k: usize = i;
    proof {
        lemma_frac_fold_wf(v@, i as int, j as int, m0, sc0);
    }
    while k < j
        invariant
            i <= k <= j <= v@.len(),
            forall|q: int| i <= q < j ==> is_digit(#[trigger] v@[q]),
            m <= MAX_MANTISSA,
            sc <= MAX_SCALE,
            frac_fold(v@, i as int, j as int, m0, sc0) == frac_fold(v@, k as int, j as int, m, sc),
        decreases j - k,
    {
        if sc >= MAX_SCALE {
            return (m, sc);
        }
        let d = digit_value(v[k]);
        if m > (MAX_MANTISSA - d) / 10 {
            proof {
                assert(m * 10 + d > MAX_MANTISSA) by (nonlinear_arith)
                    requires
                        m > (MAX_MANTISSA - d) / 10 && d < 10,
                ;
            }
            return (m, sc);
        }
        proof {
            assert(m * 10 + d <= MAX_MANTISSA) by (nonlinear_arith)
                requires
                    m <= (MAX_MANTISSA - d) / 10 && d < 10,
            ;
        }
        m = m * 10 + d;
        sc = sc + 1;
        k = k + 1;
    }
    (m, sc)
}

/// What the executable lexer hands back.
pub struct Lexed {
    pub end: usize,
    pub neg: bool,
    pub mant: u128,
    pub scale: u32,
    pub over: bool,
}

pub open spec fn lexed_matches(r: Lexed, lx: LexOut) -> bool {
    r.end == lx.end && r.neg == lx.neg && r.mant == lx.mant && r.scale == lx.scale && r.over
        == lx.over
}

/// The executable numeric lexer, mirroring `spec_lex`.
pub fn exec_lex(v: &Vec<char>, i: usize, hi: usize) -> (r: Option<Lexed>)
    requires
        i <= hi <= v@.len(),
    ensures
        match r {
            Some(x) => spec_lex(v@, i as int, hi as int) matches Some(lx) && lexed_matches(x, lx),
            None => spec_lex(v@, i as int, hi as int) is None,
        },
{
    let mut i1: usize = i;
    let mut neg: bool = false;
    if i < hi && (v[i] == '-' || v[i] == '+') {
        neg = v[i] == '-';
        i1 = i + 1;
    }
    let i2 = exec_digits_end(v, i1, hi);
    proof {
        lemma_digits_end(v@, i1 as int, hi as int);
    }
    if i2 > i1 {
        let iv = exec_int_val(v, i1, i2);
        if i2 < hi && v[i2] == '.' {
            let i4 = exec_digits_end(v, i2 + 1, hi);
            proof {
                lemma_digits_end(v@, i2 + 1, hi as int);
            }
            match iv {
                None => Some(Lexed { end: i4, neg, mant: 0, scale: 0, over: true }),
                Some(m) => {
                    let f = exec_frac_fold(v, i2 + 1, i4, m, 0);
                    Some(Lexed { end: i4, neg, mant: f.0, scale: f.1, over: false })
                },
            }
        } else {
            match iv {
                None => Some(Lexed { end: i2, neg, mant: 0, scale: 0, over: true }),
                Some(m) => Some(Lexed { end: i2, neg, mant: m, scale: 0, over: false }),
            }
        }
    } else if i1 < hi && v[i1] == '.' {
        let i4 = exec_digits_end(v, i1 + 1, hi);
        proof {
            lemma_digits_end(v@, i1 + 1, hi as int);
        }
        if i4 > i1 + 1 {
            let f = exec_frac_fold(v, i1 + 1, i4, 0, 0);
            Some(Lexed { end: i4, neg, mant: f.0, scale: f.1, over: false })
        } else {
            None
        }
    } else {
        None
    }
}

} // verus!
