//! The lemmas behind the exact formatter's round-trip guarantee: the
//! lexer and the unit table recover, from a rendered component, the
//! exact pieces the formatter put in.

use vstd::prelude::*;
use crate::chars::is_digit;
use crate::chars::is_ws;
use crate::chars::is_sp;
use crate::chars::is_alpha;
use crate::chars::digit_char;
use crate::chars::digit_val;
use crate::decimal::pow10;
use crate::decimal::lemma_pow10_pos;
use crate::decimal::lemma_pow10_adds;
use crate::decimal::lemma_pow10_values;
use crate::decimal::lemma_pow10_increases;
use crate::decimal::MAX_MANTISSA;
use crate::format::dec_digits;
use crate::format::pad_digits;
use crate::format::lemma_pad_len;
use crate::lexer::digits_end;
use crate::lexer::int_val;
use vstd::arithmetic::div_mod::lemma_div_basics;
use vstd::arithmetic::div_mod::lemma_fundamental_div_mod;
use vstd::arithmetic::div_mod::lemma_mod_bound;
use vstd::arithmetic::div_mod::lemma_div_is_ordered;

verus! {

/// Every character a digit rendering produces is a digit, and there
/// is at least one.
pub proof fn lemma_dec_digits_are_digits(n: u128)
    ensures
        dec_digits(n).len() >= 1,
        forall|k: int| 0 <= k < dec_digits(n).len() ==> is_digit(#[trigger] dec_digits(n)[k]),
    decreases n,
{
    if n >= 10 {
        assert(n / 10 < n) by (nonlinear_arith)
            requires
                n >= 10,
        ;
        lemma_dec_digits_are_digits(n / 10);
    }
}

/// So is every character of a zero-padded fraction.
pub proof fn lemma_pad_digits_are_digits(r: u128, k: nat)
    ensures
        forall|q: int| 0 <= q < pad_digits(r, k).len() ==> is_digit(#[trigger] pad_digits(r, k)[q]),
    decreases k,
{
    lemma_pad_len(r, k);
    if k > 0 {
        lemma_pad_digits_are_digits(r / 10, (k - 1) as nat);
        lemma_pad_len(r / 10, (k - 1) as nat);
    }
}

/// A digit run ends exactly where the digits stop.
pub proof fn lemma_digits_end_exact(s: Seq<char>, i: int, j: int, hi: int)
    requires
        0 <= i <= j <= hi <= s.len(),
        forall|k: int| i <= k < j ==> is_digit(#[trigger] s[k]),
        j == hi || !is_digit(s[j]),
    ensures
        digits_end(s, i, hi) == j,
    decreases j - i,
{
    if i < j {
        lemma_digits_end_exact(s, i + 1, j, hi);
    }
}

/// Reading the rendering of `n` back as a digit run yields `n`.
pub proof fn lemma_digits_value(s: Seq<char>, i: int, j: int, n: u128)
    requires
        0 <= i <= j <= s.len(),
        s.subrange(i, j) == dec_digits(n),
    ensures
        int_val(s, i, j) == n,
    decreases n,
{
    let d = dec_digits(n);
    lemma_dec_digits_are_digits(n);
    if n < 10 {
        assert(j - i == 1);
        assert(s[j - 1] == d[0]);
        assert(int_val(s, i, j) == int_val(s, i, j - 1) * 10 + digit_val(s[j - 1]));
    } else {
        assert(n / 10 < n) by (nonlinear_arith)
            requires
                n >= 10,
        ;
        lemma_dec_digits_are_digits(n / 10);
        assert(d == dec_digits(n / 10).push(digit_char(n % 10)));
        assert(s.subrange(i, j - 1) =~= dec_digits(n / 10)) by {
            assert(forall|k: int|
                0 <= k < j - 1 - i ==> s.subrange(i, j - 1)[k] == s.subrange(i, j)[k]);
        }
        lemma_digits_value(s, i, j - 1, n / 10);
        assert(s[j - 1] == d[j - 1 - i]);
        assert(d[j - 1 - i] == digit_char(n % 10));
        assert(int_val(s, i, j) == (n / 10) * 10 + n % 10);
    }
}

/// Reading a zero-padded fraction back as a digit run yields the
/// fraction, as long as it fits its width.
pub proof fn lemma_pad_value(s: Seq<char>, i: int, j: int, r: u128, k: nat)
    requires
        0 <= i <= j <= s.len(),
        j - i == k,
        s.subrange(i, j) == pad_digits(r, k),
        r < pow10(k),
    ensures
        int_val(s, i, j) == r,
    decreases k,
{
    lemma_pad_len(r, k);
    if k == 0 {
    } else {
        let p = pad_digits(r / 10, (k - 1) as nat);
        lemma_pad_len(r / 10, (k - 1) as nat);
        assert(pad_digits(r, k) == p.push(digit_char(r % 10)));
        assert(s.subrange(i, j - 1) =~= p) by {
            assert(forall|q: int|
                0 <= q < j - 1 - i ==> s.subrange(i, j - 1)[q] == s.subrange(i, j)[q]);
        }
        assert(r / 10 < pow10((k - 1) as nat)) by {
            lemma_pow10_values();
            assert(pow10(k) == 10 * pow10((k - 1) as nat));
            assert(r < 10 * pow10((k - 1) as nat));
            assert(r / 10 < pow10((k - 1) as nat)) by (nonlinear_arith)
                requires
                    r < 10 * pow10((k - 1) as nat) && pow10((k - 1) as nat) >= 1,
            ;
        }
        lemma_pow10_pos((k - 1) as nat);
        lemma_pad_value(s, i, j - 1, r / 10, (k - 1) as nat);
        assert(s[j - 1] == pad_digits(r, k)[j - 1 - i]);
        assert(int_val(s, i, j) == (r / 10) * 10 + r % 10);
    }
}

/// A digit character is not whitespace, not a sign, not a separator,
/// not a letter and not a decimal point.
pub proof fn lemma_digit_char_class(c: char)
    requires
        is_digit(c),
    ensures
        !is_ws(c),
        !is_sp(c),
        !is_alpha(c),
        c != '-',
        c != '+',
        c != '.',
        c != ',',
{
}

/// Splitting a digit run at its first digit.
pub proof fn lemma_int_val_split_first(s: Seq<char>, i: int, j: int)
    requires
        0 <= i < j <= s.len(),
    ensures
        int_val(s, i, j) == digit_val(s[i]) * pow10((j - i - 1) as nat) + int_val(s, i + 1, j),
    decreases j - i,
{
    if i + 1 == j {
        lemma_pow10_values();
        assert(pow10((j - i - 1) as nat) == 1);
        assert(int_val(s, i + 1, j) == 0);
        assert(int_val(s, i, i) == 0);
        assert(int_val(s, i, j) == int_val(s, i, i) * 10 + digit_val(s[j - 1]));
        assert(digit_val(s[i]) * pow10((j - i - 1) as nat) == digit_val(s[i]))
            by (nonlinear_arith)
            requires
                pow10((j - i - 1) as nat) == 1,
        ;
    } else {
        lemma_int_val_split_first(s, i, j - 1);
        lemma_pow10_values();
        assert(pow10((j - i - 1) as nat) == 10 * pow10((j - i - 2) as nat)) by {
            lemma_pow10_adds(1, (j - i - 2) as nat);
        }
        let d = digit_val(s[i]) as int;
        let p = pow10((j - i - 2) as nat) as int;
        assert(int_val(s, i, j) == int_val(s, i, j - 1) * 10 + digit_val(s[j - 1]));
        assert((d * p + int_val(s, i + 1, j - 1)) * 10 == d * (10 * p) + int_val(
            s,
            i + 1,
            j - 1,
        ) * 10) by (nonlinear_arith);
        assert(int_val(s, i + 1, j) == int_val(s, i + 1, j - 1) * 10 + digit_val(s[j - 1]));
        assert(int_val(s, i, j) == d * (10 * p) + int_val(s, i + 1, j));
    }
}

/// Folding a whole digit run onto a mantissa appends its value behind
/// the digits already held, as long as everything stays in range.
pub proof fn lemma_frac_fold_absorbs(s: Seq<char>, i: int, j: int, m: u128, sc: u32)
    requires
        0 <= i <= j <= s.len(),
        forall|k: int| i <= k < j ==> is_digit(#[trigger] s[k]),
        sc + (j - i) <= crate::decimal::MAX_SCALE,
        m * pow10((j - i) as nat) + int_val(s, i, j) <= MAX_MANTISSA,
    ensures
        crate::lexer::frac_fold(s, i, j, m, sc) == (
            (m * pow10((j - i) as nat) + int_val(s, i, j)) as u128,
            (sc + (j - i)) as u32,
        ),
    decreases j - i,
{
    lemma_pow10_values();
    if i >= j {
        assert(pow10((j - i) as nat) == 1);
        assert(int_val(s, i, j) == 0);
        assert(m * pow10((j - i) as nat) == m) by (nonlinear_arith)
            requires
                pow10((j - i) as nat) == 1,
        ;
    } else {
        let d = digit_val(s[i]);
        let rest = int_val(s, i + 1, j);
        let pl = pow10((j - i - 1) as nat);
        lemma_int_val_split_first(s, i, j);
        lemma_pow10_pos((j - i - 1) as nat);
        assert(pow10((j - i) as nat) == 10 * pl) by {
            lemma_pow10_adds(1, (j - i - 1) as nat);
        }
        crate::lexer::lemma_int_val_grows(s, i + 1, i + 1, j);
        assert(d * pl + rest == int_val(s, i, j));
        assert(d <= d * pl) by (nonlinear_arith)
            requires
                pl >= 1 && d >= 0,
        ;
        assert(m * 10 <= m * (10 * pl)) by (nonlinear_arith)
            requires
                pl >= 1 && m >= 0,
        ;
        assert(m * 10 + d <= MAX_MANTISSA);
        let m2 = (m * 10 + d) as u128;
        assert(m2 == m * 10 + d);
        assert(m2 * pl == m * (10 * pl) + d * pl) by (nonlinear_arith)
            requires
                m2 == m * 10 + d,
        ;
        assert(m2 * pl + rest == m * pow10((j - i) as nat) + int_val(s, i, j));
        lemma_frac_fold_absorbs(s, i + 1, j, m2, (sc + 1) as u32);
        assert(sc < crate::decimal::MAX_SCALE);
        assert(crate::lexer::frac_fold(s, i, j, m, sc) == crate::lexer::frac_fold(
            s,
            i + 1,
            j,
            m2,
            (sc + 1) as u32,
        ));
    }
}

/// The lexer on a rendered whole number: it consumes exactly the
/// digits and recovers the number.
pub proof fn lemma_lex_int(s: Seq<char>, i: int, hi: int, q: u128)
    requires
        0 <= i <= hi <= s.len(),
        i + dec_digits(q).len() <= hi,
        s.subrange(i, i + dec_digits(q).len()) == dec_digits(q),
        q <= MAX_MANTISSA,
        i + dec_digits(q).len() == hi || (!is_digit(s[i + dec_digits(q).len()]) && s[i
            + dec_digits(q).len()] != '.'),
    ensures
        crate::lexer::spec_lex(s, i, hi) matches Some(lx) && lx == (crate::lexer::LexOut {
            end: i + dec_digits(q).len(),
            neg: false,
            mant: q,
            scale: 0,
            over: false,
        }),
{
    let e = i + dec_digits(q).len();
    lemma_dec_digits_are_digits(q);
    assert forall|k: int| i <= k < e implies is_digit(#[trigger] s[k]) by {
        assert(s.subrange(i, e)[k - i] == s[k]);
        assert(is_digit(dec_digits(q)[k - i]));
    }
    assert(s.subrange(i, e)[0] == s[i]);
    lemma_digit_char_class(s[i]);
    lemma_digits_end_exact(s, i, e, hi);
    lemma_digits_value(s, i, e, q);
}

/// Stripping trailing zero digits keeps nothing but the trailing
/// zeros: what remains is the fraction divided by the matching power
/// of ten, still at least one digit wide, and in range for its width.
pub proof fn lemma_strip_rk_facts(r: u128, k: nat)
    requires
        1 <= r,
        r < pow10(k),
    ensures
        ({
            let (rr, kk) = crate::format::strip_rk(r, k);
            &&& 1 <= kk <= k
            &&& 1 <= rr < pow10(kk)
            &&& r == rr * pow10((k - kk) as nat)
        }),
    decreases k,
{
    lemma_pow10_values();
    if k == 0 {
        assert(false);
    } else if r % 10 == 0 {
        assert(r >= 10) by (nonlinear_arith)
            requires
                r % 10 == 0 && r >= 1,
        ;
        assert(r / 10 >= 1);
        assert(r / 10 < pow10((k - 1) as nat)) by (nonlinear_arith)
            requires
                r < 10 * pow10((k - 1) as nat) && r % 10 == 0,
        ;
        lemma_strip_rk_facts(r / 10, (k - 1) as nat);
        let (rr, kk) = crate::format::strip_rk(r / 10, (k - 1) as nat);
        assert(crate::format::strip_rk(r, k) == (rr, kk));
        assert(r == (r / 10) * 10) by (nonlinear_arith)
            requires
                r % 10 == 0,
        ;
        lemma_pow10_adds((k - 1 - kk) as nat, 1);
        assert(r == rr * pow10((k - 1 - kk) as nat) * 10);
        assert(rr * pow10((k - 1 - kk) as nat) * 10 == rr * (pow10((k - 1 - kk) as nat) * 10))
            by (nonlinear_arith);
        assert(pow10((k - kk) as nat) == pow10((k - 1 - kk) as nat) * 10);
    } else {
        assert(crate::format::strip_rk(r, k) == (r, k));
        assert(r == r * pow10(0)) by (nonlinear_arith)
            requires
                pow10(0) == 1,
        ;
    }
}

/// The contribution a lexed decimal makes: for the mantissa and scale
/// recovered from a rendered `q.frac`, multiplying back by the unit
/// returns the exact nanosecond count the formatter started from.
pub proof fn lemma_dec_contribution(q: u128, rr: u128, kk: nat, k: nat, ns: u128)
    requires
        kk <= k <= 9,
        ns == q * pow10(k) + rr * pow10((k - kk) as nat),
    ensures
        ((q * pow10(kk) + rr) * pow10(k)) as nat / pow10(kk) == ns,
{
    let unit = pow10(k);
    let pkk = pow10(kk);
    let pd = pow10((k - kk) as nat);
    lemma_pow10_pos(kk);
    lemma_pow10_pos(k);
    lemma_pow10_pos((k - kk) as nat);
    lemma_pow10_adds((k - kk) as nat, kk);
    assert(unit == pd * pkk);
    assert((q * pkk + rr) * unit == q * pkk * unit + rr * unit) by (nonlinear_arith);
    assert(q * pkk * unit == (q * unit) * pkk) by (nonlinear_arith);
    assert(rr * unit == rr * (pd * pkk)) by {
        assert(unit == pd * pkk);
    }
    assert(rr * (pd * pkk) == (rr * pd) * pkk) by (nonlinear_arith);
    assert((q * pkk + rr) * unit == (q * unit + rr * pd) * pkk) by (nonlinear_arith)
        requires
            (q * pkk + rr) * unit == (q * unit) * pkk + (rr * pd) * pkk,
    ;
    crate::units::lemma_div_by_multiple_pub(((q * unit + rr * pd)) as int, pkk as int);
}

/// The lexer on a rendered full-precision decimal `q.frac` (or a bare
/// `q` when the remainder is zero): it consumes exactly the rendered
/// text, and its mantissa and scale multiply back to the original
/// nanosecond count.
#[verifier::rlimit(100)]
#[verifier::spinoff_prover]
pub proof fn lemma_lex_full_dec(s: Seq<char>, i: int, hi: int, ns: u128, k: nat)
    requires
        0 <= i <= hi <= s.len(),
        1 <= k <= 9,
        ns < crate::NANOS_PER_MINUTE,
        i + crate::format::full_dec_str(ns, pow10(k) as u128, k).len() <= hi,
        s.subrange(i, i + crate::format::full_dec_str(ns, pow10(k) as u128, k).len())
            == crate::format::full_dec_str(ns, pow10(k) as u128, k),
        i + crate::format::full_dec_str(ns, pow10(k) as u128, k).len() == hi || (!is_digit(
            s[i + crate::format::full_dec_str(ns, pow10(k) as u128, k).len()],
        ) && s[i + crate::format::full_dec_str(ns, pow10(k) as u128, k).len()] != '.'),
    ensures
        ({
            let e = i + crate::format::full_dec_str(ns, pow10(k) as u128, k).len();
            &&& crate::lexer::spec_lex(s, i, hi) matches Some(lx)
            &&& lx.end == e
            &&& !lx.neg
            &&& !lx.over
            &&& lx.mant <= MAX_MANTISSA
            &&& lx.scale <= crate::decimal::MAX_SCALE
            &&& crate::units::comp_ns(lx.mant, lx.scale, pow10(k) as u128) == ns
        }),
{
    lemma_pow10_values();
    lemma_pow10_increases(k, 9);
    let unit = pow10(k) as u128;
    let q = ns / unit;
    let r = ns % unit;
    let full = crate::format::full_dec_str(ns, unit, k);
    let e = i + full.len();
    lemma_pow10_pos(k);
    vstd::arithmetic::div_mod::lemma_fundamental_div_mod(ns as int, unit as int);
    if r == 0 {
        lemma_strip_rk_zero(k);
        crate::format::lemma_strip_pad(r, k);
        assert(pad_digits(r, k).subrange(0, k as int) =~= pad_digits(r, k)) by {
            lemma_pad_len(r, k);
        }
        assert(crate::format::strip0(pad_digits(r, k)) == pad_digits(0, 0));
        assert(pad_digits(0, 0).len() == 0);
        assert(full == dec_digits(q));
        lemma_lex_int(s, i, hi, q);
        lemma_div_basics(q as int);
        assert(crate::units::comp_ns(q, 0, unit) == (q * unit) as nat / pow10(0));
        assert((q * unit) as nat / 1 == q * unit) by (nonlinear_arith)
            requires
                q * unit >= 0,
        ;
    } else {
        vstd::arithmetic::div_mod::lemma_mod_bound(ns as int, unit as int);
        lemma_strip_rk_facts(r, k);
        let (rr, kk) = crate::format::strip_rk(r, k);
        crate::format::lemma_strip_pad(r, k);
        let frac = crate::format::strip0(pad_digits(r, k).subrange(0, k as int));
        assert(pad_digits(r, k).subrange(0, k as int) =~= pad_digits(r, k)) by {
            lemma_pad_len(r, k);
        }
        assert(frac == pad_digits(rr, kk));
        lemma_pad_len(rr, kk);
        assert(frac.len() == kk);
        let dq = dec_digits(q).len() as int;
        assert(full == dec_digits(q) + seq!['.'] + pad_digits(rr, kk));
        lemma_dec_digits_are_digits(q);
        assert(e - i == dq + 1 + kk);
        // the three pieces of the rendered text, read off the subrange
        assert forall|x: int| i <= x < e implies s[x] == full[x - i] by {
            assert(s.subrange(i, e)[x - i] == s[x]);
        }
        assert(s.subrange(i, i + dq) =~= dec_digits(q));
        assert(s[i + dq] == '.');
        assert(s.subrange(i + dq + 1, e) =~= pad_digits(rr, kk));
        assert forall|x: int| i <= x < i + dq implies is_digit(#[trigger] s[x]) by {
            assert(s[x] == dec_digits(q)[x - i]);
        }
        lemma_pad_digits_are_digits(rr, kk);
        assert forall|x: int| i + dq + 1 <= x < e implies is_digit(#[trigger] s[x]) by {
            assert(s[x] == pad_digits(rr, kk)[x - (i + dq + 1)]);
        }
        // the lexer's path through that text
        assert(is_digit(s[i]));
        lemma_digit_char_class(s[i]);
        assert(!is_digit('.')) by {
            assert('.' as u32 == 46);
        }
        lemma_digits_end_exact(s, i, i + dq, hi);
        lemma_digits_value(s, i, i + dq, q);
        assert(q <= MAX_MANTISSA);
        lemma_digits_end_exact(s, i + dq + 1, e, hi);
        lemma_pad_value(s, i + dq + 1, e, rr, kk);
        lemma_pow10_increases(kk, 9);
        assert(q * pow10(kk) + rr <= MAX_MANTISSA) by (nonlinear_arith)
            requires
                q < 60_000_000_000 && pow10(kk) <= 1_000_000_000 && rr < pow10(kk) && pow10(kk)
                    <= 1_000_000_000 && MAX_MANTISSA == 79228162514264337593543950335,
        ;
        lemma_frac_fold_absorbs(s, i + dq + 1, e, q, 0);
        let lx = crate::lexer::spec_lex(s, i, hi)->0;
        assert(lx.end == e);
        assert(lx.mant == q * pow10(kk) + rr);
        assert(lx.scale == kk);
        lemma_dec_contribution(q, rr, kk, k, ns);
        assert(ns == q * pow10(k) + rr * pow10((k - kk) as nat)) by {
            assert(r == rr * pow10((k - kk) as nat));
        }
    }
}

/// Stripping a zero fraction leaves nothing.
pub proof fn lemma_strip_rk_zero(k: nat)
    ensures
        crate::format::strip_rk(0, k) == (0u128, 0nat),
    decreases k,
{
    if k > 0 {
        lemma_strip_rk_zero((k - 1) as nat);
    }
}

/// One rendered component: a whole count with a unit tag, or the
/// final full-precision decimal with its unit tag.
pub enum RtComp {
    Whole(u128, Seq<char>),
    Dec(u128, nat, Seq<char>),
}

/// The text of one component.
pub open spec fn comp_render(c: RtComp) -> Seq<char> {
    match c {
        RtComp::Whole(q, u) => dec_digits(q) + u,
        RtComp::Dec(ns, k, u) => crate::format::full_dec_str(ns, pow10(k) as u128, k) + u,
    }
}

/// The multiplier of a whole component's tag, told apart by length
/// and first letter.
pub open spec fn comp_mult(u: Seq<char>) -> nat {
    if u.len() == 2 {
        if u[0] == 'n' {
            1
        } else {
            31_557_600_000_000_000
        }
    } else {
        if u[0] == 'm' {
            60_000_000_000
        } else if u[0] == 'h' {
            3_600_000_000_000
        } else {
            86_400_000_000_000
        }
    }
}

/// The nanoseconds one component stands for.
pub open spec fn comp_sum(c: RtComp) -> nat {
    match c {
        RtComp::Whole(q, u) => (q * comp_mult(u)) as nat,
        RtComp::Dec(ns, k, u) => ns as nat,
    }
}

/// A component the chain lemma can read back.
pub open spec fn comp_wf(c: RtComp) -> bool {
    match c {
        RtComp::Whole(q, u) => q <= MAX_MANTISSA && (u == seq!['n', 's'] || u == seq!['m'] || u
            == seq!['h'] || u == seq!['d'] || u == seq!['y', 'r']),
        RtComp::Dec(ns, k, u) => ns < crate::NANOS_PER_MINUTE && ((k == 3 && u == seq!['u', 's'])
            || (k == 6 && u == seq!['m', 's']) || (k == 9 && u == seq!['s'])),
    }
}

/// The rendered chain: components joined by single spaces.
pub open spec fn chain_render(comps: Seq<RtComp>) -> Seq<char>
    decreases comps.len(),
{
    if comps.len() == 0 {
        Seq::empty()
    } else if comps.len() == 1 {
        comp_render(comps[0])
    } else {
        comp_render(comps[0]) + seq![' '] + chain_render(comps.drop_first())
    }
}

/// The nanoseconds a chain stands for.
pub open spec fn chain_sum(comps: Seq<RtComp>) -> nat
    decreases comps.len(),
{
    if comps.len() == 0 {
        0
    } else {
        comp_sum(comps[0]) + chain_sum(comps.drop_first())
    }
}

/// One whole component, read off: the loop advances past it (and its
/// separating space) and adds its contribution.
pub proof fn lemma_int_component_step(
    s: Seq<char>,
    i: int,
    hi: int,
    acc: u128,
    q: u128,
    uend: int,
    mult: u128,
)
    requires
        0 <= i,
        i + dec_digits(q).len() < uend <= hi <= s.len(),
        s.subrange(i, i + dec_digits(q).len()) == dec_digits(q),
        q <= MAX_MANTISSA,
        !is_digit(s[i + dec_digits(q).len()]),
        s[i + dec_digits(q).len()] != '.',
        !is_sp(s[i + dec_digits(q).len()]),
        crate::units::match_unit(s, i + dec_digits(q).len(), hi) matches Some(p) && p.0 == uend
            && p.1.mult == mult,
        uend == hi || (s[uend] == ' ' && uend + 1 < hi && !is_sp(s[uend + 1])),
        acc + q * mult <= u128::MAX,
    ensures
        crate::parse::spec_components(s, i, hi, acc) == (if uend == hi {
            crate::parse::ParseOut::Val((acc + q * mult) as u128)
        } else {
            crate::parse::spec_components(s, uend + 1, hi, (acc + q * mult) as u128)
        }),
{
    let d = i + dec_digits(q).len();
    lemma_lex_int(s, i, hi, q);
    assert(crate::parse::skip_sp(s, d, hi) == d);
    lemma_pow10_values();
    lemma_div_basics((q * mult) as int);
    assert(crate::units::comp_ns(q, 0, mult) == q * mult);
    if uend < hi {
        assert(!is_alpha(' '));
        assert(s[uend] != ',');
        assert(crate::parse::skip_sp(s, uend, hi) == crate::parse::skip_sp(s, uend + 1, hi));
        assert(crate::parse::skip_sp(s, uend + 1, hi) == uend + 1);
        assert(crate::parse::sep_end(s, uend, hi) == uend + 1);
    } else {
        assert(crate::parse::skip_sp(s, hi, hi) == hi);
        assert(crate::parse::sep_end(s, hi, hi) == hi);
        assert(crate::parse::spec_components(s, hi, hi, (acc + q * mult) as u128)
            == crate::parse::ParseOut::Val((acc + q * mult) as u128));
    }
}

/// The final decimal component, read off: the loop consumes the rest
/// of the text and yields the finished total.
pub proof fn lemma_dec_component_last(s: Seq<char>, i: int, hi: int, acc: u128, ns: u128, k: nat)
    requires
        0 <= i <= hi <= s.len(),
        1 <= k <= 9,
        ns < crate::NANOS_PER_MINUTE,
        i + crate::format::full_dec_str(ns, pow10(k) as u128, k).len() < hi,
        s.subrange(i, i + crate::format::full_dec_str(ns, pow10(k) as u128, k).len())
            == crate::format::full_dec_str(ns, pow10(k) as u128, k),
        !is_digit(s[i + crate::format::full_dec_str(ns, pow10(k) as u128, k).len()]),
        s[i + crate::format::full_dec_str(ns, pow10(k) as u128, k).len()] != '.',
        !is_sp(s[i + crate::format::full_dec_str(ns, pow10(k) as u128, k).len()]),
        crate::units::match_unit(
            s,
            i + crate::format::full_dec_str(ns, pow10(k) as u128, k).len(),
            hi,
        ) matches Some(p) && p.0 == hi && p.1.mult == pow10(k) as u128,
        acc + ns <= u128::MAX,
    ensures
        crate::parse::spec_components(s, i, hi, acc) == crate::parse::ParseOut::Val(
            (acc + ns) as u128,
        ),
{
    let e = i + crate::format::full_dec_str(ns, pow10(k) as u128, k).len();
    lemma_lex_full_dec(s, i, hi, ns, k);
    let lx = crate::lexer::spec_lex(s, i, hi)->0;
    assert(crate::parse::skip_sp(s, e, hi) == e);
    assert(crate::parse::skip_sp(s, hi, hi) == hi);
    assert(crate::parse::sep_end(s, hi, hi) == hi);
    assert(crate::parse::spec_components(s, hi, hi, (acc + ns) as u128)
        == crate::parse::ParseOut::Val((acc + ns) as u128));
}

/// Reading a whole rendered chain back: the component loop accumulates
/// exactly the chain's nanosecond total.
#[verifier::rlimit(100)]
#[verifier::spinoff_prover]
pub proof fn lemma_chain(s: Seq<char>, j: int, hi: int, acc: u128, comps: Seq<RtComp>)
    requires
        0 <= j <= hi <= s.len(),
        comps.len() >= 1,
        s.subrange(j, hi) == chain_render(comps),
        forall|x: int| 0 <= x < comps.len() ==> comp_wf(#[trigger] comps[x]),
        forall|x: int| 0 <= x < comps.len() - 1 ==> (#[trigger] comps[x]) is Whole,
        acc + chain_sum(comps) <= u128::MAX,
    ensures
        crate::parse::spec_components(s, j, hi, acc) == crate::parse::ParseOut::Val(
            (acc + chain_sum(comps)) as u128,
        ),
        crate::lexer::spec_lex(s, j, hi) matches Some(lx) && lx.end < hi,
    decreases comps.len(),
{
    lemma_pow10_values();
    let c0 = comps[0];
    let r0 = comp_render(c0);
    let e0 = j + r0.len();
    assert(comp_wf(c0));
    assert(chain_sum(comps) == comp_sum(c0) + chain_sum(comps.drop_first()));
    lemma_chain_sum_nonneg(comps.drop_first());
    if comps.len() == 1 {
        assert(chain_render(comps) == r0);
        assert(e0 == hi);
        assert(chain_sum(comps.drop_first()) == 0);
        assert forall|x: int| j <= x < hi implies s[x] == r0[x - j] by {
            assert(s.subrange(j, hi)[x - j] == s[x]);
        }
        match c0 {
            RtComp::Whole(q, u) => {
                let dq = dec_digits(q).len() as int;
                lemma_dec_digits_are_digits(q);
                assert(s.subrange(j, j + dq) =~= dec_digits(q));
                assert forall|t: int| 0 <= t < u.len() implies s[j + dq + t] == u[t] by {
                    assert(r0[dq + t] == u[t]);
                }
                let um = lemma_whole_unit_match(s, j + dq, hi, u);
                assert(!is_digit(s[j + dq]) && s[j + dq] != '.' && !is_sp(s[j + dq])) by {
                    assert(s[j + dq] == u[0]);
                }
                lemma_lex_int(s, j, hi, q);
                lemma_int_component_step(s, j, hi, acc, q, hi, um);
            },
            RtComp::Dec(ns, k, u) => {
                let full = crate::format::full_dec_str(ns, pow10(k) as u128, k);
                let df = full.len() as int;
                lemma_full_dec_head_digit(ns, k);
                assert(s.subrange(j, j + df) =~= full);
                assert forall|t: int| 0 <= t < u.len() implies s[j + df + t] == u[t] by {
                    assert(r0[df + t] == u[t]);
                }
                let um = lemma_whole_unit_match(s, j + df, hi, u);
                assert(um == pow10(k));
                assert(!is_digit(s[j + df]) && s[j + df] != '.' && !is_sp(s[j + df])) by {
                    assert(s[j + df] == u[0]);
                }
                lemma_lex_full_dec(s, j, hi, ns, k);
                lemma_dec_component_last(s, j, hi, acc, ns, k);
            },
        }
    } else {
        let rest = comps.drop_first();
        assert(chain_render(comps) == r0 + seq![' '] + chain_render(rest));
        assert forall|x: int| j <= x < hi implies s[x] == chain_render(comps)[x - j] by {
            assert(s.subrange(j, hi)[x - j] == s[x]);
        }
        assert(s[e0] == ' ');
        assert(s.subrange(e0 + 1, hi) =~= chain_render(rest));
        assert(rest.len() >= 1);
        assert(comps[1] is Whole || rest.len() - 1 == 0);
        // the next component starts with a digit
        assert(chain_render(rest).len() >= 1) by {
            lemma_chain_render_head_digit(rest);
        }
        assert(is_digit(s[e0 + 1])) by {
            lemma_chain_render_head_digit(rest);
            assert(s[e0 + 1] == chain_render(rest)[0]);
        }
        lemma_digit_char_class(s[e0 + 1]);
        let q = c0->Whole_0;
        let u = c0->Whole_1;
        let dq = dec_digits(q).len() as int;
        lemma_dec_digits_are_digits(q);
        assert(s.subrange(j, j + dq) =~= dec_digits(q));
        assert forall|t: int| 0 <= t < u.len() implies s[j + dq + t] == u[t] by {
            assert(chain_render(comps)[dq + t] == u[t]);
        }
        let um = lemma_whole_unit_match(s, j + dq, hi, u);
        assert(!is_digit(s[j + dq]) && s[j + dq] != '.' && !is_sp(s[j + dq])) by {
            assert(s[j + dq] == u[0]);
        }
        assert(acc + q * um <= u128::MAX);
        lemma_lex_int(s, j, hi, q);
        lemma_int_component_step(s, j, hi, acc, q, e0, um);
        assert(forall|x: int| 0 <= x < rest.len() ==> comp_wf(#[trigger] rest[x]));
        assert(forall|x: int| 0 <= x < rest.len() - 1 ==> (#[trigger] rest[x]) is Whole);
        lemma_chain(s, e0 + 1, hi, (acc + q * um) as u128, rest);
    }
}

/// A chain's total never goes negative.
pub proof fn lemma_chain_sum_nonneg(comps: Seq<RtComp>)
    ensures
        chain_sum(comps) >= 0,
    decreases comps.len(),
{
    if comps.len() > 0 {
        lemma_chain_sum_nonneg(comps.drop_first());
    }
}

/// A rendered chain starts with a digit.
pub proof fn lemma_chain_render_head_digit(comps: Seq<RtComp>)
    requires
        comps.len() >= 1,
        forall|x: int| 0 <= x < comps.len() ==> comp_wf(#[trigger] comps[x]),
    ensures
        chain_render(comps).len() >= 1,
        is_digit(chain_render(comps)[0]),
{
    let c0 = comps[0];
    match c0 {
        RtComp::Whole(q, u) => {
            lemma_dec_digits_are_digits(q);
            assert(comp_render(c0)[0] == dec_digits(q)[0]);
        },
        RtComp::Dec(ns, k, u) => {
            lemma_full_dec_head_digit(ns, k);
            assert(comp_render(c0)[0] == crate::format::full_dec_str(ns, pow10(k) as u128, k)[0]);
        },
    }
}

/// A rendered full-precision decimal starts with a digit.
pub proof fn lemma_full_dec_head_digit(ns: u128, k: nat)
    requires
        k <= 9,
    ensures
        crate::format::full_dec_str(ns, pow10(k) as u128, k).len() >= 1,
        crate::format::full_dec_str(ns, pow10(k) as u128, k)[0] == dec_digits(
            (ns / (pow10(k) as u128)) as u128,
        )[0],
        is_digit(crate::format::full_dec_str(ns, pow10(k) as u128, k)[0]),
{
    lemma_pow10_values();
    lemma_pow10_increases(k, 9);
    lemma_pow10_pos(k);
    let unit = pow10(k) as u128;
    let q = ns / unit;
    lemma_dec_digits_are_digits(q);
    let frac = crate::format::strip0(pad_digits(ns % unit, k).subrange(0, k as int));
    if frac.len() == 0 {
    } else {
        assert(crate::format::full_dec_str(ns, unit, k)[0] == (dec_digits(q) + seq!['.']
            + frac)[0]);
    }
}

/// Matching the unit tag of a well-formed component at its position:
/// dispatches to the per-suffix lemma and hands back the multiplier.
pub proof fn lemma_whole_unit_match(s: Seq<char>, d: int, hi: int, u: Seq<char>) -> (mult: u128)
    requires
        0 <= d,
        d + u.len() <= hi <= s.len(),
        u == seq!['n', 's'] || u == seq!['m'] || u == seq!['h'] || u == seq!['d'] || u == seq![
            'y',
            'r',
        ] || u == seq!['u', 's'] || u == seq!['m', 's'] || u == seq!['s'],
        forall|t: int| 0 <= t < u.len() ==> s[d + t] == u[t],
        d + u.len() == hi || s[d + u.len()] == ' ',
    ensures
        crate::units::match_unit(s, d, hi) matches Some(p) && p.0 == d + u.len() && p.1.mult
            == mult,
        mult == comp_mult_all(u),
{
    assert(s[d + 0] == u[0]);
    if u.len() == 2 {
        assert(s[d + 1] == u[1]);
    }
    if u == seq!['n', 's'] {
        crate::rtunits::lemma_match_unit_ns(s, d, hi);
        1
    } else if u == seq!['m'] {
        crate::rtunits::lemma_match_unit_m(s, d, hi);
        60_000_000_000
    } else if u == seq!['h'] {
        crate::rtunits::lemma_match_unit_h(s, d, hi);
        3_600_000_000_000
    } else if u == seq!['d'] {
        crate::rtunits::lemma_match_unit_d(s, d, hi);
        86_400_000_000_000
    } else if u == seq!['y', 'r'] {
        crate::rtunits::lemma_match_unit_yr(s, d, hi);
        31_557_600_000_000_000
    } else if u == seq!['u', 's'] {
        crate::rtunits::lemma_match_unit_us(s, d, hi);
        1_000
    } else if u == seq!['m', 's'] {
        crate::rtunits::lemma_match_unit_ms(s, d, hi);
        1_000_000
    } else {
        crate::rtunits::lemma_match_unit_s(s, d, hi);
        1_000_000_000
    }
}

/// The multiplier of any unit tag a rendered component can carry.
pub open spec fn comp_mult_all(u: Seq<char>) -> nat {
    if u.len() == 2 {
        if u[0] == 'n' {
            1
        } else if u[0] == 'u' {
            1_000
        } else if u[0] == 'm' {
            1_000_000
        } else {
            31_557_600_000_000_000
        }
    } else {
        if u[0] == 's' {
            1_000_000_000
        } else if u[0] == 'm' {
            60_000_000_000
        } else if u[0] == 'h' {
            3_600_000_000_000
        } else {
            86_400_000_000_000
        }
    }
}

/// A rendered chain ends with a unit letter, never whitespace.
pub proof fn lemma_chain_render_last(comps: Seq<RtComp>)
    requires
        comps.len() >= 1,
        forall|x: int| 0 <= x < comps.len() ==> comp_wf(#[trigger] comps[x]),
    ensures
        chain_render(comps).len() >= 1,
        !is_ws(chain_render(comps)[chain_render(comps).len() - 1]),
    decreases comps.len(),
{
    if comps.len() == 1 {
        let c0 = comps[0];
        assert(comp_wf(c0));
        match c0 {
            RtComp::Whole(q, u) => {
                lemma_dec_digits_are_digits(q);
                assert(comp_render(c0)[comp_render(c0).len() - 1] == u[u.len() - 1]);
            },
            RtComp::Dec(ns, k, u) => {
                assert(comp_render(c0)[comp_render(c0).len() - 1] == u[u.len() - 1]);
            },
        }
    } else {
        lemma_chain_render_last(comps.drop_first());
        assert(forall|x: int|
            0 <= x < comps.drop_first().len() ==> comp_wf(#[trigger] comps.drop_first()[x]));
        let tail = chain_render(comps.drop_first());
        assert(chain_render(comps)[chain_render(comps).len() - 1] == tail[tail.len() - 1]);
    }
}

/// The components the exact formatter renders at this magnitude tier.
#[verifier::rlimit(100)]
#[verifier::spinoff_prover]
proof fn rt_tier_nano(n: u128) -> (comps: Seq<RtComp>)
    requires
        n < crate::NANOS_PER_MICRO,
    ensures
        comps.len() >= 1,
        forall|x: int| 0 <= x < comps.len() ==> comp_wf(#[trigger] comps[x]),
        forall|x: int| 0 <= x < comps.len() - 1 ==> (#[trigger] comps[x]) is Whole,
        chain_render(comps) == crate::render::spec_format_exact(n),
        chain_sum(comps) == n,
{
    reveal_with_fuel(chain_render, 8);
    reveal_with_fuel(chain_sum, 8);
    lemma_pow10_values();
    assert((pow10(9) as u128) == crate::NANOS_PER_SEC);
    assert((pow10(6) as u128) == crate::NANOS_PER_MILLI);
    assert((pow10(3) as u128) == crate::NANOS_PER_MICRO);
    let comps = seq![RtComp::Whole(n, seq!['n', 's'])];
    assert(comps[0] == RtComp::Whole(n, seq!['n', 's']));
    assert(comp_wf(comps[0]));
    assert(comp_render(comps[0]) =~= (dec_digits(n) + seq!['n', 's']));
    assert(comp_mult(seq!['n', 's']) == 1);
    assert(comp_sum(comps[0]) == n * 1);
    assert(forall|x: int| 0 <= x < comps.len() ==> comp_wf(#[trigger] comps[x]));
    assert(forall|x: int| 0 <= x < comps.len() - 1 ==> (#[trigger] comps[x]) is Whole);
    assert(chain_render(comps) =~= (dec_digits(n) + seq!['n', 's']));
    assert(chain_render(comps) =~= crate::render::spec_format_exact(n));
    assert(chain_sum(comps) == n * 1);
    assert(chain_sum(comps) == n);
    comps
}

/// The components the exact formatter renders at this magnitude tier.
#[verifier::rlimit(100)]
#[verifier::spinoff_prover]
proof fn rt_tier_micro(n: u128) -> (comps: Seq<RtComp>)
    requires
        crate::NANOS_PER_MICRO <= n < crate::NANOS_PER_MILLI,
    ensures
        comps.len() >= 1,
        forall|x: int| 0 <= x < comps.len() ==> comp_wf(#[trigger] comps[x]),
        forall|x: int| 0 <= x < comps.len() - 1 ==> (#[trigger] comps[x]) is Whole,
        chain_render(comps) == crate::render::spec_format_exact(n),
        chain_sum(comps) == n,
{
    reveal_with_fuel(chain_render, 8);
    reveal_with_fuel(chain_sum, 8);
    lemma_pow10_values();
    assert((pow10(9) as u128) == crate::NANOS_PER_SEC);
    assert((pow10(6) as u128) == crate::NANOS_PER_MILLI);
    assert((pow10(3) as u128) == crate::NANOS_PER_MICRO);
    let comps = seq![RtComp::Dec(n, 3, seq!['u', 's'])];
    assert(comps[0] == RtComp::Dec(n, 3, seq!['u', 's']));
    assert(comp_wf(comps[0]));
    assert(comp_render(comps[0]) =~= (crate::format::full_dec_str(n, pow10(3) as u128, 3) + seq!['u', 's']));
    assert(comp_sum(comps[0]) == n);
    assert(forall|x: int| 0 <= x < comps.len() ==> comp_wf(#[trigger] comps[x]));
    assert(forall|x: int| 0 <= x < comps.len() - 1 ==> (#[trigger] comps[x]) is Whole);
    assert(chain_render(comps) =~= (crate::format::full_dec_str(n, pow10(3) as u128, 3) + seq!['u', 's']));
    assert(chain_render(comps) =~= crate::render::spec_format_exact(n));
    assert(chain_sum(comps) == n);
    assert(chain_sum(comps) == n);
    comps
}

/// The components the exact formatter renders at this magnitude tier.
#[verifier::rlimit(100)]
#[verifier::spinoff_prover]
proof fn rt_tier_milli(n: u128) -> (comps: Seq<RtComp>)
    requires
        crate::NANOS_PER_MILLI <= n < crate::NANOS_PER_SEC,
    ensures
        comps.len() >= 1,
        forall|x: int| 0 <= x < comps.len() ==> comp_wf(#[trigger] comps[x]),
        forall|x: int| 0 <= x < comps.len() - 1 ==> (#[trigger] comps[x]) is Whole,
        chain_render(comps) == crate::render::spec_format_exact(n),
        chain_sum(comps) == n,
{
    reveal_with_fuel(chain_render, 8);
    reveal_with_fuel(chain_sum, 8);
    lemma_pow10_values();
    assert((pow10(9) as u128) == crate::NANOS_PER_SEC);
    assert((pow10(6) as u128) == crate::NANOS_PER_MILLI);
    assert((pow10(3) as u128) == crate::NANOS_PER_MICRO);
    let comps = seq![RtComp::Dec(n, 6, seq!['m', 's'])];
    assert(comps[0] == RtComp::Dec(n, 6, seq!['m', 's']));
    assert(comp_wf(comps[0]));
    assert(comp_render(comps[0]) =~= (crate::format::full_dec_str(n, pow10(6) as u128, 6) + seq!['m', 's']));
    assert(comp_sum(comps[0]) == n);
    assert(forall|x: int| 0 <= x < comps.len() ==> comp_wf(#[trigger] comps[x]));
    assert(forall|x: int| 0 <= x < comps.len() - 1 ==> (#[trigger] comps[x]) is Whole);
    assert(chain_render(comps) =~= (crate::format::full_dec_str(n, pow10(6) as u128, 6) + seq!['m', 's']));
    assert(chain_render(comps) =~= crate::render::spec_format_exact(n));
    assert(chain_sum(comps) == n);
    assert(chain_sum(comps) == n);
    comps
}

/// The components the exact formatter renders at this magnitude tier.
#[verifier::rlimit(100)]
#[verifier::spinoff_prover]
proof fn rt_tier_sec(n: u128) -> (comps: Seq<RtComp>)
    requires
        crate::NANOS_PER_SEC <= n < crate::NANOS_PER_MINUTE,
    ensures
        comps.len() >= 1,
        forall|x: int| 0 <= x < comps.len() ==> comp_wf(#[trigger] comps[x]),
        forall|x: int| 0 <= x < comps.len() - 1 ==> (#[trigger] comps[x]) is Whole,
        chain_render(comps) == crate::render::spec_format_exact(n),
        chain_sum(comps) == n,
{
    reveal_with_fuel(chain_render, 8);
    reveal_with_fuel(chain_sum, 8);
    lemma_pow10_values();
    assert((pow10(9) as u128) == crate::NANOS_PER_SEC);
    assert((pow10(6) as u128) == crate::NANOS_PER_MILLI);
    assert((pow10(3) as u128) == crate::NANOS_PER_MICRO);
    let comps = seq![RtComp::Dec(n, 9, seq!['s'])];
    assert(comps[0] == RtComp::Dec(n, 9, seq!['s']));
    assert(comp_wf(comps[0]));
    assert(comp_render(comps[0]) =~= (crate::format::full_dec_str(n, pow10(9) as u128, 9) + seq!['s']));
    assert(comp_sum(comps[0]) == n);
    assert(forall|x: int| 0 <= x < comps.len() ==> comp_wf(#[trigger] comps[x]));
    assert(forall|x: int| 0 <= x < comps.len() - 1 ==> (#[trigger] comps[x]) is Whole);
    assert(chain_render(comps) =~= (crate::format::full_dec_str(n, pow10(9) as u128, 9) + seq!['s']));
    assert(chain_render(comps) =~= crate::render::spec_format_exact(n));
    assert(chain_sum(comps) == n);
    assert(chain_sum(comps) == n);
    comps
}

/// The components the exact formatter renders at this magnitude tier.
#[verifier::rlimit(100)]
#[verifier::spinoff_prover]
proof fn rt_tier_minute(n: u128) -> (comps: Seq<RtComp>)
    requires
        crate::NANOS_PER_MINUTE <= n < crate::NANOS_PER_HOUR,
    ensures
        comps.len() >= 1,
        forall|x: int| 0 <= x < comps.len() ==> comp_wf(#[trigger] comps[x]),
        forall|x: int| 0 <= x < comps.len() - 1 ==> (#[trigger] comps[x]) is Whole,
        chain_render(comps) == crate::render::spec_format_exact(n),
        chain_sum(comps) == n,
{
    reveal_with_fuel(chain_render, 8);
    reveal_with_fuel(chain_sum, 8);
    lemma_pow10_values();
    assert((pow10(9) as u128) == crate::NANOS_PER_SEC);
    assert((pow10(6) as u128) == crate::NANOS_PER_MILLI);
    assert((pow10(3) as u128) == crate::NANOS_PER_MICRO);
    let mins = n / crate::NANOS_PER_MINUTE;
    let r4 = n % crate::NANOS_PER_MINUTE;
    lemma_fundamental_div_mod(n as int, crate::NANOS_PER_MINUTE as int);
    lemma_mod_bound(n as int, crate::NANOS_PER_MINUTE as int);
    lemma_div_is_ordered(n as int, u128::MAX as int, crate::NANOS_PER_MINUTE as int);
    if r4 == 0 {
        let comps = seq![RtComp::Whole(mins, seq!['m'])];
        assert(comps[0] == RtComp::Whole(mins, seq!['m']));
        assert(comp_wf(comps[0]));
        assert(comp_render(comps[0]) =~= (dec_digits(mins) + seq!['m']));
        assert(comp_mult(seq!['m']) == 60_000_000_000);
        assert(comp_sum(comps[0]) == mins * 60_000_000_000);
        assert(forall|x: int| 0 <= x < comps.len() ==> comp_wf(#[trigger] comps[x]));
        assert(forall|x: int| 0 <= x < comps.len() - 1 ==> (#[trigger] comps[x]) is Whole);
        assert(chain_render(comps) =~= (dec_digits(mins) + seq!['m']));
        assert(chain_render(comps) =~= crate::render::spec_format_exact(n));
        assert(chain_sum(comps) == mins * 60_000_000_000);
        assert(chain_sum(comps) == n);
        comps
    } else {
        let comps = seq![RtComp::Whole(mins, seq!['m']), RtComp::Dec(r4, 9, seq!['s'])];
        assert(comps[0] == RtComp::Whole(mins, seq!['m']));
        assert(comp_wf(comps[0]));
        assert(comp_render(comps[0]) =~= (dec_digits(mins) + seq!['m']));
        assert(comp_mult(seq!['m']) == 60_000_000_000);
        assert(comp_sum(comps[0]) == mins * 60_000_000_000);
        assert(comps[1] == RtComp::Dec(r4, 9, seq!['s']));
        assert(comp_wf(comps[1]));
        assert(comp_render(comps[1]) =~= (crate::format::full_dec_str(r4, pow10(9) as u128, 9) + seq!['s']));
        assert(comp_sum(comps[1]) == r4);
        assert(comps[0] is Whole);
        assert(forall|x: int| 0 <= x < comps.len() ==> comp_wf(#[trigger] comps[x]));
        assert(forall|x: int| 0 <= x < comps.len() - 1 ==> (#[trigger] comps[x]) is Whole);
        assert(chain_render(comps) =~= (dec_digits(mins) + seq!['m']) + seq![' '] + (crate::format::full_dec_str(r4, pow10(9) as u128, 9) + seq!['s']));
        assert(chain_render(comps) =~= crate::render::spec_format_exact(n));
        assert(chain_sum(comps) == mins * 60_000_000_000 + r4);
        assert(chain_sum(comps) == n);
        comps
    }
}

/// The components the exact formatter renders at this magnitude tier.
#[verifier::rlimit(100)]
#[verifier::spinoff_prover]
proof fn rt_tier_hour(n: u128) -> (comps: Seq<RtComp>)
    requires
        crate::NANOS_PER_HOUR <= n < crate::NANOS_PER_DAY,
    ensures
        comps.len() >= 1,
        forall|x: int| 0 <= x < comps.len() ==> comp_wf(#[trigger] comps[x]),
        forall|x: int| 0 <= x < comps.len() - 1 ==> (#[trigger] comps[x]) is Whole,
        chain_render(comps) == crate::render::spec_format_exact(n),
        chain_sum(comps) == n,
{
    reveal_with_fuel(chain_render, 8);
    reveal_with_fuel(chain_sum, 8);
    lemma_pow10_values();
    assert((pow10(9) as u128) == crate::NANOS_PER_SEC);
    assert((pow10(6) as u128) == crate::NANOS_PER_MILLI);
    assert((pow10(3) as u128) == crate::NANOS_PER_MICRO);
    let h = n / crate::NANOS_PER_HOUR;
    let r1 = n % crate::NANOS_PER_HOUR;
    let m = r1 / crate::NANOS_PER_MINUTE;
    let r4 = r1 % crate::NANOS_PER_MINUTE;
    lemma_fundamental_div_mod(n as int, crate::NANOS_PER_HOUR as int);
    lemma_mod_bound(n as int, crate::NANOS_PER_HOUR as int);
    lemma_fundamental_div_mod(r1 as int, crate::NANOS_PER_MINUTE as int);
    lemma_mod_bound(r1 as int, crate::NANOS_PER_MINUTE as int);
    lemma_div_is_ordered(n as int, u128::MAX as int, crate::NANOS_PER_HOUR as int);
    lemma_div_is_ordered(r1 as int, crate::NANOS_PER_HOUR as int - 1, crate::NANOS_PER_MINUTE as int);
    if m == 0 {
        if r4 == 0 {
            let comps = seq![RtComp::Whole(h, seq!['h'])];
            assert(comps[0] == RtComp::Whole(h, seq!['h']));
            assert(comp_wf(comps[0]));
            assert(comp_render(comps[0]) =~= (dec_digits(h) + seq!['h']));
            assert(comp_mult(seq!['h']) == 3_600_000_000_000);
            assert(comp_sum(comps[0]) == h * 3_600_000_000_000);
            assert(forall|x: int| 0 <= x < comps.len() ==> comp_wf(#[trigger] comps[x]));
            assert(forall|x: int| 0 <= x < comps.len() - 1 ==> (#[trigger] comps[x]) is Whole);
            assert(chain_render(comps) =~= (dec_digits(h) + seq!['h']));
            assert(chain_render(comps) =~= crate::render::spec_format_exact(n));
            assert(chain_sum(comps) == h * 3_600_000_000_000);
            assert(chain_sum(comps) == n);
            comps
        } else {
            let comps = seq![RtComp::Whole(h, seq!['h']), RtComp::Dec(r4, 9, seq!['s'])];
            assert(comps[0] == RtComp::Whole(h, seq!['h']));
            assert(comp_wf(comps[0]));
            assert(comp_render(comps[0]) =~= (dec_digits(h) + seq!['h']));
            assert(comp_mult(seq!['h']) == 3_600_000_000_000);
            assert(comp_sum(comps[0]) == h * 3_600_000_000_000);
            assert(comps[1] == RtComp::Dec(r4, 9, seq!['s']));
            assert(comp_wf(comps[1]));
            assert(comp_render(comps[1]) =~= (crate::format::full_dec_str(r4, pow10(9) as u128, 9) + seq!['s']));
            assert(comp_sum(comps[1]) == r4);
            assert(comps[0] is Whole);
            assert(forall|x: int| 0 <= x < comps.len() ==> comp_wf(#[trigger] comps[x]));
            assert(forall|x: int| 0 <= x < comps.len() - 1 ==> (#[trigger] comps[x]) is Whole);
            assert(chain_render(comps) =~= (dec_digits(h) + seq!['h']) + seq![' '] + (crate::format::full_dec_str(r4, pow10(9) as u128, 9) + seq!['s']));
            assert(chain_render(comps) =~= crate::render::spec_format_exact(n));
            assert(chain_sum(comps) == h * 3_600_000_000_000 + r4);
            assert(chain_sum(comps) == n);
            comps
        }
    } else {
        if r4 == 0 {
            let comps = seq![RtComp::Whole(h, seq!['h']), RtComp::Whole(m, seq!['m'])];
            assert(comps[0] == RtComp::Whole(h, seq!['h']));
            assert(comp_wf(comps[0]));
            assert(comp_render(comps[0]) =~= (dec_digits(h) + seq!['h']));
            assert(comp_mult(seq!['h']) == 3_600_000_000_000);
            assert(comp_sum(comps[0]) == h * 3_600_000_000_000);
            assert(comps[1] == RtComp::Whole(m, seq!['m']));
            assert(comp_wf(comps[1]));
            assert(comp_render(comps[1]) =~= (dec_digits(m) + seq!['m']));
            assert(comp_mult(seq!['m']) == 60_000_000_000);
            assert(comp_sum(comps[1]) == m * 60_000_000_000);
            assert(comps[0] is Whole);
            assert(forall|x: int| 0 <= x < comps.len() ==> comp_wf(#[trigger] comps[x]));
            assert(forall|x: int| 0 <= x < comps.len() - 1 ==> (#[trigger] comps[x]) is Whole);
            assert(chain_render(comps) =~= (dec_digits(h) + seq!['h']) + seq![' '] + (dec_digits(m) + seq!['m']));
            assert(chain_render(comps) =~= crate::render::spec_format_exact(n));
            assert(chain_sum(comps) == h * 3_600_000_000_000 + m * 60_000_000_000);
            assert(chain_sum(comps) == n);
            comps
        } else {
            let comps = seq![RtComp::Whole(h, seq!['h']), RtComp::Whole(m, seq!['m']), RtComp::Dec(r4, 9, seq!['s'])];
            assert(comps[0] == RtComp::Whole(h, seq!['h']));
            assert(comp_wf(comps[0]));
            assert(comp_render(comps[0]) =~= (dec_digits(h) + seq!['h']));
            assert(comp_mult(seq!['h']) == 3_600_000_000_000);
            assert(comp_sum(comps[0]) == h * 3_600_000_000_000);
            assert(comps[1] == RtComp::Whole(m, seq!['m']));
            assert(comp_wf(comps[1]));
            assert(comp_render(comps[1]) =~= (dec_digits(m) + seq!['m']));
            assert(comp_mult(seq!['m']) == 60_000_000_000);
            assert(comp_sum(comps[1]) == m * 60_000_000_000);
            assert(comps[2] == RtComp::Dec(r4, 9, seq!['s']));
            assert(comp_wf(comps[2]));
            assert(comp_render(comps[2]) =~= (crate::format::full_dec_str(r4, pow10(9) as u128, 9) + seq!['s']));
            assert(comp_sum(comps[2]) == r4);
            assert(comps[0] is Whole);
            assert(comps[1] is Whole);
            assert(forall|x: int| 0 <= x < comps.len() ==> comp_wf(#[trigger] comps[x]));
            assert(forall|x: int| 0 <= x < comps.len() - 1 ==> (#[trigger] comps[x]) is Whole);
            assert(chain_render(comps) =~= (dec_digits(h) + seq!['h']) + seq![' '] + (dec_digits(m) + seq!['m']) + seq![' '] + (crate::format::full_dec_str(r4, pow10(9) as u128, 9) + seq!['s']));
            assert(chain_render(comps) =~= crate::render::spec_format_exact(n));
            assert(chain_sum(comps) == h * 3_600_000_000_000 + m * 60_000_000_000 + r4);
            assert(chain_sum(comps) == n);
            comps
        }
    }
}

/// The components the exact formatter renders at this magnitude tier.
#[verifier::rlimit(100)]
#[verifier::spinoff_prover]
proof fn rt_tier_day(n: u128) -> (comps: Seq<RtComp>)
    requires
        crate::NANOS_PER_DAY <= n < crate::NANOS_PER_YEAR,
    ensures
        comps.len() >= 1,
        forall|x: int| 0 <= x < comps.len() ==> comp_wf(#[trigger] comps[x]),
        forall|x: int| 0 <= x < comps.len() - 1 ==> (#[trigger] comps[x]) is Whole,
        chain_render(comps) == crate::render::spec_format_exact(n),
        chain_sum(comps) == n,
{
    reveal_with_fuel(chain_render, 8);
    reveal_with_fuel(chain_sum, 8);
    lemma_pow10_values();
    assert((pow10(9) as u128) == crate::NANOS_PER_SEC);
    assert((pow10(6) as u128) == crate::NANOS_PER_MILLI);
    assert((pow10(3) as u128) == crate::NANOS_PER_MICRO);
    let d = n / crate::NANOS_PER_DAY;
    let r1 = n % crate::NANOS_PER_DAY;
    let h = r1 / crate::NANOS_PER_HOUR;
    let r2 = r1 % crate::NANOS_PER_HOUR;
    let m = r2 / crate::NANOS_PER_MINUTE;
    let r4 = r2 % crate::NANOS_PER_MINUTE;
    lemma_fundamental_div_mod(n as int, crate::NANOS_PER_DAY as int);
    lemma_mod_bound(n as int, crate::NANOS_PER_DAY as int);
    lemma_fundamental_div_mod(r1 as int, crate::NANOS_PER_HOUR as int);
    lemma_mod_bound(r1 as int, crate::NANOS_PER_HOUR as int);
    lemma_fundamental_div_mod(r2 as int, crate::NANOS_PER_MINUTE as int);
    lemma_mod_bound(r2 as int, crate::NANOS_PER_MINUTE as int);
    lemma_div_is_ordered(n as int, u128::MAX as int, crate::NANOS_PER_DAY as int);
    lemma_div_is_ordered(r1 as int, crate::NANOS_PER_DAY as int - 1, crate::NANOS_PER_HOUR as int);
    lemma_div_is_ordered(r2 as int, crate::NANOS_PER_HOUR as int - 1, crate::NANOS_PER_MINUTE as int);
    if h == 0 {
        if m == 0 {
            if r4 == 0 {
                let comps = seq![RtComp::Whole(d, seq!['d'])];
                assert(comps[0] == RtComp::Whole(d, seq!['d']));
                assert(comp_wf(comps[0]));
                assert(comp_render(comps[0]) =~= (dec_digits(d) + seq!['d']));
                assert(comp_mult(seq!['d']) == 86_400_000_000_000);
                assert(comp_sum(comps[0]) == d * 86_400_000_000_000);
                assert(forall|x: int| 0 <= x < comps.len() ==> comp_wf(#[trigger] comps[x]));
                assert(forall|x: int| 0 <= x < comps.len() - 1 ==> (#[trigger] comps[x]) is Whole);
                assert(chain_render(comps) =~= (dec_digits(d) + seq!['d']));
                assert(chain_render(comps) =~= crate::render::spec_format_exact(n));
                assert(chain_sum(comps) == d * 86_400_000_000_000);
                assert(chain_sum(comps) == n);
                comps
            } else {
                let comps = seq![RtComp::Whole(d, seq!['d']), RtComp::Dec(r4, 9, seq!['s'])];
                assert(comps[0] == RtComp::Whole(d, seq!['d']));
                assert(comp_wf(comps[0]));
                assert(comp_render(comps[0]) =~= (dec_digits(d) + seq!['d']));
                assert(comp_mult(seq!['d']) == 86_400_000_000_000);
                assert(comp_sum(comps[0]) == d * 86_400_000_000_000);
                assert(comps[1] == RtComp::Dec(r4, 9, seq!['s']));
                assert(comp_wf(comps[1]));
                assert(comp_render(comps[1]) =~= (crate::format::full_dec_str(r4, pow10(9) as u128, 9) + seq!['s']));
                assert(comp_sum(comps[1]) == r4);
                assert(comps[0] is Whole);
                assert(forall|x: int| 0 <= x < comps.len() ==> comp_wf(#[trigger] comps[x]));
                assert(forall|x: int| 0 <= x < comps.len() - 1 ==> (#[trigger] comps[x]) is Whole);
                assert(chain_render(comps) =~= (dec_digits(d) + seq!['d']) + seq![' '] + (crate::format::full_dec_str(r4, pow10(9) as u128, 9) + seq!['s']));
                assert(chain_render(comps) =~= crate::render::spec_format_exact(n));
                assert(chain_sum(comps) == d * 86_400_000_000_000 + r4);
                assert(chain_sum(comps) == n);
                comps
            }
        } else {
            if r4 == 0 {
                let comps = seq![RtComp::Whole(d, seq!['d']), RtComp::Whole(m, seq!['m'])];
                assert(comps[0] == RtComp::Whole(d, seq!['d']));
                assert(comp_wf(comps[0]));
                assert(comp_render(comps[0]) =~= (dec_digits(d) + seq!['d']));
                assert(comp_mult(seq!['d']) == 86_400_000_000_000);
                assert(comp_sum(comps[0]) == d * 86_400_000_000_000);
                assert(comps[1] == RtComp::Whole(m, seq!['m']));
                assert(comp_wf(comps[1]));
                assert(comp_render(comps[1]) =~= (dec_digits(m) + seq!['m']));
                assert(comp_mult(seq!['m']) == 60_000_000_000);
                assert(comp_sum(comps[1]) == m * 60_000_000_000);
                assert(comps[0] is Whole);
                assert(forall|x: int| 0 <= x < comps.len() ==> comp_wf(#[trigger] comps[x]));
                assert(forall|x: int| 0 <= x < comps.len() - 1 ==> (#[trigger] comps[x]) is Whole);
                assert(chain_render(comps) =~= (dec_digits(d) + seq!['d']) + seq![' '] + (dec_digits(m) + seq!['m']));
                assert(chain_render(comps) =~= crate::render::spec_format_exact(n));
                assert(chain_sum(comps) == d * 86_400_000_000_000 + m * 60_000_000_000);
                assert(chain_sum(comps) == n);
                comps
            } else {
                let comps = seq![RtComp::Whole(d, seq!['d']), RtComp::Whole(m, seq!['m']), RtComp::Dec(r4, 9, seq!['s'])];
                assert(comps[0] == RtComp::Whole(d, seq!['d']));
                assert(comp_wf(comps[0]));
                assert(comp_render(comps[0]) =~= (dec_digits(d) + seq!['d']));
                assert(comp_mult(seq!['d']) == 86_400_000_000_000);
                assert(comp_sum(comps[0]) == d * 86_400_000_000_000);
                assert(comps[1] == RtComp::Whole(m, seq!['m']));
                assert(comp_wf(comps[1]));
                assert(comp_render(comps[1]) =~= (dec_digits(m) + seq!['m']));
                assert(comp_mult(seq!['m']) == 60_000_000_000);
                assert(comp_sum(comps[1]) == m * 60_000_000_000);
                assert(comps[2] == RtComp::Dec(r4, 9, seq!['s']));
                assert(comp_wf(comps[2]));
                assert(comp_render(comps[2]) =~= (crate::format::full_dec_str(r4, pow10(9) as u128, 9) + seq!['s']));
                assert(comp_sum(comps[2]) == r4);
                assert(comps[0] is Whole);
                assert(comps[1] is Whole);
                assert(forall|x: int| 0 <= x < comps.len() ==> comp_wf(#[trigger] comps[x]));
                assert(forall|x: int| 0 <= x < comps.len() - 1 ==> (#[trigger] comps[x]) is Whole);
                assert(chain_render(comps) =~= (dec_digits(d) + seq!['d']) + seq![' '] + (dec_digits(m) + seq!['m']) + seq![' '] + (crate::format::full_dec_str(r4, pow10(9) as u128, 9) + seq!['s']));
                assert(chain_render(comps) =~= crate::render::spec_format_exact(n));
                assert(chain_sum(comps) == d * 86_400_000_000_000 + m * 60_000_000_000 + r4);
                assert(chain_sum(comps) == n);
                comps
            }
        }
    } else {
        if m == 0 {
            if r4 == 0 {
                let comps = seq![RtComp::Whole(d, seq!['d']), RtComp::Whole(h, seq!['h'])];
                assert(comps[0] == RtComp::Whole(d, seq!['d']));
                assert(comp_wf(comps[0]));
                assert(comp_render(comps[0]) =~= (dec_digits(d) + seq!['d']));
                assert(comp_mult(seq!['d']) == 86_400_000_000_000);
                assert(comp_sum(comps[0]) == d * 86_400_000_000_000);
                assert(comps[1] == RtComp::Whole(h, seq!['h']));
                assert(comp_wf(comps[1]));
                assert(comp_render(comps[1]) =~= (dec_digits(h) + seq!['h']));
                assert(comp_mult(seq!['h']) == 3_600_000_000_000);
                assert(comp_sum(comps[1]) == h * 3_600_000_000_000);
                assert(comps[0] is Whole);
                assert(forall|x: int| 0 <= x < comps.len() ==> comp_wf(#[trigger] comps[x]));
                assert(forall|x: int| 0 <= x < comps.len() - 1 ==> (#[trigger] comps[x]) is Whole);
                assert(chain_render(comps) =~= (dec_digits(d) + seq!['d']) + seq![' '] + (dec_digits(h) + seq!['h']));
                assert(chain_render(comps) =~= crate::render::spec_format_exact(n));
                assert(chain_sum(comps) == d * 86_400_000_000_000 + h * 3_600_000_000_000);
                assert(chain_sum(comps) == n);
                comps
            } else {
                let comps = seq![RtComp::Whole(d, seq!['d']), RtComp::Whole(h, seq!['h']), RtComp::Dec(r4, 9, seq!['s'])];
                assert(comps[0] == RtComp::Whole(d, seq!['d']));
                assert(comp_wf(comps[0]));
                assert(comp_render(comps[0]) =~= (dec_digits(d) + seq!['d']));
                assert(comp_mult(seq!['d']) == 86_400_000_000_000);
                assert(comp_sum(comps[0]) == d * 86_400_000_000_000);
                assert(comps[1] == RtComp::Whole(h, seq!['h']));
                assert(comp_wf(comps[1]));
                assert(comp_render(comps[1]) =~= (dec_digits(h) + seq!['h']));
                assert(comp_mult(seq!['h']) == 3_600_000_000_000);
                assert(comp_sum(comps[1]) == h * 3_600_000_000_000);
                assert(comps[2] == RtComp::Dec(r4, 9, seq!['s']));
                assert(comp_wf(comps[2]));
                assert(comp_render(comps[2]) =~= (crate::format::full_dec_str(r4, pow10(9) as u128, 9) + seq!['s']));
                assert(comp_sum(comps[2]) == r4);
                assert(comps[0] is Whole);
                assert(comps[1] is Whole);
                assert(forall|x: int| 0 <= x < comps.len() ==> comp_wf(#[trigger] comps[x]));
                assert(forall|x: int| 0 <= x < comps.len() - 1 ==> (#[trigger] comps[x]) is Whole);
                assert(chain_render(comps) =~= (dec_digits(d) + seq!['d']) + seq![' '] + (dec_digits(h) + seq!['h']) + seq![' '] + (crate::format::full_dec_str(r4, pow10(9) as u128, 9) + seq!['s']));
                assert(chain_render(comps) =~= crate::render::spec_format_exact(n));
                assert(chain_sum(comps) == d * 86_400_000_000_000 + h * 3_600_000_000_000 + r4);
                assert(chain_sum(comps) == n);
                comps
            }
        } else {
            if r4 == 0 {
                let comps = seq![RtComp::Whole(d, seq!['d']), RtComp::Whole(h, seq!['h']), RtComp::Whole(m, seq!['m'])];
                assert(comps[0] == RtComp::Whole(d, seq!['d']));
                assert(comp_wf(comps[0]));
                assert(comp_render(comps[0]) =~= (dec_digits(d) + seq!['d']));
                assert(comp_mult(seq!['d']) == 86_400_000_000_000);
                assert(comp_sum(comps[0]) == d * 86_400_000_000_000);
                assert(comps[1] == RtComp::Whole(h, seq!['h']));
                assert(comp_wf(comps[1]));
                assert(comp_render(comps[1]) =~= (dec_digits(h) + seq!['h']));
                assert(comp_mult(seq!['h']) == 3_600_000_000_000);
                assert(comp_sum(comps[1]) == h * 3_600_000_000_000);
                assert(comps[2] == RtComp::Whole(m, seq!['m']));
                assert(comp_wf(comps[2]));
                assert(comp_render(comps[2]) =~= (dec_digits(m) + seq!['m']));
                assert(comp_mult(seq!['m']) == 60_000_000_000);
                assert(comp_sum(comps[2]) == m * 60_000_000_000);
                assert(comps[0] is Whole);
                assert(comps[1] is Whole);
                assert(forall|x: int| 0 <= x < comps.len() ==> comp_wf(#[trigger] comps[x]));
                assert(forall|x: int| 0 <= x < comps.len() - 1 ==> (#[trigger] comps[x]) is Whole);
                assert(chain_render(comps) =~= (dec_digits(d) + seq!['d']) + seq![' '] + (dec_digits(h) + seq!['h']) + seq![' '] + (dec_digits(m) + seq!['m']));
                assert(chain_render(comps) =~= crate::render::spec_format_exact(n));
                assert(chain_sum(comps) == d * 86_400_000_000_000 + h * 3_600_000_000_000 + m * 60_000_000_000);
                assert(chain_sum(comps) == n);
                comps
            } else {
                let comps = seq![RtComp::Whole(d, seq!['d']), RtComp::Whole(h, seq!['h']), RtComp::Whole(m, seq!['m']), RtComp::Dec(r4, 9, seq!['s'])];
                assert(comps[0] == RtComp::Whole(d, seq!['d']));
                assert(comp_wf(comps[0]));
                assert(comp_render(comps[0]) =~= (dec_digits(d) + seq!['d']));
                assert(comp_mult(seq!['d']) == 86_400_000_000_000);
                assert(comp_sum(comps[0]) == d * 86_400_000_000_000);
                assert(comps[1] == RtComp::Whole(h, seq!['h']));
                assert(comp_wf(comps[1]));
                assert(comp_render(comps[1]) =~= (dec_digits(h) + seq!['h']));
                assert(comp_mult(seq!['h']) == 3_600_000_000_000);
                assert(comp_sum(comps[1]) == h * 3_600_000_000_000);
                assert(comps[2] == RtComp::Whole(m, seq!['m']));
                assert(comp_wf(comps[2]));
                assert(comp_render(comps[2]) =~= (dec_digits(m) + seq!['m']));
                assert(comp_mult(seq!['m']) == 60_000_000_000);
                assert(comp_sum(comps[2]) == m * 60_000_000_000);
                assert(comps[3] == RtComp::Dec(r4, 9, seq!['s']));
                assert(comp_wf(comps[3]));
                assert(comp_render(comps[3]) =~= (crate::format::full_dec_str(r4, pow10(9) as u128, 9) + seq!['s']));
                assert(comp_sum(comps[3]) == r4);
                assert(comps[0] is Whole);
                assert(comps[1] is Whole);
                assert(comps[2] is Whole);
                assert(forall|x: int| 0 <= x < comps.len() ==> comp_wf(#[trigger] comps[x]));
                assert(forall|x: int| 0 <= x < comps.len() - 1 ==> (#[trigger] comps[x]) is Whole);
                assert(chain_render(comps) =~= (dec_digits(d) + seq!['d']) + seq![' '] + (dec_digits(h) + seq!['h']) + seq![' '] + (dec_digits(m) + seq!['m']) + seq![' '] + (crate::format::full_dec_str(r4, pow10(9) as u128, 9) + seq!['s']));
                assert(chain_render(comps) =~= crate::render::spec_format_exact(n));
                assert(chain_sum(comps) == d * 86_400_000_000_000 + h * 3_600_000_000_000 + m * 60_000_000_000 + r4);
                assert(chain_sum(comps) == n);
                comps
            }
        }
    }
}

/// The year tier's components (no whole days).
#[verifier::rlimit(100)]
#[verifier::spinoff_prover]
proof fn rt_tier_year_bare(n: u128) -> (comps: Seq<RtComp>)
    requires
        crate::NANOS_PER_YEAR <= n,
        (n % crate::NANOS_PER_YEAR) / crate::NANOS_PER_DAY == 0,
    ensures
        comps.len() >= 1,
        forall|x: int| 0 <= x < comps.len() ==> comp_wf(#[trigger] comps[x]),
        forall|x: int| 0 <= x < comps.len() - 1 ==> (#[trigger] comps[x]) is Whole,
        chain_render(comps) == crate::render::spec_format_exact(n),
        chain_sum(comps) == n,
{
    reveal_with_fuel(chain_render, 8);
    reveal_with_fuel(chain_sum, 8);
    lemma_pow10_values();
    assert((pow10(9) as u128) == crate::NANOS_PER_SEC);
    let y = n / crate::NANOS_PER_YEAR;
    let r1 = n % crate::NANOS_PER_YEAR;
    let d = r1 / crate::NANOS_PER_DAY;
    let r2 = r1 % crate::NANOS_PER_DAY;
    let h = r2 / crate::NANOS_PER_HOUR;
    let r3 = r2 % crate::NANOS_PER_HOUR;
    let m = r3 / crate::NANOS_PER_MINUTE;
    let r4 = r3 % crate::NANOS_PER_MINUTE;
    lemma_fundamental_div_mod(n as int, crate::NANOS_PER_YEAR as int);
    lemma_mod_bound(n as int, crate::NANOS_PER_YEAR as int);
    lemma_fundamental_div_mod(r1 as int, crate::NANOS_PER_DAY as int);
    lemma_mod_bound(r1 as int, crate::NANOS_PER_DAY as int);
    lemma_fundamental_div_mod(r2 as int, crate::NANOS_PER_HOUR as int);
    lemma_mod_bound(r2 as int, crate::NANOS_PER_HOUR as int);
    lemma_fundamental_div_mod(r3 as int, crate::NANOS_PER_MINUTE as int);
    lemma_mod_bound(r3 as int, crate::NANOS_PER_MINUTE as int);
    lemma_div_is_ordered(n as int, u128::MAX as int, crate::NANOS_PER_YEAR as int);
    lemma_div_is_ordered(r1 as int, crate::NANOS_PER_YEAR as int - 1, crate::NANOS_PER_DAY as int);
    lemma_div_is_ordered(r2 as int, crate::NANOS_PER_DAY as int - 1, crate::NANOS_PER_HOUR as int);
    lemma_div_is_ordered(r3 as int, crate::NANOS_PER_HOUR as int - 1, crate::NANOS_PER_MINUTE as int);
    if h == 0 {
        if m == 0 {
            if r4 == 0 {
                let comps = seq![RtComp::Whole(y, seq!['y', 'r'])];
                assert(comps[0] == RtComp::Whole(y, seq!['y', 'r']));
                assert(comp_wf(comps[0]));
                assert(comp_render(comps[0]) =~= (dec_digits(y) + seq!['y', 'r']));
                assert(comp_mult(seq!['y', 'r']) == 31_557_600_000_000_000);
                assert(comp_sum(comps[0]) == y * 31_557_600_000_000_000);
                assert(forall|x: int| 0 <= x < comps.len() ==> comp_wf(#[trigger] comps[x]));
                assert(forall|x: int| 0 <= x < comps.len() - 1 ==> (#[trigger] comps[x]) is Whole);
                assert(chain_render(comps) =~= (dec_digits(y) + seq!['y', 'r']));
                assert(chain_render(comps) =~= crate::render::spec_format_exact(n));
                assert(chain_sum(comps) == y * 31_557_600_000_000_000);
                assert(chain_sum(comps) == n);
                comps
            } else {
                let comps = seq![RtComp::Whole(y, seq!['y', 'r']), RtComp::Dec(r4, 9, seq!['s'])];
                assert(comps[0] == RtComp::Whole(y, seq!['y', 'r']));
                assert(comp_wf(comps[0]));
                assert(comp_render(comps[0]) =~= (dec_digits(y) + seq!['y', 'r']));
                assert(comp_mult(seq!['y', 'r']) == 31_557_600_000_000_000);
                assert(comp_sum(comps[0]) == y * 31_557_600_000_000_000);
                assert(comps[1] == RtComp::Dec(r4, 9, seq!['s']));
                assert(comp_wf(comps[1]));
                assert(comp_render(comps[1]) =~= (crate::format::full_dec_str(r4, pow10(9) as u128, 9) + seq!['s']));
                assert(comp_sum(comps[1]) == r4);
                assert(comps[0] is Whole);
                assert(forall|x: int| 0 <= x < comps.len() ==> comp_wf(#[trigger] comps[x]));
                assert(forall|x: int| 0 <= x < comps.len() - 1 ==> (#[trigger] comps[x]) is Whole);
                assert(chain_render(comps) =~= (dec_digits(y) + seq!['y', 'r']) + seq![' '] + (crate::format::full_dec_str(r4, pow10(9) as u128, 9) + seq!['s']));
                assert(chain_render(comps) =~= crate::render::spec_format_exact(n));
                assert(chain_sum(comps) == y * 31_557_600_000_000_000 + r4);
                assert(chain_sum(comps) == n);
                comps
            }
        } else {
            if r4 == 0 {
                let comps = seq![RtComp::Whole(y, seq!['y', 'r']), RtComp::Whole(m, seq!['m'])];
                assert(comps[0] == RtComp::Whole(y, seq!['y', 'r']));
                assert(comp_wf(comps[0]));
                assert(comp_render(comps[0]) =~= (dec_digits(y) + seq!['y', 'r']));
                assert(comp_mult(seq!['y', 'r']) == 31_557_600_000_000_000);
                assert(comp_sum(comps[0]) == y * 31_557_600_000_000_000);
                assert(comps[1] == RtComp::Whole(m, seq!['m']));
                assert(comp_wf(comps[1]));
                assert(comp_render(comps[1]) =~= (dec_digits(m) + seq!['m']));
                assert(comp_mult(seq!['m']) == 60_000_000_000);
                assert(comp_sum(comps[1]) == m * 60_000_000_000);
                assert(comps[0] is Whole);
                assert(forall|x: int| 0 <= x < comps.len() ==> comp_wf(#[trigger] comps[x]));
                assert(forall|x: int| 0 <= x < comps.len() - 1 ==> (#[trigger] comps[x]) is Whole);
                assert(chain_render(comps) =~= (dec_digits(y) + seq!['y', 'r']) + seq![' '] + (dec_digits(m) + seq!['m']));
                assert(chain_render(comps) =~= crate::render::spec_format_exact(n));
                assert(chain_sum(comps) == y * 31_557_600_000_000_000 + m * 60_000_000_000);
                assert(chain_sum(comps) == n);
                comps
            } else {
                let comps = seq![RtComp::Whole(y, seq!['y', 'r']), RtComp::Whole(m, seq!['m']), RtComp::Dec(r4, 9, seq!['s'])];
                assert(comps[0] == RtComp::Whole(y, seq!['y', 'r']));
                assert(comp_wf(comps[0]));
                assert(comp_render(comps[0]) =~= (dec_digits(y) + seq!['y', 'r']));
                assert(comp_mult(seq!['y', 'r']) == 31_557_600_000_000_000);
                assert(comp_sum(comps[0]) == y * 31_557_600_000_000_000);
                assert(comps[1] == RtComp::Whole(m, seq!['m']));
                assert(comp_wf(comps[1]));
                assert(comp_render(comps[1]) =~= (dec_digits(m) + seq!['m']));
                assert(comp_mult(seq!['m']) == 60_000_000_000);
                assert(comp_sum(comps[1]) == m * 60_000_000_000);
                assert(comps[2] == RtComp::Dec(r4, 9, seq!['s']));
                assert(comp_wf(comps[2]));
                assert(comp_render(comps[2]) =~= (crate::format::full_dec_str(r4, pow10(9) as u128, 9) + seq!['s']));
                assert(comp_sum(comps[2]) == r4);
                assert(comps[0] is Whole);
                assert(comps[1] is Whole);
                assert(forall|x: int| 0 <= x < comps.len() ==> comp_wf(#[trigger] comps[x]));
                assert(forall|x: int| 0 <= x < comps.len() - 1 ==> (#[trigger] comps[x]) is Whole);
                assert(chain_render(comps) =~= (dec_digits(y) + seq!['y', 'r']) + seq![' '] + (dec_digits(m) + seq!['m']) + seq![' '] + (crate::format::full_dec_str(r4, pow10(9) as u128, 9) + seq!['s']));
                assert(chain_render(comps) =~= crate::render::spec_format_exact(n));
                assert(chain_sum(comps) == y * 31_557_600_000_000_000 + m * 60_000_000_000 + r4);
                assert(chain_sum(comps) == n);
                comps
            }
        }
    } else {
        if m == 0 {
            if r4 == 0 {
                let comps = seq![RtComp::Whole(y, seq!['y', 'r']), RtComp::Whole(h, seq!['h'])];
                assert(comps[0] == RtComp::Whole(y, seq!['y', 'r']));
                assert(comp_wf(comps[0]));
                assert(comp_render(comps[0]) =~= (dec_digits(y) + seq!['y', 'r']));
                assert(comp_mult(seq!['y', 'r']) == 31_557_600_000_000_000);
                assert(comp_sum(comps[0]) == y * 31_557_600_000_000_000);
                assert(comps[1] == RtComp::Whole(h, seq!['h']));
                assert(comp_wf(comps[1]));
                assert(comp_render(comps[1]) =~= (dec_digits(h) + seq!['h']));
                assert(comp_mult(seq!['h']) == 3_600_000_000_000);
                assert(comp_sum(comps[1]) == h * 3_600_000_000_000);
                assert(comps[0] is Whole);
                assert(forall|x: int| 0 <= x < comps.len() ==> comp_wf(#[trigger] comps[x]));
                assert(forall|x: int| 0 <= x < comps.len() - 1 ==> (#[trigger] comps[x]) is Whole);
                assert(chain_render(comps) =~= (dec_digits(y) + seq!['y', 'r']) + seq![' '] + (dec_digits(h) + seq!['h']));
                assert(chain_render(comps) =~= crate::render::spec_format_exact(n));
                assert(chain_sum(comps) == y * 31_557_600_000_000_000 + h * 3_600_000_000_000);
                assert(chain_sum(comps) == n);
                comps
            } else {
                let comps = seq![RtComp::Whole(y, seq!['y', 'r']), RtComp::Whole(h, seq!['h']), RtComp::Dec(r4, 9, seq!['s'])];
                assert(comps[0] == RtComp::Whole(y, seq!['y', 'r']));
                assert(comp_wf(comps[0]));
                assert(comp_render(comps[0]) =~= (dec_digits(y) + seq!['y', 'r']));
                assert(comp_mult(seq!['y', 'r']) == 31_557_600_000_000_000);
                assert(comp_sum(comps[0]) == y * 31_557_600_000_000_000);
                assert(comps[1] == RtComp::Whole(h, seq!['h']));
                assert(comp_wf(comps[1]));
                assert(comp_render(comps[1]) =~= (dec_digits(h) + seq!['h']));
                assert(comp_mult(seq!['h']) == 3_600_000_000_000);
                assert(comp_sum(comps[1]) == h * 3_600_000_000_000);
                assert(comps[2] == RtComp::Dec(r4, 9, seq!['s']));
                assert(comp_wf(comps[2]));
                assert(comp_render(comps[2]) =~= (crate::format::full_dec_str(r4, pow10(9) as u128, 9) + seq!['s']));
                assert(comp_sum(comps[2]) == r4);
                assert(comps[0] is Whole);
                assert(comps[1] is Whole);
                assert(forall|x: int| 0 <= x < comps.len() ==> comp_wf(#[trigger] comps[x]));
                assert(forall|x: int| 0 <= x < comps.len() - 1 ==> (#[trigger] comps[x]) is Whole);
                assert(chain_render(comps) =~= (dec_digits(y) + seq!['y', 'r']) + seq![' '] + (dec_digits(h) + seq!['h']) + seq![' '] + (crate::format::full_dec_str(r4, pow10(9) as u128, 9) + seq!['s']));
                assert(chain_render(comps) =~= crate::render::spec_format_exact(n));
                assert(chain_sum(comps) == y * 31_557_600_000_000_000 + h * 3_600_000_000_000 + r4);
                assert(chain_sum(comps) == n);
                comps
            }
        } else {
            if r4 == 0 {
                let comps = seq![RtComp::Whole(y, seq!['y', 'r']), RtComp::Whole(h, seq!['h']), RtComp::Whole(m, seq!['m'])];
                assert(comps[0] == RtComp::Whole(y, seq!['y', 'r']));
                assert(comp_wf(comps[0]));
                assert(comp_render(comps[0]) =~= (dec_digits(y) + seq!['y', 'r']));
                assert(comp_mult(seq!['y', 'r']) == 31_557_600_000_000_000);
                assert(comp_sum(comps[0]) == y * 31_557_600_000_000_000);
                assert(comps[1] == RtComp::Whole(h, seq!['h']));
                assert(comp_wf(comps[1]));
                assert(comp_render(comps[1]) =~= (dec_digits(h) + seq!['h']));
                assert(comp_mult(seq!['h']) == 3_600_000_000_000);
                assert(comp_sum(comps[1]) == h * 3_600_000_000_000);
                assert(comps[2] == RtComp::Whole(m, seq!['m']));
                assert(comp_wf(comps[2]));
                assert(comp_render(comps[2]) =~= (dec_digits(m) + seq!['m']));
                assert(comp_mult(seq!['m']) == 60_000_000_000);
                assert(comp_sum(comps[2]) == m * 60_000_000_000);
                assert(comps[0] is Whole);
                assert(comps[1] is Whole);
                assert(forall|x: int| 0 <= x < comps.len() ==> comp_wf(#[trigger] comps[x]));
                assert(forall|x: int| 0 <= x < comps.len() - 1 ==> (#[trigger] comps[x]) is Whole);
                assert(chain_render(comps) =~= (dec_digits(y) + seq!['y', 'r']) + seq![' '] + (dec_digits(h) + seq!['h']) + seq![' '] + (dec_digits(m) + seq!['m']));
                assert(chain_render(comps) =~= crate::render::spec_format_exact(n));
                assert(chain_sum(comps) == y * 31_557_600_000_000_000 + h * 3_600_000_000_000 + m * 60_000_000_000);
                assert(chain_sum(comps) == n);
                comps
            } else {
                let comps = seq![RtComp::Whole(y, seq!['y', 'r']), RtComp::Whole(h, seq!['h']), RtComp::Whole(m, seq!['m']), RtComp::Dec(r4, 9, seq!['s'])];
                assert(comps[0] == RtComp::Whole(y, seq!['y', 'r']));
                assert(comp_wf(comps[0]));
                assert(comp_render(comps[0]) =~= (dec_digits(y) + seq!['y', 'r']));
                assert(comp_mult(seq!['y', 'r']) == 31_557_600_000_000_000);
                assert(comp_sum(comps[0]) == y * 31_557_600_000_000_000);
                assert(comps[1] == RtComp::Whole(h, seq!['h']));
                assert(comp_wf(comps[1]));
                assert(comp_render(comps[1]) =~= (dec_digits(h) + seq!['h']));
                assert(comp_mult(seq!['h']) == 3_600_000_000_000);
                assert(comp_sum(comps[1]) == h * 3_600_000_000_000);
                assert(comps[2] == RtComp::Whole(m, seq!['m']));
                assert(comp_wf(comps[2]));
                assert(comp_render(comps[2]) =~= (dec_digits(m) + seq!['m']));
                assert(comp_mult(seq!['m']) == 60_000_000_000);
                assert(comp_sum(comps[2]) == m * 60_000_000_000);
                assert(comps[3] == RtComp::Dec(r4, 9, seq!['s']));
                assert(comp_wf(comps[3]));
                assert(comp_render(comps[3]) =~= (crate::format::full_dec_str(r4, pow10(9) as u128, 9) + seq!['s']));
                assert(comp_sum(comps[3]) == r4);
                assert(comps[0] is Whole);
                assert(comps[1] is Whole);
                assert(comps[2] is Whole);
                assert(forall|x: int| 0 <= x < comps.len() ==> comp_wf(#[trigger] comps[x]));
                assert(forall|x: int| 0 <= x < comps.len() - 1 ==> (#[trigger] comps[x]) is Whole);
                assert(chain_render(comps) =~= (dec_digits(y) + seq!['y', 'r']) + seq![' '] + (dec_digits(h) + seq!['h']) + seq![' '] + (dec_digits(m) + seq!['m']) + seq![' '] + (crate::format::full_dec_str(r4, pow10(9) as u128, 9) + seq!['s']));
                assert(chain_render(comps) =~= crate::render::spec_format_exact(n));
                assert(chain_sum(comps) == y * 31_557_600_000_000_000 + h * 3_600_000_000_000 + m * 60_000_000_000 + r4);
                assert(chain_sum(comps) == n);
                comps
            }
        }
    }
}

/// The year tier's components: whole days, no whole hours.
#[verifier::rlimit(100)]
#[verifier::spinoff_prover]
proof fn rt_tier_year_days_flat(n: u128) -> (comps: Seq<RtComp>)
    requires
        crate::NANOS_PER_YEAR <= n,
        (n % crate::NANOS_PER_YEAR) / crate::NANOS_PER_DAY != 0,
        ((n % crate::NANOS_PER_YEAR) % crate::NANOS_PER_DAY) / crate::NANOS_PER_HOUR == 0,
    ensures
        comps.len() >= 1,
        forall|x: int| 0 <= x < comps.len() ==> comp_wf(#[trigger] comps[x]),
        forall|x: int| 0 <= x < comps.len() - 1 ==> (#[trigger] comps[x]) is Whole,
        chain_render(comps) == crate::render::spec_format_exact(n),
        chain_sum(comps) == n,
{
    reveal_with_fuel(chain_render, 8);
    reveal_with_fuel(chain_sum, 8);
    lemma_pow10_values();
    assert((pow10(9) as u128) == crate::NANOS_PER_SEC);
    let y = n / crate::NANOS_PER_YEAR;
    let r1 = n % crate::NANOS_PER_YEAR;
    let d = r1 / crate::NANOS_PER_DAY;
    let r2 = r1 % crate::NANOS_PER_DAY;
    let h = r2 / crate::NANOS_PER_HOUR;
    let r3 = r2 % crate::NANOS_PER_HOUR;
    let m = r3 / crate::NANOS_PER_MINUTE;
    let r4 = r3 % crate::NANOS_PER_MINUTE;
    lemma_fundamental_div_mod(n as int, crate::NANOS_PER_YEAR as int);
    lemma_mod_bound(n as int, crate::NANOS_PER_YEAR as int);
    lemma_fundamental_div_mod(r1 as int, crate::NANOS_PER_DAY as int);
    lemma_mod_bound(r1 as int, crate::NANOS_PER_DAY as int);
    lemma_fundamental_div_mod(r2 as int, crate::NANOS_PER_HOUR as int);
    lemma_mod_bound(r2 as int, crate::NANOS_PER_HOUR as int);
    lemma_fundamental_div_mod(r3 as int, crate::NANOS_PER_MINUTE as int);
    lemma_mod_bound(r3 as int, crate::NANOS_PER_MINUTE as int);
    lemma_div_is_ordered(n as int, u128::MAX as int, crate::NANOS_PER_YEAR as int);
    lemma_div_is_ordered(r1 as int, crate::NANOS_PER_YEAR as int - 1, crate::NANOS_PER_DAY as int);
    lemma_div_is_ordered(r2 as int, crate::NANOS_PER_DAY as int - 1, crate::NANOS_PER_HOUR as int);
    lemma_div_is_ordered(r3 as int, crate::NANOS_PER_HOUR as int - 1, crate::NANOS_PER_MINUTE as int);
    if m == 0 {
        if r4 == 0 {
            let comps = seq![RtComp::Whole(y, seq!['y', 'r']), RtComp::Whole(d, seq!['d'])];
            assert(comps[0] == RtComp::Whole(y, seq!['y', 'r']));
            assert(comp_wf(comps[0]));
            assert(comp_render(comps[0]) =~= (dec_digits(y) + seq!['y', 'r']));
            assert(comp_mult(seq!['y', 'r']) == 31_557_600_000_000_000);
            assert(comp_sum(comps[0]) == y * 31_557_600_000_000_000);
            assert(comps[1] == RtComp::Whole(d, seq!['d']));
            assert(comp_wf(comps[1]));
            assert(comp_render(comps[1]) =~= (dec_digits(d) + seq!['d']));
            assert(comp_mult(seq!['d']) == 86_400_000_000_000);
            assert(comp_sum(comps[1]) == d * 86_400_000_000_000);
            assert(comps[0] is Whole);
            assert(forall|x: int| 0 <= x < comps.len() ==> comp_wf(#[trigger] comps[x]));
            assert(forall|x: int| 0 <= x < comps.len() - 1 ==> (#[trigger] comps[x]) is Whole);
            assert(chain_render(comps) =~= (dec_digits(y) + seq!['y', 'r']) + seq![' '] + (dec_digits(d) + seq!['d']));
            assert(chain_render(comps) =~= crate::render::spec_format_exact(n));
            assert(chain_sum(comps) == y * 31_557_600_000_000_000 + d * 86_400_000_000_000);
            assert(chain_sum(comps) == n);
            comps
        } else {
            let comps = seq![RtComp::Whole(y, seq!['y', 'r']), RtComp::Whole(d, seq!['d']), RtComp::Dec(r4, 9, seq!['s'])];
            assert(comps[0] == RtComp::Whole(y, seq!['y', 'r']));
            assert(comp_wf(comps[0]));
            assert(comp_render(comps[0]) =~= (dec_digits(y) + seq!['y', 'r']));
            assert(comp_mult(seq!['y', 'r']) == 31_557_600_000_000_000);
            assert(comp_sum(comps[0]) == y * 31_557_600_000_000_000);
            assert(comps[1] == RtComp::Whole(d, seq!['d']));
            assert(comp_wf(comps[1]));
            assert(comp_render(comps[1]) =~= (dec_digits(d) + seq!['d']));
            assert(comp_mult(seq!['d']) == 86_400_000_000_000);
            assert(comp_sum(comps[1]) == d * 86_400_000_000_000);
            assert(comps[2] == RtComp::Dec(r4, 9, seq!['s']));
            assert(comp_wf(comps[2]));
            assert(comp_render(comps[2]) =~= (crate::format::full_dec_str(r4, pow10(9) as u128, 9) + seq!['s']));
            assert(comp_sum(comps[2]) == r4);
            assert(comps[0] is Whole);
            assert(comps[1] is Whole);
            assert(forall|x: int| 0 <= x < comps.len() ==> comp_wf(#[trigger] comps[x]));
            assert(forall|x: int| 0 <= x < comps.len() - 1 ==> (#[trigger] comps[x]) is Whole);
            assert(chain_render(comps) =~= (dec_digits(y) + seq!['y', 'r']) + seq![' '] + (dec_digits(d) + seq!['d']) + seq![' '] + (crate::format::full_dec_str(r4, pow10(9) as u128, 9) + seq!['s']));
            assert(chain_render(comps) =~= crate::render::spec_format_exact(n));
            assert(chain_sum(comps) == y * 31_557_600_000_000_000 + d * 86_400_000_000_000 + r4);
            assert(chain_sum(comps) == n);
            comps
        }
    } else {
        if r4 == 0 {
            let comps = seq![RtComp::Whole(y, seq!['y', 'r']), RtComp::Whole(d, seq!['d']), RtComp::Whole(m, seq!['m'])];
            assert(comps[0] == RtComp::Whole(y, seq!['y', 'r']));
            assert(comp_wf(comps[0]));
            assert(comp_render(comps[0]) =~= (dec_digits(y) + seq!['y', 'r']));
            assert(comp_mult(seq!['y', 'r']) == 31_557_600_000_000_000);
            assert(comp_sum(comps[0]) == y * 31_557_600_000_000_000);
            assert(comps[1] == RtComp::Whole(d, seq!['d']));
            assert(comp_wf(comps[1]));
            assert(comp_render(comps[1]) =~= (dec_digits(d) + seq!['d']));
            assert(comp_mult(seq!['d']) == 86_400_000_000_000);
            assert(comp_sum(comps[1]) == d * 86_400_000_000_000);
            assert(comps[2] == RtComp::Whole(m, seq!['m']));
            assert(comp_wf(comps[2]));
            assert(comp_render(comps[2]) =~= (dec_digits(m) + seq!['m']));
            assert(comp_mult(seq!['m']) == 60_000_000_000);
            assert(comp_sum(comps[2]) == m * 60_000_000_000);
            assert(comps[0] is Whole);
            assert(comps[1] is Whole);
            assert(forall|x: int| 0 <= x < comps.len() ==> comp_wf(#[trigger] comps[x]));
            assert(forall|x: int| 0 <= x < comps.len() - 1 ==> (#[trigger] comps[x]) is Whole);
            assert(chain_render(comps) =~= (dec_digits(y) + seq!['y', 'r']) + seq![' '] + (dec_digits(d) + seq!['d']) + seq![' '] + (dec_digits(m) + seq!['m']));
            assert(chain_render(comps) =~= crate::render::spec_format_exact(n));
            assert(chain_sum(comps) == y * 31_557_600_000_000_000 + d * 86_400_000_000_000 + m * 60_000_000_000);
            assert(chain_sum(comps) == n);
            comps
        } else {
            let comps = seq![RtComp::Whole(y, seq!['y', 'r']), RtComp::Whole(d, seq!['d']), RtComp::Whole(m, seq!['m']), RtComp::Dec(r4, 9, seq!['s'])];
            assert(comps[0] == RtComp::Whole(y, seq!['y', 'r']));
            assert(comp_wf(comps[0]));
            assert(comp_render(comps[0]) =~= (dec_digits(y) + seq!['y', 'r']));
            assert(comp_mult(seq!['y', 'r']) == 31_557_600_000_000_000);
            assert(comp_sum(comps[0]) == y * 31_557_600_000_000_000);
            assert(comps[1] == RtComp::Whole(d, seq!['d']));
            assert(comp_wf(comps[1]));
            assert(comp_render(comps[1]) =~= (dec_digits(d) + seq!['d']));
            assert(comp_mult(seq!['d']) == 86_400_000_000_000);
            assert(comp_sum(comps[1]) == d * 86_400_000_000_000);
            assert(comps[2] == RtComp::Whole(m, seq!['m']));
            assert(comp_wf(comps[2]));
            assert(comp_render(comps[2]) =~= (dec_digits(m) + seq!['m']));
            assert(comp_mult(seq!['m']) == 60_000_000_000);
            assert(comp_sum(comps[2]) == m * 60_000_000_000);
            assert(comps[3] == RtComp::Dec(r4, 9, seq!['s']));
            assert(comp_wf(comps[3]));
            assert(comp_render(comps[3]) =~= (crate::format::full_dec_str(r4, pow10(9) as u128, 9) + seq!['s']));
            assert(comp_sum(comps[3]) == r4);
            assert(comps[0] is Whole);
            assert(comps[1] is Whole);
            assert(comps[2] is Whole);
            assert(forall|x: int| 0 <= x < comps.len() ==> comp_wf(#[trigger] comps[x]));
            assert(forall|x: int| 0 <= x < comps.len() - 1 ==> (#[trigger] comps[x]) is Whole);
            assert(chain_render(comps) =~= (dec_digits(y) + seq!['y', 'r']) + seq![' '] + (dec_digits(d) + seq!['d']) + seq![' '] + (dec_digits(m) + seq!['m']) + seq![' '] + (crate::format::full_dec_str(r4, pow10(9) as u128, 9) + seq!['s']));
            assert(chain_render(comps) =~= crate::render::spec_format_exact(n));
            assert(chain_sum(comps) == y * 31_557_600_000_000_000 + d * 86_400_000_000_000 + m * 60_000_000_000 + r4);
            assert(chain_sum(comps) == n);
            comps
        }
    }
}

/// The year tier's components: days and hours, no whole minutes.
#[verifier::rlimit(100)]
#[verifier::spinoff_prover]
proof fn rt_tier_year_dh_flat(n: u128) -> (comps: Seq<RtComp>)
    requires
        crate::NANOS_PER_YEAR <= n,
        (n % crate::NANOS_PER_YEAR) / crate::NANOS_PER_DAY != 0,
        ((n % crate::NANOS_PER_YEAR) % crate::NANOS_PER_DAY) / crate::NANOS_PER_HOUR != 0,
        (((n % crate::NANOS_PER_YEAR) % crate::NANOS_PER_DAY) % crate::NANOS_PER_HOUR) / crate::NANOS_PER_MINUTE == 0,
    ensures
        comps.len() >= 1,
        forall|x: int| 0 <= x < comps.len() ==> comp_wf(#[trigger] comps[x]),
        forall|x: int| 0 <= x < comps.len() - 1 ==> (#[trigger] comps[x]) is Whole,
        chain_render(comps) == crate::render::spec_format_exact(n),
        chain_sum(comps) == n,
{
    reveal_with_fuel(chain_render, 8);
    reveal_with_fuel(chain_sum, 8);
    lemma_pow10_values();
    assert((pow10(9) as u128) == crate::NANOS_PER_SEC);
    let y = n / crate::NANOS_PER_YEAR;
    let r1 = n % crate::NANOS_PER_YEAR;
    let d = r1 / crate::NANOS_PER_DAY;
    let r2 = r1 % crate::NANOS_PER_DAY;
    let h = r2 / crate::NANOS_PER_HOUR;
    let r3 = r2 % crate::NANOS_PER_HOUR;
    let m = r3 / crate::NANOS_PER_MINUTE;
    let r4 = r3 % crate::NANOS_PER_MINUTE;
    lemma_fundamental_div_mod(n as int, crate::NANOS_PER_YEAR as int);
    lemma_mod_bound(n as int, crate::NANOS_PER_YEAR as int);
    lemma_fundamental_div_mod(r1 as int, crate::NANOS_PER_DAY as int);
    lemma_mod_bound(r1 as int, crate::NANOS_PER_DAY as int);
    lemma_fundamental_div_mod(r2 as int, crate::NANOS_PER_HOUR as int);
    lemma_mod_bound(r2 as int, crate::NANOS_PER_HOUR as int);
    lemma_fundamental_div_mod(r3 as int, crate::NANOS_PER_MINUTE as int);
    lemma_mod_bound(r3 as int, crate::NANOS_PER_MINUTE as int);
    lemma_div_is_ordered(n as int, u128::MAX as int, crate::NANOS_PER_YEAR as int);
    lemma_div_is_ordered(r1 as int, crate::NANOS_PER_YEAR as int - 1, crate::NANOS_PER_DAY as int);
    lemma_div_is_ordered(r2 as int, crate::NANOS_PER_DAY as int - 1, crate::NANOS_PER_HOUR as int);
    lemma_div_is_ordered(r3 as int, crate::NANOS_PER_HOUR as int - 1, crate::NANOS_PER_MINUTE as int);
    if r4 == 0 {
        let comps = seq![RtComp::Whole(y, seq!['y', 'r']), RtComp::Whole(d, seq!['d']), RtComp::Whole(h, seq!['h'])];
        assert(comps[0] == RtComp::Whole(y, seq!['y', 'r']));
        assert(comp_wf(comps[0]));
        assert(comp_render(comps[0]) =~= (dec_digits(y) + seq!['y', 'r']));
        assert(comp_mult(seq!['y', 'r']) == 31_557_600_000_000_000);
        assert(comp_sum(comps[0]) == y * 31_557_600_000_000_000);
        assert(comps[1] == RtComp::Whole(d, seq!['d']));
        assert(comp_wf(comps[1]));
        assert(comp_render(comps[1]) =~= (dec_digits(d) + seq!['d']));
        assert(comp_mult(seq!['d']) == 86_400_000_000_000);
        assert(comp_sum(comps[1]) == d * 86_400_000_000_000);
        assert(comps[2] == RtComp::Whole(h, seq!['h']));
        assert(comp_wf(comps[2]));
        assert(comp_render(comps[2]) =~= (dec_digits(h) + seq!['h']));
        assert(comp_mult(seq!['h']) == 3_600_000_000_000);
        assert(comp_sum(comps[2]) == h * 3_600_000_000_000);
        assert(comps[0] is Whole);
        assert(comps[1] is Whole);
        assert(forall|x: int| 0 <= x < comps.len() ==> comp_wf(#[trigger] comps[x]));
        assert(forall|x: int| 0 <= x < comps.len() - 1 ==> (#[trigger] comps[x]) is Whole);
        assert(chain_render(comps) =~= (dec_digits(y) + seq!['y', 'r']) + seq![' '] + (dec_digits(d) + seq!['d']) + seq![' '] + (dec_digits(h) + seq!['h']));
        assert(chain_render(comps) =~= crate::render::spec_format_exact(n));
        assert(chain_sum(comps) == y * 31_557_600_000_000_000 + d * 86_400_000_000_000 + h * 3_600_000_000_000);
        assert(chain_sum(comps) == n);
        comps
    } else {
        let comps = seq![RtComp::Whole(y, seq!['y', 'r']), RtComp::Whole(d, seq!['d']), RtComp::Whole(h, seq!['h']), RtComp::Dec(r4, 9, seq!['s'])];
        assert(comps[0] == RtComp::Whole(y, seq!['y', 'r']));
        assert(comp_wf(comps[0]));
        assert(comp_render(comps[0]) =~= (dec_digits(y) + seq!['y', 'r']));
        assert(comp_mult(seq!['y', 'r']) == 31_557_600_000_000_000);
        assert(comp_sum(comps[0]) == y * 31_557_600_000_000_000);
        assert(comps[1] == RtComp::Whole(d, seq!['d']));
        assert(comp_wf(comps[1]));
        assert(comp_render(comps[1]) =~= (dec_digits(d) + seq!['d']));
        assert(comp_mult(seq!['d']) == 86_400_000_000_000);
        assert(comp_sum(comps[1]) == d * 86_400_000_000_000);
        assert(comps[2] == RtComp::Whole(h, seq!['h']));
        assert(comp_wf(comps[2]));
        assert(comp_render(comps[2]) =~= (dec_digits(h) + seq!['h']));
        assert(comp_mult(seq!['h']) == 3_600_000_000_000);
        assert(comp_sum(comps[2]) == h * 3_600_000_000_000);
        assert(comps[3] == RtComp::Dec(r4, 9, seq!['s']));
        assert(comp_wf(comps[3]));
        assert(comp_render(comps[3]) =~= (crate::format::full_dec_str(r4, pow10(9) as u128, 9) + seq!['s']));
        assert(comp_sum(comps[3]) == r4);
        assert(comps[0] is Whole);
        assert(comps[1] is Whole);
        assert(comps[2] is Whole);
        assert(forall|x: int| 0 <= x < comps.len() ==> comp_wf(#[trigger] comps[x]));
        assert(forall|x: int| 0 <= x < comps.len() - 1 ==> (#[trigger] comps[x]) is Whole);
        assert(chain_render(comps) =~= (dec_digits(y) + seq!['y', 'r']) + seq![' '] + (dec_digits(d) + seq!['d']) + seq![' '] + (dec_digits(h) + seq!['h']) + seq![' '] + (crate::format::full_dec_str(r4, pow10(9) as u128, 9) + seq!['s']));
        assert(chain_render(comps) =~= crate::render::spec_format_exact(n));
        assert(chain_sum(comps) == y * 31_557_600_000_000_000 + d * 86_400_000_000_000 + h * 3_600_000_000_000 + r4);
        assert(chain_sum(comps) == n);
        comps
    }
}

/// The year tier's components: days, hours and whole minutes.
#[verifier::rlimit(100)]
#[verifier::spinoff_prover]
proof fn rt_tier_year_dh_mins(n: u128) -> (comps: Seq<RtComp>)
    requires
        crate::NANOS_PER_YEAR <= n,
        (n % crate::NANOS_PER_YEAR) / crate::NANOS_PER_DAY != 0,
        ((n % crate::NANOS_PER_YEAR) % crate::NANOS_PER_DAY) / crate::NANOS_PER_HOUR != 0,
        (((n % crate::NANOS_PER_YEAR) % crate::NANOS_PER_DAY) % crate::NANOS_PER_HOUR) / crate::NANOS_PER_MINUTE != 0,
    ensures
        comps.len() >= 1,
        forall|x: int| 0 <= x < comps.len() ==> comp_wf(#[trigger] comps[x]),
        forall|x: int| 0 <= x < comps.len() - 1 ==> (#[trigger] comps[x]) is Whole,
        chain_render(comps) == crate::render::spec_format_exact(n),
        chain_sum(comps) == n,
{
    reveal_with_fuel(chain_render, 8);
    reveal_with_fuel(chain_sum, 8);
    lemma_pow10_values();
    assert((pow10(9) as u128) == crate::NANOS_PER_SEC);
    let y = n / crate::NANOS_PER_YEAR;
    let r1 = n % crate::NANOS_PER_YEAR;
    let d = r1 / crate::NANOS_PER_DAY;
    let r2 = r1 % crate::NANOS_PER_DAY;
    let h = r2 / crate::NANOS_PER_HOUR;
    let r3 = r2 % crate::NANOS_PER_HOUR;
    let m = r3 / crate::NANOS_PER_MINUTE;
    let r4 = r3 % crate::NANOS_PER_MINUTE;
    lemma_fundamental_div_mod(n as int, crate::NANOS_PER_YEAR as int);
    lemma_mod_bound(n as int, crate::NANOS_PER_YEAR as int);
    lemma_fundamental_div_mod(r1 as int, crate::NANOS_PER_DAY as int);
    lemma_mod_bound(r1 as int, crate::NANOS_PER_DAY as int);
    lemma_fundamental_div_mod(r2 as int, crate::NANOS_PER_HOUR as int);
    lemma_mod_bound(r2 as int, crate::NANOS_PER_HOUR as int);
    lemma_fundamental_div_mod(r3 as int, crate::NANOS_PER_MINUTE as int);
    lemma_mod_bound(r3 as int, crate::NANOS_PER_MINUTE as int);
    lemma_div_is_ordered(n as int, u128::MAX as int, crate::NANOS_PER_YEAR as int);
    lemma_div_is_ordered(r1 as int, crate::NANOS_PER_YEAR as int - 1, crate::NANOS_PER_DAY as int);
    lemma_div_is_ordered(r2 as int, crate::NANOS_PER_DAY as int - 1, crate::NANOS_PER_HOUR as int);
    lemma_div_is_ordered(r3 as int, crate::NANOS_PER_HOUR as int - 1, crate::NANOS_PER_MINUTE as int);
    if r4 == 0 {
        let comps = seq![RtComp::Whole(y, seq!['y', 'r']), RtComp::Whole(d, seq!['d']), RtComp::Whole(h, seq!['h']), RtComp::Whole(m, seq!['m'])];
        assert(comps[0] == RtComp::Whole(y, seq!['y', 'r']));
        assert(comp_wf(comps[0]));
        assert(comp_render(comps[0]) =~= (dec_digits(y) + seq!['y', 'r']));
        assert(comp_mult(seq!['y', 'r']) == 31_557_600_000_000_000);
        assert(comp_sum(comps[0]) == y * 31_557_600_000_000_000);
        assert(comps[1] == RtComp::Whole(d, seq!['d']));
        assert(comp_wf(comps[1]));
        assert(comp_render(comps[1]) =~= (dec_digits(d) + seq!['d']));
        assert(comp_mult(seq!['d']) == 86_400_000_000_000);
        assert(comp_sum(comps[1]) == d * 86_400_000_000_000);
        assert(comps[2] == RtComp::Whole(h, seq!['h']));
        assert(comp_wf(comps[2]));
        assert(comp_render(comps[2]) =~= (dec_digits(h) + seq!['h']));
        assert(comp_mult(seq!['h']) == 3_600_000_000_000);
        assert(comp_sum(comps[2]) == h * 3_600_000_000_000);
        assert(comps[3] == RtComp::Whole(m, seq!['m']));
        assert(comp_wf(comps[3]));
        assert(comp_render(comps[3]) =~= (dec_digits(m) + seq!['m']));
        assert(comp_mult(seq!['m']) == 60_000_000_000);
        assert(comp_sum(comps[3]) == m * 60_000_000_000);
        assert(comps[0] is Whole);
        assert(comps[1] is Whole);
        assert(comps[2] is Whole);
        assert(forall|x: int| 0 <= x < comps.len() ==> comp_wf(#[trigger] comps[x]));
        assert(forall|x: int| 0 <= x < comps.len() - 1 ==> (#[trigger] comps[x]) is Whole);
        assert(chain_render(comps) =~= (dec_digits(y) + seq!['y', 'r']) + seq![' '] + (dec_digits(d) + seq!['d']) + seq![' '] + (dec_digits(h) + seq!['h']) + seq![' '] + (dec_digits(m) + seq!['m']));
        assert(chain_render(comps) =~= crate::render::spec_format_exact(n));
        assert(chain_sum(comps) == y * 31_557_600_000_000_000 + d * 86_400_000_000_000 + h * 3_600_000_000_000 + m * 60_000_000_000);
        assert(chain_sum(comps) == n);
        comps
    } else {
        let comps = seq![RtComp::Whole(y, seq!['y', 'r']), RtComp::Whole(d, seq!['d']), RtComp::Whole(h, seq!['h']), RtComp::Whole(m, seq!['m']), RtComp::Dec(r4, 9, seq!['s'])];
        assert(comps[0] == RtComp::Whole(y, seq!['y', 'r']));
        assert(comp_wf(comps[0]));
        assert(comp_render(comps[0]) =~= (dec_digits(y) + seq!['y', 'r']));
        assert(comp_mult(seq!['y', 'r']) == 31_557_600_000_000_000);
        assert(comp_sum(comps[0]) == y * 31_557_600_000_000_000);
        assert(comps[1] == RtComp::Whole(d, seq!['d']));
        assert(comp_wf(comps[1]));
        assert(comp_render(comps[1]) =~= (dec_digits(d) + seq!['d']));
        assert(comp_mult(seq!['d']) == 86_400_000_000_000);
        assert(comp_sum(comps[1]) == d * 86_400_000_000_000);
        assert(comps[2] == RtComp::Whole(h, seq!['h']));
        assert(comp_wf(comps[2]));
        assert(comp_render(comps[2]) =~= (dec_digits(h) + seq!['h']));
        assert(comp_mult(seq!['h']) == 3_600_000_000_000);
        assert(comp_sum(comps[2]) == h * 3_600_000_000_000);
        assert(comps[3] == RtComp::Whole(m, seq!['m']));
        assert(comp_wf(comps[3]));
        assert(comp_render(comps[3]) =~= (dec_digits(m) + seq!['m']));
        assert(comp_mult(seq!['m']) == 60_000_000_000);
        assert(comp_sum(comps[3]) == m * 60_000_000_000);
        assert(comps[4] == RtComp::Dec(r4, 9, seq!['s']));
        assert(comp_wf(comps[4]));
        assert(comp_render(comps[4]) =~= (crate::format::full_dec_str(r4, pow10(9) as u128, 9) + seq!['s']));
        assert(comp_sum(comps[4]) == r4);
        assert(comps[0] is Whole);
        assert(comps[1] is Whole);
        assert(comps[2] is Whole);
        assert(comps[3] is Whole);
        assert(forall|x: int| 0 <= x < comps.len() ==> comp_wf(#[trigger] comps[x]));
        assert(forall|x: int| 0 <= x < comps.len() - 1 ==> (#[trigger] comps[x]) is Whole);
        assert(chain_render(comps) =~= (dec_digits(y) + seq!['y', 'r']) + seq![' '] + (dec_digits(d) + seq!['d']) + seq![' '] + (dec_digits(h) + seq!['h']) + seq![' '] + (dec_digits(m) + seq!['m']) + seq![' '] + (crate::format::full_dec_str(r4, pow10(9) as u128, 9) + seq!['s']));
        assert(chain_render(comps) =~= crate::render::spec_format_exact(n));
        assert(chain_sum(comps) == y * 31_557_600_000_000_000 + d * 86_400_000_000_000 + h * 3_600_000_000_000 + m * 60_000_000_000 + r4);
        assert(chain_sum(comps) == n);
        comps
    }
}

/// The year tier's components: whole days and whole hours.
proof fn rt_tier_year_days_hours(n: u128) -> (comps: Seq<RtComp>)
    requires
        crate::NANOS_PER_YEAR <= n,
        (n % crate::NANOS_PER_YEAR) / crate::NANOS_PER_DAY != 0,
        ((n % crate::NANOS_PER_YEAR) % crate::NANOS_PER_DAY) / crate::NANOS_PER_HOUR != 0,
    ensures
        comps.len() >= 1,
        forall|x: int| 0 <= x < comps.len() ==> comp_wf(#[trigger] comps[x]),
        forall|x: int| 0 <= x < comps.len() - 1 ==> (#[trigger] comps[x]) is Whole,
        chain_render(comps) == crate::render::spec_format_exact(n),
        chain_sum(comps) == n,
{
    if (((n % crate::NANOS_PER_YEAR) % crate::NANOS_PER_DAY) % crate::NANOS_PER_HOUR) / crate::NANOS_PER_MINUTE == 0 {
        rt_tier_year_dh_flat(n)
    } else {
        rt_tier_year_dh_mins(n)
    }
}

/// The year tier's components (with whole days).
proof fn rt_tier_year_days(n: u128) -> (comps: Seq<RtComp>)
    requires
        crate::NANOS_PER_YEAR <= n,
        (n % crate::NANOS_PER_YEAR) / crate::NANOS_PER_DAY != 0,
    ensures
        comps.len() >= 1,
        forall|x: int| 0 <= x < comps.len() ==> comp_wf(#[trigger] comps[x]),
        forall|x: int| 0 <= x < comps.len() - 1 ==> (#[trigger] comps[x]) is Whole,
        chain_render(comps) == crate::render::spec_format_exact(n),
        chain_sum(comps) == n,
{
    if ((n % crate::NANOS_PER_YEAR) % crate::NANOS_PER_DAY) / crate::NANOS_PER_HOUR == 0 {
        rt_tier_year_days_flat(n)
    } else {
        rt_tier_year_days_hours(n)
    }
}

/// The components the exact formatter renders at the year tier.
proof fn rt_tier_year(n: u128) -> (comps: Seq<RtComp>)
    requires
        crate::NANOS_PER_YEAR <= n,
    ensures
        comps.len() >= 1,
        forall|x: int| 0 <= x < comps.len() ==> comp_wf(#[trigger] comps[x]),
        forall|x: int| 0 <= x < comps.len() - 1 ==> (#[trigger] comps[x]) is Whole,
        chain_render(comps) == crate::render::spec_format_exact(n),
        chain_sum(comps) == n,
{
    if (n % crate::NANOS_PER_YEAR) / crate::NANOS_PER_DAY == 0 {
        rt_tier_year_bare(n)
    } else {
        rt_tier_year_days(n)
    }
}

/// The exact formatter round-trips: parsing what it renders yields
/// the identical nanosecond count, for every duration.
pub proof fn lemma_exact_round_trip(n: u128)
    ensures
        crate::parse::spec_parse(crate::render::spec_format_exact(n))
            == crate::parse::ParseOut::Val(n),
{
    let s = crate::render::spec_format_exact(n);
    let hi = s.len() as int;
    let comps = if n < crate::NANOS_PER_MICRO {
        rt_tier_nano(n)
    } else if n < crate::NANOS_PER_MILLI {
        rt_tier_micro(n)
    } else if n < crate::NANOS_PER_SEC {
        rt_tier_milli(n)
    } else if n < crate::NANOS_PER_MINUTE {
        rt_tier_sec(n)
    } else if n < crate::NANOS_PER_HOUR {
        rt_tier_minute(n)
    } else if n < crate::NANOS_PER_DAY {
        rt_tier_hour(n)
    } else if n < crate::NANOS_PER_YEAR {
        rt_tier_day(n)
    } else {
        rt_tier_year(n)
    };
    assert(s.subrange(0, hi) =~= s);
    lemma_chain_render_head_digit(comps);
    lemma_chain_render_last(comps);
    assert(hi >= 1);
    lemma_digit_char_class(s[0]);
    lemma_chain(s, 0, hi, 0, comps);
    assert(crate::parse::skip_ws(s, 0, hi) == 0);
    assert(!is_ws(s[hi - 1]));
    assert(crate::parse::trim_end(s, hi) == hi) by {
        assert(hi <= s.len());
    }
    let lx = crate::lexer::spec_lex(s, 0, hi)->0;
    assert(lx.end < hi);
    assert(crate::parse::spec_parse(s) == crate::parse::spec_components(s, 0, hi, 0));
    assert(crate::parse::spec_components(s, 0, hi, 0) == crate::parse::ParseOut::Val(
        (0 + chain_sum(comps)) as u128,
    ));
}

} // verus!
