//! Rendering nanosecond counts as text: decimal digits, zero-padded
//! fractions with trailing zeros stripped, and the tiered unit
//! selection shared by the human formatter and the exact formatter.

use vstd::prelude::*;
use vstd::string::StrSliceExecFns;
use crate::chars::digit_char;
use crate::chars::digit_char_of;
use crate::decimal::pow10;
use crate::decimal::pow10_u128;
use crate::decimal::lemma_pow10_pos;
use crate::decimal::lemma_pow10_adds;
use crate::decimal::lemma_pow10_values;
use vstd::arithmetic::div_mod::lemma_div_denominator;
use vstd::arithmetic::div_mod::lemma_div_basics;

verus! {

/// The decimal digits of `n`, most significant first.
pub open spec fn dec_digits(n: u128) -> Seq<char>
    decreases n,
    via dec_digits_dec
{
    if n < 10 {
        seq![digit_char(n)]
    } else {
        dec_digits(n / 10).push(digit_char(n % 10))
    }
}

#[via_fn]
proof fn dec_digits_dec(n: u128) {
    if n >= 10 {
        assert(n / 10 < n) by (nonlinear_arith)
            requires
                n >= 10,
        ;
    }
}

/// The last `k` decimal digits of `r`, zero-padded to width `k`.
pub open spec fn pad_digits(r: u128, k: nat) -> Seq<char>
    decreases k,
{
    if k == 0 {
        Seq::empty()
    } else {
        pad_digits(r / 10, (k - 1) as nat).push(digit_char(r % 10))
    }
}

/// `s` without its trailing `'0'` characters.
pub open spec fn strip0(s: Seq<char>) -> Seq<char>
    decreases s.len(),
{
    if s.len() == 0 {
        s
    } else if s[s.len() - 1] == '0' {
        strip0(s.drop_last())
    } else {
        s
    }
}

/// Stripping the trailing zeros of a padded fraction, done on the
/// number itself: drop final zero digits while width remains.
pub open spec fn strip_rk(r: u128, k: nat) -> (u128, nat)
    decreases k,
{
    if k > 0 && r % 10 == 0 {
        strip_rk(r / 10, (k - 1) as nat)
    } else {
        (r, k)
    }
}

pub proof fn lemma_strip_pad(r: u128, k: nat)
    ensures
        strip0(pad_digits(r, k)) == pad_digits(strip_rk(r, k).0, strip_rk(r, k).1),
    decreases k,
{
    if k == 0 {
        assert(strip0(pad_digits(r, 0)) =~= pad_digits(r, 0));
    } else {
        let p = pad_digits(r / 10, (k - 1) as nat);
        assert(pad_digits(r, k) == p.push(digit_char(r % 10)));
        assert(p.push(digit_char(r % 10)).drop_last() =~= p);
        if r % 10 == 0 {
            assert(digit_char(0) == '0');
            lemma_strip_pad(r / 10, (k - 1) as nat);
        } else {
            assert(digit_char(r % 10) != '0');
        }
    }
}

/// Truncating a padded fraction to its first `keep` digits is dividing
/// the fraction by the matching power of ten.
pub proof fn lemma_pad_take(r: u128, k: nat, keep: nat)
    requires
        keep <= k,
    ensures
        pad_digits(r, k).subrange(0, keep as int) == pad_digits(
            (r as nat / pow10((k - keep) as nat)) as u128,
            keep,
        ),
    decreases k - keep,
{
    lemma_pad_len(r, k);
    if k == keep {
        assert(pad_digits(r, k).subrange(0, keep as int) =~= pad_digits(r, k));
        assert(pow10(0) == 1);
        assert((k - keep) as nat == 0);
        lemma_div_basics(r as int);
        assert((r as nat / pow10((k - keep) as nat)) as u128 == r);
    } else {
        let p = pad_digits(r / 10, (k - 1) as nat);
        lemma_pad_len(r / 10, (k - 1) as nat);
        assert(pad_digits(r, k) == p.push(digit_char(r % 10)));
        assert(p.push(digit_char(r % 10)).subrange(0, keep as int) =~= p.subrange(0, keep as int));
        lemma_pad_take(r / 10, (k - 1) as nat, keep);
        lemma_pow10_pos((k - 1 - keep) as nat);
        lemma_div_denominator(r as int, 10, pow10((k - 1 - keep) as nat) as int);
        lemma_pow10_adds(1, (k - 1 - keep) as nat);
        lemma_pow10_values();
        assert(pow10((k - keep) as nat) == 10 * pow10((k - 1 - keep) as nat));
        assert((r as int / 10) / (pow10((k - 1 - keep) as nat) as int) == r as int / (10 * pow10(
            (k - 1 - keep) as nat,
        ) as int));
        assert(r as nat / pow10((k - keep) as nat) == (r / 10) as nat / pow10(
            (k - 1 - keep) as nat,
        ));
        assert((r as nat / pow10((k - keep) as nat)) as u128 == ((r / 10) as nat / pow10(
            (k - 1 - keep) as nat,
        )) as u128);
        assert(pad_digits(r, k).subrange(0, keep as int) == pad_digits(
            (r as nat / pow10((k - keep) as nat)) as u128,
            keep,
        ));
    }
}

/// `q.frac` with `frac` the first `keep` digits of the `k`-wide
/// padded remainder, trailing zeros stripped; just `q` when nothing of
/// the fraction remains.
pub open spec fn trunc_dec_str(ns: u128, unit: u128, k: nat, keep: nat) -> Seq<char> {
    let q = ns / unit;
    let r = ns % unit;
    let frac = strip0(pad_digits(r, k).subrange(0, keep as int));
    if frac.len() == 0 {
        dec_digits(q)
    } else {
        dec_digits(q) + seq!['.'] + frac
    }
}

/// The full-precision decimal rendering of `ns / unit`, `unit` being
/// `10^k`.
pub open spec fn full_dec_str(ns: u128, unit: u128, k: nat) -> Seq<char> {
    trunc_dec_str(ns, unit, k, k)
}

/// Appends the characters of a literal.
pub fn push_str(out: &mut Vec<char>, s: &str)
    ensures
        final(out)@ == old(out)@ + s@,
{
    let n = s.unicode_len();
    let mut i: usize = 0;
    while i < n
        invariant
            i <= n,
            n == s@.len(),
            out@ == old(out)@ + s@.subrange(0, i as int),
        decreases n - i,
    {
        out.push(s.get_char(i));
        proof {
            assert(out@ =~= old(out)@ + s@.subrange(0, i + 1));
        }
        i = i + 1;
    }
    proof {
        assert(out@ =~= old(out)@ + s@);
    }
}

/// Appends the decimal digits of `n`.
pub fn push_digits(out: &mut Vec<char>, n: u128)
    ensures
        final(out)@ == old(out)@ + dec_digits(n),
    decreases n,
{
    if n < 10 {
        out.push(digit_char_of(n));
        proof {
            assert(out@ =~= old(out)@ + dec_digits(n));
        }
    } else {
        proof {
            assert(n / 10 < n) by (nonlinear_arith)
                requires
                    n >= 10,
            ;
        }
        push_digits(out, n / 10);
        out.push(digit_char_of(n % 10));
        proof {
            assert(out@ =~= old(out)@ + dec_digits(n));
        }
    }
}

/// Appends the last `k` digits of `r`, zero-padded to width `k`.
pub fn push_pad(out: &mut Vec<char>, r: u128, k: u32)
    ensures
        final(out)@ == old(out)@ + pad_digits(r, k as nat),
    decreases k,
{
    if k > 0 {
        push_pad(out, r / 10, k - 1);
        out.push(digit_char_of(r % 10));
        proof {
            assert(out@ =~= old(out)@ + pad_digits(r, k as nat));
        }
    } else {
        proof {
            assert(out@ =~= old(out)@ + pad_digits(r, 0));
        }
    }
}

/// Appends `trunc_dec_str(ns, unit, k, keep)`: the quotient, then the
/// truncated, zero-stripped fraction if any of it is left.
pub fn push_trunc_dec(out: &mut Vec<char>, ns: u128, unit: u128, k: u32, keep: u32)
    requires
        keep <= k,
        k <= 11,
        unit == pow10(k as nat),
    ensures
        final(out)@ == old(out)@ + trunc_dec_str(ns, unit, k as nat, keep as nat),
{
    proof {
        lemma_pow10_values();
        lemma_pow10_pos(k as nat);
    }
    let q = ns / unit;
    let r0 = ns % unit;
    let p = pow10_u128(k - keep);
    let ghost rt = (r0 as nat / pow10((k - keep) as nat)) as u128;
    let mut r: u128 = r0 / p;
    let mut kk: u32 = keep;
    proof {
        lemma_pad_take(r0, k as nat, keep as nat);
        lemma_strip_pad(r, kk as nat);
    }
    while r % 10 == 0 && kk > 0
        invariant
            strip_rk(rt, keep as nat) == strip_rk(r, kk as nat),
        decreases kk,
    {
        r = r / 10;
        kk = kk - 1;
    }
    proof {
        assert(strip_rk(r, kk as nat) == (r, kk as nat));
        lemma_strip_pad(rt, keep as nat);
        assert(strip0(pad_digits(rt, keep as nat)) == pad_digits(r, kk as nat));
    }
    push_digits(out, q);
    if kk > 0 {
        out.push('.');
        push_pad(out, r, kk);
        proof {
            assert(pad_digits(r, kk as nat).len() == kk) by {
                lemma_pad_len(r, kk as nat);
            }
            assert(out@ =~= old(out)@ + trunc_dec_str(ns, unit, k as nat, keep as nat));
        }
    } else {
        proof {
            assert(pad_digits(r, 0).len() == 0);
            assert(out@ =~= old(out)@ + trunc_dec_str(ns, unit, k as nat, keep as nat));
        }
    }
}

pub proof fn lemma_pad_len(r: u128, k: nat)
    ensures
        pad_digits(r, k).len() == k,
    decreases k,
{
    if k > 0 {
        lemma_pad_len(r / 10, (k - 1) as nat);
    }
}

} // verus!
