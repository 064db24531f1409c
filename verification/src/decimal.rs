//! The intermediate decimal of parsing: a scaled integer
//! `mantissa / 10^scale` with a sign flag. It exists only while a
//! number is being turned into nanoseconds (or rendered back); the
//! duration itself is always an integer nanosecond count.

use vstd::prelude::*;

verus! {

/// Largest mantissa the intermediate decimal can carry (`2^96 - 1`).
/// A literal whose integer part exceeds it is rejected as too big.
pub const MAX_MANTISSA: u128 = 79228162514264337593543950335;

/// Largest number of fractional digits the intermediate decimal keeps;
/// further fractional digits of a literal are truncated.
pub const MAX_SCALE: u32 = 28;

/// A decimal number `mantissa / 10^scale`, negated when `neg` is set.
#[derive(Clone, Copy, Debug, PartialEq, Eq, Structural)]
pub struct Decimal {
    /// Whether the number carried a minus sign.
    pub neg: bool,
    /// The digits of the number, as an integer.
    pub mantissa: u128,
    /// How many of the mantissa's digits lie behind the decimal point.
    pub scale: u32,
}

/// What every `Decimal` the library builds satisfies.
pub open spec fn dec_wf(d: Decimal) -> bool {
    d.scale <= MAX_SCALE && d.mantissa <= MAX_MANTISSA
}

/// `10^k`.
pub open spec fn pow10(k: nat) -> nat
    decreases k,
{
    if k == 0 {
        1
    } else {
        10 * pow10((k - 1) as nat)
    }
}

pub proof fn lemma_pow10_pos(k: nat)
    ensures
        pow10(k) >= 1,
    decreases k,
{
    if k > 0 {
        lemma_pow10_pos((k - 1) as nat);
    }
}

pub proof fn lemma_pow10_adds(a: nat, b: nat)
    ensures
        pow10(a + b) == pow10(a) * pow10(b),
    decreases a,
{
    if a == 0 {
        assert(pow10(b) == 1 * pow10(b)) by (nonlinear_arith);
    } else {
        lemma_pow10_adds((a - 1) as nat, b);
        assert(10 * (pow10((a - 1) as nat) * pow10(b)) == (10 * pow10((a - 1) as nat)) * pow10(
            b,
        )) by (nonlinear_arith);
    }
}

pub proof fn lemma_pow10_increases(a: nat, b: nat)
    requires
        a <= b,
    ensures
        pow10(a) <= pow10(b),
    decreases b,
{
    if a < b && b > 0 {
        lemma_pow10_increases(a, (b - 1) as nat);
        lemma_pow10_pos((b - 1) as nat);
    }
}

/// The powers of ten the unit table and the formatters lean on.
pub proof fn lemma_pow10_values()
    ensures
        pow10(0) == 1,
        pow10(1) == 10,
        pow10(2) == 100,
        pow10(3) == 1000,
        pow10(4) == 10000,
        pow10(5) == 100000,
        pow10(6) == 1000000,
        pow10(7) == 10000000,
        pow10(8) == 100000000,
        pow10(9) == 1000000000,
        pow10(10) == 10000000000,
        pow10(11) == 100000000000,
        pow10(28) == 10000000000000000000000000000,
{
    reveal_with_fuel(pow10, 30);
}

/// `10^38` fits in a `u128`; it is the largest power of ten that does.
pub proof fn lemma_pow10_38()
    ensures
        pow10(38) == 0x4B3B4CA85A86C47A098A224000000000,
{
    reveal_with_fuel(pow10, 40);
}

/// Computes `10^k` for exponents small enough for the result to fit.
pub fn pow10_u128(k: u32) -> (r: u128)
    requires
        k <= 38,
    ensures
        r == pow10(k as nat),
{
    proof {
        lemma_pow10_38();
    }
    let mut r: u128 = 1;
    let mut i: u32 = 0;
    while i < k
        invariant
            i <= k,
            k <= 38,
            r == pow10(i as nat),
        decreases k - i,
    {
        proof {
            lemma_pow10_increases(i as nat + 1, 38);
            assert(pow10(i as nat + 1) == 10 * pow10(i as nat));
            lemma_pow10_38();
        }
        r = r * 10;
        i = i + 1;
    }
    r
}

} // verus!
