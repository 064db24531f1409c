//! The unit table: every accepted spelling of every unit, in the order
//! in which spellings are tried, each with its nanosecond multiplier.
//! A multiplier is also carried in factored form `odd * 10^tens`, which
//! lets a decimal quantity be multiplied by it without intermediate
//! overflow.

use vstd::prelude::*;
use crate::chars::to_lower;
use crate::chars::str_to_chars;
use crate::decimal::pow10;
use crate::decimal::pow10_u128;
use crate::decimal::lemma_pow10_adds;
use crate::decimal::lemma_pow10_pos;
use crate::decimal::lemma_pow10_values;
use crate::decimal::MAX_MANTISSA;
use crate::decimal::MAX_SCALE;
use vstd::arithmetic::div_mod::lemma_div_by_multiple;
use vstd::arithmetic::div_mod::lemma_div_denominator;
use vstd::arithmetic::mul::lemma_mul_is_associative;
use vstd::arithmetic::mul::lemma_mul_is_commutative;
use vstd::arithmetic::mul::lemma_mul_upper_bound;

verus! {

/// One accepted spelling: the tag text, the unit's multiplier in
/// nanoseconds, and the factorization `mult == odd * 10^tens`.
pub struct UnitSpec {
    pub tag: Seq<char>,
    pub mult: u128,
    pub odd: u128,
    pub tens: u32,
}

/// How many spellings the table holds.
pub open spec fn unit_count() -> int {
    39
}

/// The table of accepted spellings, in the order in which they are
/// tried; the first tag that matches wins.
pub open spec fn unit_at(idx: int) -> UnitSpec {

    if idx == 0 {
        UnitSpec { tag: "nanoseconds"@, mult: 1, odd: 1, tens: 0 }
    } else if idx == 1 {
        UnitSpec { tag: "nanosecond"@, mult: 1, odd: 1, tens: 0 }
    } else if idx == 2 {
        UnitSpec { tag: "nanos"@, mult: 1, odd: 1, tens: 0 }
    } else if idx == 3 {
        UnitSpec { tag: "ns"@, mult: 1, odd: 1, tens: 0 }
    } else if idx == 4 {
        UnitSpec { tag: "microseconds"@, mult: 1_000, odd: 1, tens: 3 }
    } else if idx == 5 {
        UnitSpec { tag: "microsecond"@, mult: 1_000, odd: 1, tens: 3 }
    } else if idx == 6 {
        UnitSpec { tag: "micros"@, mult: 1_000, odd: 1, tens: 3 }
    } else if idx == 7 {
        UnitSpec { tag: "us"@, mult: 1_000, odd: 1, tens: 3 }
    } else if idx == 8 {
        UnitSpec { tag: "\u{b5}s"@, mult: 1_000, odd: 1, tens: 3 }
    } else if idx == 9 {
        UnitSpec { tag: "milliseconds"@, mult: 1_000_000, odd: 1, tens: 6 }
    } else if idx == 10 {
        UnitSpec { tag: "millisecond"@, mult: 1_000_000, odd: 1, tens: 6 }
    } else if idx == 11 {
        UnitSpec { tag: "millis"@, mult: 1_000_000, odd: 1, tens: 6 }
    } else if idx == 12 {
        UnitSpec { tag: "ms"@, mult: 1_000_000, odd: 1, tens: 6 }
    } else if idx == 13 {
        UnitSpec { tag: "seconds"@, mult: 1_000_000_000, odd: 1, tens: 9 }
    } else if idx == 14 {
        UnitSpec { tag: "second"@, mult: 1_000_000_000, odd: 1, tens: 9 }
    } else if idx == 15 {
        UnitSpec { tag: "secs"@, mult: 1_000_000_000, odd: 1, tens: 9 }
    } else if idx == 16 {
        UnitSpec { tag: "sec"@, mult: 1_000_000_000, odd: 1, tens: 9 }
    } else if idx == 17 {
        UnitSpec { tag: "s"@, mult: 1_000_000_000, odd: 1, tens: 9 }
    } else if idx == 18 {
        UnitSpec { tag: "minutes"@, mult: 60_000_000_000, odd: 6, tens: 10 }
    } else if idx == 19 {
        UnitSpec { tag: "minute"@, mult: 60_000_000_000, odd: 6, tens: 10 }
    } else if idx == 20 {
        UnitSpec { tag: "mins"@, mult: 60_000_000_000, odd: 6, tens: 10 }
    } else if idx == 21 {
        UnitSpec { tag: "min"@, mult: 60_000_000_000, odd: 6, tens: 10 }
    } else if idx == 22 {
        UnitSpec { tag: "m"@, mult: 60_000_000_000, odd: 6, tens: 10 }
    } else if idx == 23 {
        UnitSpec { tag: "hours"@, mult: 3_600_000_000_000, odd: 36, tens: 11 }
    } else if idx == 24 {
        UnitSpec { tag: "hour"@, mult: 3_600_000_000_000, odd: 36, tens: 11 }
    } else if idx == 25 {
        UnitSpec { tag: "hrs"@, mult: 3_600_000_000_000, odd: 36, tens: 11 }
    } else if idx == 26 {
        UnitSpec { tag: "hr"@, mult: 3_600_000_000_000, odd: 36, tens: 11 }
    } else if idx == 27 {
        UnitSpec { tag: "h"@, mult: 3_600_000_000_000, odd: 36, tens: 11 }
    } else if idx == 28 {
        UnitSpec { tag: "days"@, mult: 86_400_000_000_000, odd: 864, tens: 11 }
    } else if idx == 29 {
        UnitSpec { tag: "day"@, mult: 86_400_000_000_000, odd: 864, tens: 11 }
    } else if idx == 30 {
        UnitSpec { tag: "d"@, mult: 86_400_000_000_000, odd: 864, tens: 11 }
    } else if idx == 31 {
        UnitSpec { tag: "weeks"@, mult: 604_800_000_000_000, odd: 6048, tens: 11 }
    } else if idx == 32 {
        UnitSpec { tag: "week"@, mult: 604_800_000_000_000, odd: 6048, tens: 11 }
    } else if idx == 33 {
        UnitSpec { tag: "w"@, mult: 604_800_000_000_000, odd: 6048, tens: 11 }
    } else if idx == 34 {
        UnitSpec { tag: "years"@, mult: 31_557_600_000_000_000, odd: 315576, tens: 11 }
    } else if idx == 35 {
        UnitSpec { tag: "year"@, mult: 31_557_600_000_000_000, odd: 315576, tens: 11 }
    } else if idx == 36 {
        UnitSpec { tag: "yrs"@, mult: 31_557_600_000_000_000, odd: 315576, tens: 11 }
    } else if idx == 37 {
        UnitSpec { tag: "yr"@, mult: 31_557_600_000_000_000, odd: 315576, tens: 11 }
    } else {
        UnitSpec { tag: "y"@, mult: 31_557_600_000_000_000, odd: 315576, tens: 11 }
    }
}

/// The tag occurs at position `i` of `s`, entirely before `hi`,
/// compared ASCII-case-insensitively.
pub open spec fn tag_match(s: Seq<char>, i: int, hi: int, tag: Seq<char>) -> bool {
    &&& 0 <= i
    &&& i + tag.len() <= hi <= s.len()
    &&& forall|k: int| 0 <= k < tag.len() ==> to_lower(s[i + k]) == to_lower(tag[k])
}

/// The first table entry from `idx` on whose tag matches at `i`;
/// yields the position after the tag and the entry.
pub open spec fn match_unit_from(s: Seq<char>, i: int, hi: int, idx: int) -> Option<(int, UnitSpec)>
    decreases unit_count() - idx,
{
    if idx < 0 || idx >= unit_count() {
        None
    } else if tag_match(s, i, hi, unit_at(idx).tag) {
        Some((i + unit_at(idx).tag.len(), unit_at(idx)))
    } else {
        match_unit_from(s, i, hi, idx + 1)
    }
}

/// The unit lookup: the first spelling of the table that matches at `i`.
pub open spec fn match_unit(s: Seq<char>, i: int, hi: int) -> Option<(int, UnitSpec)> {
    match_unit_from(s, i, hi, 0)
}

/// The nine (multiplier, factorization) shapes a table entry can have.
pub open spec fn entry_fact(u: UnitSpec) -> bool {
    ||| (u.mult == 1 && u.odd == 1 && u.tens == 0)
    ||| (u.mult == 1_000 && u.odd == 1 && u.tens == 3)
    ||| (u.mult == 1_000_000 && u.odd == 1 && u.tens == 6)
    ||| (u.mult == 1_000_000_000 && u.odd == 1 && u.tens == 9)
    ||| (u.mult == 60_000_000_000 && u.odd == 6 && u.tens == 10)
    ||| (u.mult == 3_600_000_000_000 && u.odd == 36 && u.tens == 11)
    ||| (u.mult == 86_400_000_000_000 && u.odd == 864 && u.tens == 11)
    ||| (u.mult == 604_800_000_000_000 && u.odd == 6048 && u.tens == 11)
    ||| (u.mult == 31_557_600_000_000_000 && u.odd == 315576 && u.tens == 11)
}

/// Every table entry has a non-empty tag.
pub proof fn lemma_unit_tags_nonempty()
    ensures
        forall|idx: int| 0 <= idx < unit_count() ==> (#[trigger] unit_at(idx)).tag.len() >= 1,
{
    assert forall|idx: int| 0 <= idx < unit_count() implies (#[trigger] unit_at(idx)).tag.len()
        >= 1 by {
        if idx == 0 {
            reveal_strlit("nanoseconds");
        } else if idx == 1 {
            reveal_strlit("nanosecond");
        } else if idx == 2 {
            reveal_strlit("nanos");
        } else if idx == 3 {
            reveal_strlit("ns");
        } else if idx == 4 {
            reveal_strlit("microseconds");
        } else if idx == 5 {
            reveal_strlit("microsecond");
        } else if idx == 6 {
            reveal_strlit("micros");
        } else if idx == 7 {
            reveal_strlit("us");
        } else if idx == 8 {
            reveal_strlit("\u{b5}s");
        } else if idx == 9 {
            reveal_strlit("milliseconds");
        } else if idx == 10 {
            reveal_strlit("millisecond");
        } else if idx == 11 {
            reveal_strlit("millis");
        } else if idx == 12 {
            reveal_strlit("ms");
        } else if idx == 13 {
            reveal_strlit("seconds");
        } else if idx == 14 {
            reveal_strlit("second");
        } else if idx == 15 {
            reveal_strlit("secs");
        } else if idx == 16 {
            reveal_strlit("sec");
        } else if idx == 17 {
            reveal_strlit("s");
        } else if idx == 18 {
            reveal_strlit("minutes");
        } else if idx == 19 {
            reveal_strlit("minute");
        } else if idx == 20 {
            reveal_strlit("mins");
        } else if idx == 21 {
            reveal_strlit("min");
        } else if idx == 22 {
            reveal_strlit("m");
        } else if idx == 23 {
            reveal_strlit("hours");
        } else if idx == 24 {
            reveal_strlit("hour");
        } else if idx == 25 {
            reveal_strlit("hrs");
        } else if idx == 26 {
            reveal_strlit("hr");
        } else if idx == 27 {
            reveal_strlit("h");
        } else if idx == 28 {
            reveal_strlit("days");
        } else if idx == 29 {
            reveal_strlit("day");
        } else if idx == 30 {
            reveal_strlit("d");
        } else if idx == 31 {
            reveal_strlit("weeks");
        } else if idx == 32 {
            reveal_strlit("week");
        } else if idx == 33 {
            reveal_strlit("w");
        } else if idx == 34 {
            reveal_strlit("years");
        } else if idx == 35 {
            reveal_strlit("year");
        } else if idx == 36 {
            reveal_strlit("yrs");
        } else if idx == 37 {
            reveal_strlit("yr");
        } else if idx == 38 {
            reveal_strlit("y");
        }
    }
}

/// Every table entry carries one of the nine multiplier shapes.
pub proof fn lemma_unit_facts()
    ensures
        forall|idx: int| 0 <= idx < unit_count() ==> entry_fact(#[trigger] unit_at(idx)),
{
    assert forall|idx: int| 0 <= idx < unit_count() implies entry_fact(#[trigger] unit_at(idx)) by {
        if idx == 0 {
            assert(entry_fact(unit_at(0)));
        } else if idx == 1 {
            assert(entry_fact(unit_at(1)));
        } else if idx == 2 {
            assert(entry_fact(unit_at(2)));
        } else if idx == 3 {
            assert(entry_fact(unit_at(3)));
        } else if idx == 4 {
            assert(entry_fact(unit_at(4)));
        } else if idx == 5 {
            assert(entry_fact(unit_at(5)));
        } else if idx == 6 {
            assert(entry_fact(unit_at(6)));
        } else if idx == 7 {
            assert(entry_fact(unit_at(7)));
        } else if idx == 8 {
            assert(entry_fact(unit_at(8)));
        } else if idx == 9 {
            assert(entry_fact(unit_at(9)));
        } else if idx == 10 {
            assert(entry_fact(unit_at(10)));
        } else if idx == 11 {
            assert(entry_fact(unit_at(11)));
        } else if idx == 12 {
            assert(entry_fact(unit_at(12)));
        } else if idx == 13 {
            assert(entry_fact(unit_at(13)));
        } else if idx == 14 {
            assert(entry_fact(unit_at(14)));
        } else if idx == 15 {
            assert(entry_fact(unit_at(15)));
        } else if idx == 16 {
            assert(entry_fact(unit_at(16)));
        } else if idx == 17 {
            assert(entry_fact(unit_at(17)));
        } else if idx == 18 {
            assert(entry_fact(unit_at(18)));
        } else if idx == 19 {
            assert(entry_fact(unit_at(19)));
        } else if idx == 20 {
            assert(entry_fact(unit_at(20)));
        } else if idx == 21 {
            assert(entry_fact(unit_at(21)));
        } else if idx == 22 {
            assert(entry_fact(unit_at(22)));
        } else if idx == 23 {
            assert(entry_fact(unit_at(23)));
        } else if idx == 24 {
            assert(entry_fact(unit_at(24)));
        } else if idx == 25 {
            assert(entry_fact(unit_at(25)));
        } else if idx == 26 {
            assert(entry_fact(unit_at(26)));
        } else if idx == 27 {
            assert(entry_fact(unit_at(27)));
        } else if idx == 28 {
            assert(entry_fact(unit_at(28)));
        } else if idx == 29 {
            assert(entry_fact(unit_at(29)));
        } else if idx == 30 {
            assert(entry_fact(unit_at(30)));
        } else if idx == 31 {
            assert(entry_fact(unit_at(31)));
        } else if idx == 32 {
            assert(entry_fact(unit_at(32)));
        } else if idx == 33 {
            assert(entry_fact(unit_at(33)));
        } else if idx == 34 {
            assert(entry_fact(unit_at(34)));
        } else if idx == 35 {
            assert(entry_fact(unit_at(35)));
        } else if idx == 36 {
            assert(entry_fact(unit_at(36)));
        } else if idx == 37 {
            assert(entry_fact(unit_at(37)));
        } else if idx == 38 {
            assert(entry_fact(unit_at(38)));
        }
    }
}

/// The multiplier shapes are internally consistent and bounded.
pub proof fn lemma_entry_fact_wf(u: UnitSpec)
    requires
        entry_fact(u),
    ensures
        u.mult == u.odd * pow10(u.tens as nat),
        1 <= u.odd <= 315576,
        u.tens <= 11,
        1 <= u.mult <= 31_557_600_000_000_000,
{
    lemma_pow10_values();
}

/// A successful lookup ends after its starting point and within `hi`,
/// and hands back a well-formed table entry.
pub proof fn lemma_match_unit_advances(s: Seq<char>, i: int, hi: int, idx: int)
    requires
        match_unit_from(s, i, hi, idx) is Some,
    ensures
        ({
            let p = match_unit_from(s, i, hi, idx)->0;
            &&& i < p.0 <= hi
            &&& p.1.tag.len() >= 1
            &&& p.1.mult == p.1.odd * pow10(p.1.tens as nat)
            &&& 1 <= p.1.odd <= 315576
            &&& p.1.tens <= 11
            &&& 1 <= p.1.mult <= 31_557_600_000_000_000
        }),
    decreases unit_count() - idx,
{
    lemma_unit_tags_nonempty();
    lemma_unit_facts();
    if 0 <= idx < unit_count() {
        if tag_match(s, i, hi, unit_at(idx).tag) {
            lemma_entry_fact_wf(unit_at(idx));
        } else {
            lemma_match_unit_advances(s, i, hi, idx + 1);
        }
    }
}

/// Case-insensitive comparison of one tag at position `i`.
pub fn exec_tag_match(v: &Vec<char>, i: usize, hi: usize, tag: &Vec<char>) -> (b: bool)
    requires
        i <= hi <= v@.len(),
    ensures
        b == tag_match(v@, i as int, hi as int, tag@),
{
    if tag.len() > hi - i {
        return false;
    }
    let n = tag.len();
    let mut k: usize = 0;
    while k < n
        invariant
            k <= n,
            n == tag@.len(),
            i <= hi <= v@.len(),
            i + n <= hi,
            forall|q: int| 0 <= q < k ==> to_lower(v@[i + q]) == to_lower(tag@[q]),
        decreases n - k,
    {
        let a = crate::chars::lower_char(v[i + k]);
        let b = crate::chars::lower_char(tag[k]);
        if a != b {
            return false;
        }
        k = k + 1;
    }
    true
}

/// Looks the text at `i` up in the unit table; the first matching
/// spelling wins. Yields the position after the tag and the matched
/// unit's multiplier and its factorization.
pub fn exec_match_unit(v: &Vec<char>, i: usize, hi: usize) -> (r: Option<(usize, u128, u128, u32)>)
    requires
        i <= hi <= v@.len(),
    ensures
        match r {
            Some(x) => {
                &&& match_unit(v@, i as int, hi as int) matches Some(p)
                &&& p.0 == x.0
                &&& p.1.mult == x.1
                &&& p.1.odd == x.2
                &&& p.1.tens == x.3
            },
            None => match_unit(v@, i as int, hi as int) is None,
        },
{
    let ghost s = v@;
    let t0 = str_to_chars("nanoseconds");
    if exec_tag_match(v, i, hi, &t0) {
        proof { assert(match_unit_from(s, i as int, hi as int, 0) == Some((i + t0@.len(), unit_at(0)))); }
        return Some((i + t0.len(), 1, 1, 0));
    }
    proof { assert(match_unit_from(s, i as int, hi as int, 0) == match_unit_from(s, i as int, hi as int, 1)); }
    let t1 = str_to_chars("nanosecond");
    if exec_tag_match(v, i, hi, &t1) {
        proof { assert(match_unit_from(s, i as int, hi as int, 1) == Some((i + t1@.len(), unit_at(1)))); }
        return Some((i + t1.len(), 1, 1, 0));
    }
    proof { assert(match_unit_from(s, i as int, hi as int, 1) == match_unit_from(s, i as int, hi as int, 2)); }
    let t2 = str_to_chars("nanos");
    if exec_tag_match(v, i, hi, &t2) {
        proof { assert(match_unit_from(s, i as int, hi as int, 2) == Some((i + t2@.len(), unit_at(2)))); }
        return Some((i + t2.len(), 1, 1, 0));
    }
    proof { assert(match_unit_from(s, i as int, hi as int, 2) == match_unit_from(s, i as int, hi as int, 3)); }
    let t3 = str_to_chars("ns");
    if exec_tag_match(v, i, hi, &t3) {
        proof { assert(match_unit_from(s, i as int, hi as int, 3) == Some((i + t3@.len(), unit_at(3)))); }
        return Some((i + t3.len(), 1, 1, 0));
    }
    proof { assert(match_unit_from(s, i as int, hi as int, 3) == match_unit_from(s, i as int, hi as int, 4)); }
    let t4 = str_to_chars("microseconds");
    if exec_tag_match(v, i, hi, &t4) {
        proof { assert(match_unit_from(s, i as int, hi as int, 4) == Some((i + t4@.len(), unit_at(4)))); }
        return Some((i + t4.len(), 1_000, 1, 3));
    }
    proof { assert(match_unit_from(s, i as int, hi as int, 4) == match_unit_from(s, i as int, hi as int, 5)); }
    let t5 = str_to_chars("microsecond");
    if exec_tag_match(v, i, hi, &t5) {
        proof { assert(match_unit_from(s, i as int, hi as int, 5) == Some((i + t5@.len(), unit_at(5)))); }
        return Some((i + t5.len(), 1_000, 1, 3));
    }
    proof { assert(match_unit_from(s, i as int, hi as int, 5) == match_unit_from(s, i as int, hi as int, 6)); }
    let t6 = str_to_chars("micros");
    if exec_tag_match(v, i, hi, &t6) {
        proof { assert(match_unit_from(s, i as int, hi as int, 6) == Some((i + t6@.len(), unit_at(6)))); }
        return Some((i + t6.len(), 1_000, 1, 3));
    }
    proof { assert(match_unit_from(s, i as int, hi as int, 6) == match_unit_from(s, i as int, hi as int, 7)); }
    let t7 = str_to_chars("us");
    if exec_tag_match(v, i, hi, &t7) {
        proof { assert(match_unit_from(s, i as int, hi as int, 7) == Some((i + t7@.len(), unit_at(7)))); }
        return Some((i + t7.len(), 1_000, 1, 3));
    }
    proof { assert(match_unit_from(s, i as int, hi as int, 7) == match_unit_from(s, i as int, hi as int, 8)); }
    let t8 = str_to_chars("\u{b5}s");
    if exec_tag_match(v, i, hi, &t8) {
        proof { assert(match_unit_from(s, i as int, hi as int, 8) == Some((i + t8@.len(), unit_at(8)))); }
        return Some((i + t8.len(), 1_000, 1, 3));
    }
    proof { assert(match_unit_from(s, i as int, hi as int, 8) == match_unit_from(s, i as int, hi as int, 9)); }
    let t9 = str_to_chars("milliseconds");
    if exec_tag_match(v, i, hi, &t9) {
        proof { assert(match_unit_from(s, i as int, hi as int, 9) == Some((i + t9@.len(), unit_at(9)))); }
        return Some((i + t9.len(), 1_000_000, 1, 6));
    }
    proof { assert(match_unit_from(s, i as int, hi as int, 9) == match_unit_from(s, i as int, hi as int, 10)); }
    let t10 = str_to_chars("millisecond");
    if exec_tag_match(v, i, hi, &t10) {
        proof { assert(match_unit_from(s, i as int, hi as int, 10) == Some((i + t10@.len(), unit_at(10)))); }
        return Some((i + t10.len(), 1_000_000, 1, 6));
    }
    proof { assert(match_unit_from(s, i as int, hi as int, 10) == match_unit_from(s, i as int, hi as int, 11)); }
    let t11 = str_to_chars("millis");
    if exec_tag_match(v, i, hi, &t11) {
        proof { assert(match_unit_from(s, i as int, hi as int, 11) == Some((i + t11@.len(), unit_at(11)))); }
        return Some((i + t11.len(), 1_000_000, 1, 6));
    }
    proof { assert(match_unit_from(s, i as int, hi as int, 11) == match_unit_from(s, i as int, hi as int, 12)); }
    let t12 = str_to_chars("ms");
    if exec_tag_match(v, i, hi, &t12) {
        proof { assert(match_unit_from(s, i as int, hi as int, 12) == Some((i + t12@.len(), unit_at(12)))); }
        return Some((i + t12.len(), 1_000_000, 1, 6));
    }
    proof { assert(match_unit_from(s, i as int, hi as int, 12) == match_unit_from(s, i as int, hi as int, 13)); }
    let t13 = str_to_chars("seconds");
    if exec_tag_match(v, i, hi, &t13) {
        proof { assert(match_unit_from(s, i as int, hi as int, 13) == Some((i + t13@.len(), unit_at(13)))); }
        return Some((i + t13.len(), 1_000_000_000, 1, 9));
    }
    proof { assert(match_unit_from(s, i as int, hi as int, 13) == match_unit_from(s, i as int, hi as int, 14)); }
    let t14 = str_to_chars("second");
    if exec_tag_match(v, i, hi, &t14) {
        proof { assert(match_unit_from(s, i as int, hi as int, 14) == Some((i + t14@.len(), unit_at(14)))); }
        return Some((i + t14.len(), 1_000_000_000, 1, 9));
    }
    proof { assert(match_unit_from(s, i as int, hi as int, 14) == match_unit_from(s, i as int, hi as int, 15)); }
    let t15 = str_to_chars("secs");
    if exec_tag_match(v, i, hi, &t15) {
        proof { assert(match_unit_from(s, i as int, hi as int, 15) == Some((i + t15@.len(), unit_at(15)))); }
        return Some((i + t15.len(), 1_000_000_000, 1, 9));
    }
    proof { assert(match_unit_from(s, i as int, hi as int, 15) == match_unit_from(s, i as int, hi as int, 16)); }
    let t16 = str_to_chars("sec");
    if exec_tag_match(v, i, hi, &t16) {
        proof { assert(match_unit_from(s, i as int, hi as int, 16) == Some((i + t16@.len(), unit_at(16)))); }
        return Some((i + t16.len(), 1_000_000_000, 1, 9));
    }
    proof { assert(match_unit_from(s, i as int, hi as int, 16) == match_unit_from(s, i as int, hi as int, 17)); }
    let t17 = str_to_chars("s");
    if exec_tag_match(v, i, hi, &t17) {
        proof { assert(match_unit_from(s, i as int, hi as int, 17) == Some((i + t17@.len(), unit_at(17)))); }
        return Some((i + t17.len(), 1_000_000_000, 1, 9));
    }
    proof { assert(match_unit_from(s, i as int, hi as int, 17) == match_unit_from(s, i as int, hi as int, 18)); }
    let t18 = str_to_chars("minutes");
    if exec_tag_match(v, i, hi, &t18) {
        proof { assert(match_unit_from(s, i as int, hi as int, 18) == Some((i + t18@.len(), unit_at(18)))); }
        return Some((i + t18.len(), 60_000_000_000, 6, 10));
    }
    proof { assert(match_unit_from(s, i as int, hi as int, 18) == match_unit_from(s, i as int, hi as int, 19)); }
    let t19 = str_to_chars("minute");
    if exec_tag_match(v, i, hi, &t19) {
        proof { assert(match_unit_from(s, i as int, hi as int, 19) == Some((i + t19@.len(), unit_at(19)))); }
        return Some((i + t19.len(), 60_000_000_000, 6, 10));
    }
    proof { assert(match_unit_from(s, i as int, hi as int, 19) == match_unit_from(s, i as int, hi as int, 20)); }
    let t20 = str_to_chars("mins");
    if exec_tag_match(v, i, hi, &t20) {
        proof { assert(match_unit_from(s, i as int, hi as int, 20) == Some((i + t20@.len(), unit_at(20)))); }
        return Some((i + t20.len(), 60_000_000_000, 6, 10));
    }
    proof { assert(match_unit_from(s, i as int, hi as int, 20) == match_unit_from(s, i as int, hi as int, 21)); }
    let t21 = str_to_chars("min");
    if exec_tag_match(v, i, hi, &t21) {
        proof { assert(match_unit_from(s, i as int, hi as int, 21) == Some((i + t21@.len(), unit_at(21)))); }
        return Some((i + t21.len(), 60_000_000_000, 6, 10));
    }
    proof { assert(match_unit_from(s, i as int, hi as int, 21) == match_unit_from(s, i as int, hi as int, 22)); }
    let t22 = str_to_chars("m");
    if exec_tag_match(v, i, hi, &t22) {
        proof { assert(match_unit_from(s, i as int, hi as int, 22) == Some((i + t22@.len(), unit_at(22)))); }
        return Some((i + t22.len(), 60_000_000_000, 6, 10));
    }
    proof { assert(match_unit_from(s, i as int, hi as int, 22) == match_unit_from(s, i as int, hi as int, 23)); }
    let t23 = str_to_chars("hours");
    if exec_tag_match(v, i, hi, &t23) {
        proof { assert(match_unit_from(s, i as int, hi as int, 23) == Some((i + t23@.len(), unit_at(23)))); }
        return Some((i + t23.len(), 3_600_000_000_000, 36, 11));
    }
    proof { assert(match_unit_from(s, i as int, hi as int, 23) == match_unit_from(s, i as int, hi as int, 24)); }
    let t24 = str_to_chars("hour");
    if exec_tag_match(v, i, hi, &t24) {
        proof { assert(match_unit_from(s, i as int, hi as int, 24) == Some((i + t24@.len(), unit_at(24)))); }
        return Some((i + t24.len(), 3_600_000_000_000, 36, 11));
    }
    proof { assert(match_unit_from(s, i as int, hi as int, 24) == match_unit_from(s, i as int, hi as int, 25)); }
    let t25 = str_to_chars("hrs");
    if exec_tag_match(v, i, hi, &t25) {
        proof { assert(match_unit_from(s, i as int, hi as int, 25) == Some((i + t25@.len(), unit_at(25)))); }
        return Some((i + t25.len(), 3_600_000_000_000, 36, 11));
    }
    proof { assert(match_unit_from(s, i as int, hi as int, 25) == match_unit_from(s, i as int, hi as int, 26)); }
    let t26 = str_to_chars("hr");
    if exec_tag_match(v, i, hi, &t26) {
        proof { assert(match_unit_from(s, i as int, hi as int, 26) == Some((i + t26@.len(), unit_at(26)))); }
        return Some((i + t26.len(), 3_600_000_000_000, 36, 11));
    }
    proof { assert(match_unit_from(s, i as int, hi as int, 26) == match_unit_from(s, i as int, hi as int, 27)); }
    let t27 = str_to_chars("h");
    if exec_tag_match(v, i, hi, &t27) {
        proof { assert(match_unit_from(s, i as int, hi as int, 27) == Some((i + t27@.len(), unit_at(27)))); }
        return Some((i + t27.len(), 3_600_000_000_000, 36, 11));
    }
    proof { assert(match_unit_from(s, i as int, hi as int, 27) == match_unit_from(s, i as int, hi as int, 28)); }
    let t28 = str_to_chars("days");
    if exec_tag_match(v, i, hi, &t28) {
        proof { assert(match_unit_from(s, i as int, hi as int, 28) == Some((i + t28@.len(), unit_at(28)))); }
        return Some((i + t28.len(), 86_400_000_000_000, 864, 11));
    }
    proof { assert(match_unit_from(s, i as int, hi as int, 28) == match_unit_from(s, i as int, hi as int, 29)); }
    let t29 = str_to_chars("day");
    if exec_tag_match(v, i, hi, &t29) {
        proof { assert(match_unit_from(s, i as int, hi as int, 29) == Some((i + t29@.len(), unit_at(29)))); }
        return Some((i + t29.len(), 86_400_000_000_000, 864, 11));
    }
    proof { assert(match_unit_from(s, i as int, hi as int, 29) == match_unit_from(s, i as int, hi as int, 30)); }
    let t30 = str_to_chars("d");
    if exec_tag_match(v, i, hi, &t30) {
        proof { assert(match_unit_from(s, i as int, hi as int, 30) == Some((i + t30@.len(), unit_at(30)))); }
        return Some((i + t30.len(), 86_400_000_000_000, 864, 11));
    }
    proof { assert(match_unit_from(s, i as int, hi as int, 30) == match_unit_from(s, i as int, hi as int, 31)); }
    let t31 = str_to_chars("weeks");
    if exec_tag_match(v, i, hi, &t31) {
        proof { assert(match_unit_from(s, i as int, hi as int, 31) == Some((i + t31@.len(), unit_at(31)))); }
        return Some((i + t31.len(), 604_800_000_000_000, 6048, 11));
    }
    proof { assert(match_unit_from(s, i as int, hi as int, 31) == match_unit_from(s, i as int, hi as int, 32)); }
    let t32 = str_to_chars("week");
    if exec_tag_match(v, i, hi, &t32) {
        proof { assert(match_unit_from(s, i as int, hi as int, 32) == Some((i + t32@.len(), unit_at(32)))); }
        return Some((i + t32.len(), 604_800_000_000_000, 6048, 11));
    }
    proof { assert(match_unit_from(s, i as int, hi as int, 32) == match_unit_from(s, i as int, hi as int, 33)); }
    let t33 = str_to_chars("w");
    if exec_tag_match(v, i, hi, &t33) {
        proof { assert(match_unit_from(s, i as int, hi as int, 33) == Some((i + t33@.len(), unit_at(33)))); }
        return Some((i + t33.len(), 604_800_000_000_000, 6048, 11));
    }
    proof { assert(match_unit_from(s, i as int, hi as int, 33) == match_unit_from(s, i as int, hi as int, 34)); }
    let t34 = str_to_chars("years");
    if exec_tag_match(v, i, hi, &t34) {
        proof { assert(match_unit_from(s, i as int, hi as int, 34) == Some((i + t34@.len(), unit_at(34)))); }
        return Some((i + t34.len(), 31_557_600_000_000_000, 315576, 11));
    }
    proof { assert(match_unit_from(s, i as int, hi as int, 34) == match_unit_from(s, i as int, hi as int, 35)); }
    let t35 = str_to_chars("year");
    if exec_tag_match(v, i, hi, &t35) {
        proof { assert(match_unit_from(s, i as int, hi as int, 35) == Some((i + t35@.len(), unit_at(35)))); }
        return Some((i + t35.len(), 31_557_600_000_000_000, 315576, 11));
    }
    proof { assert(match_unit_from(s, i as int, hi as int, 35) == match_unit_from(s, i as int, hi as int, 36)); }
    let t36 = str_to_chars("yrs");
    if exec_tag_match(v, i, hi, &t36) {
        proof { assert(match_unit_from(s, i as int, hi as int, 36) == Some((i + t36@.len(), unit_at(36)))); }
        return Some((i + t36.len(), 31_557_600_000_000_000, 315576, 11));
    }
    proof { assert(match_unit_from(s, i as int, hi as int, 36) == match_unit_from(s, i as int, hi as int, 37)); }
    let t37 = str_to_chars("yr");
    if exec_tag_match(v, i, hi, &t37) {
        proof { assert(match_unit_from(s, i as int, hi as int, 37) == Some((i + t37@.len(), unit_at(37)))); }
        return Some((i + t37.len(), 31_557_600_000_000_000, 315576, 11));
    }
    proof { assert(match_unit_from(s, i as int, hi as int, 37) == match_unit_from(s, i as int, hi as int, 38)); }
    let t38 = str_to_chars("y");
    if exec_tag_match(v, i, hi, &t38) {
        proof { assert(match_unit_from(s, i as int, hi as int, 38) == Some((i + t38@.len(), unit_at(38)))); }
        return Some((i + t38.len(), 31_557_600_000_000_000, 315576, 11));
    }
    proof { assert(match_unit_from(s, i as int, hi as int, 38) == match_unit_from(s, i as int, hi as int, 39)); }
    None
}

/// Dividing a multiple of `d` by `d` recovers the factor.
pub proof fn lemma_div_by_multiple_pub(b: int, d: int)
    requires
        0 <= b,
        0 < d,
    ensures
        (b * d) / d == b,
{
    lemma_div_by_multiple(b, d);
}

/// What a quantity `m / 10^sc` contributes when its unit holds `mult`
/// nanoseconds: the nanosecond count, rounded toward zero.
pub open spec fn comp_ns(m: u128, sc: u32, mult: u128) -> nat {
    (m * mult) as nat / pow10(sc as nat)
}

/// Multiplies the decimal quantity `m / 10^sc` by the unit multiplier
/// `odd * 10^tens`, truncating any fractional nanoseconds; `None` means
/// the product exceeds `u128::MAX`.
pub fn mul_unit(m: u128, sc: u32, mult: u128, odd: u128, tens: u32) -> (r: Option<u128>)
    requires
        m <= MAX_MANTISSA,
        sc <= MAX_SCALE,
        1 <= odd <= 315576,
        tens <= 11,
        mult == odd * pow10(tens as nat),
    ensures
        match r {
            Some(x) => x == comp_ns(m, sc, mult) && comp_ns(m, sc, mult) <= u128::MAX,
            None => comp_ns(m, sc, mult) > u128::MAX,
        },
{
    proof {
        lemma_mul_upper_bound(m as int, MAX_MANTISSA as int, odd as int, 315576);
    }
    let a: u128 = m * odd;
    if sc <= tens {
        let p = pow10_u128(tens - sc);
        let r = a.checked_mul(p);
        proof {
            lemma_pow10_pos(sc as nat);
            lemma_pow10_pos((tens - sc) as nat);
            lemma_pow10_adds((tens - sc) as nat, sc as nat);
            // m * (odd * 10^tens) == (m * odd * 10^(tens-sc)) * 10^sc
            lemma_mul_is_associative(m as int, odd as int, pow10(tens as nat) as int);
            assert(pow10(tens as nat) == pow10((tens - sc) as nat) * pow10(sc as nat));
            lemma_mul_is_associative(
                a as int,
                pow10((tens - sc) as nat) as int,
                pow10(sc as nat) as int,
            );
            assert(m * mult == (a * pow10((tens - sc) as nat)) * pow10(sc as nat)) by {
                assert(m * mult == m * (odd * pow10(tens as nat)));
                assert(m * (odd * pow10(tens as nat)) == a * pow10(tens as nat));
                assert(a * pow10(tens as nat) == a * (pow10((tens - sc) as nat) * pow10(
                    sc as nat,
                )));
                lemma_mul_is_associative(
                    a as int,
                    pow10((tens - sc) as nat) as int,
                    pow10(sc as nat) as int,
                );
            }
            lemma_div_by_multiple(
                (a * pow10((tens - sc) as nat)) as int,
                pow10(sc as nat) as int,
            );
            assert(comp_ns(m, sc, mult) == a * pow10((tens - sc) as nat));
        }
        r
    } else {
        let p = pow10_u128(sc - tens);
        proof {
            lemma_pow10_pos((sc - tens) as nat);
        }
        let r = a / p;
        proof {
            lemma_pow10_pos(tens as nat);
            lemma_pow10_pos((sc - tens) as nat);
            lemma_pow10_adds((sc - tens) as nat, tens as nat);
            assert(m * mult == a * pow10(tens as nat)) by {
                lemma_mul_is_associative(m as int, odd as int, pow10(tens as nat) as int);
            }
            // (a * 10^tens) / 10^sc == ((a * 10^tens) / 10^tens) / 10^(sc-tens) == a / 10^(sc-tens)
            lemma_div_denominator(
                (a * pow10(tens as nat)) as int,
                pow10(tens as nat) as int,
                pow10((sc - tens) as nat) as int,
            );
            lemma_div_by_multiple(a as int, pow10(tens as nat) as int);
            assert(pow10(sc as nat) == pow10(tens as nat) * pow10((sc - tens) as nat)) by {
                lemma_pow10_adds((sc - tens) as nat, tens as nat);
                lemma_mul_is_commutative(
                    pow10((sc - tens) as nat) as int,
                    pow10(tens as nat) as int,
                );
            }
            assert(comp_ns(m, sc, mult) == a as nat / pow10((sc - tens) as nat));
        }
        Some(r)
    }
}

} // verus!
