//! The library's general laws, stated over the spec functions its
//! public contracts use, and proved once for all inputs.

use vstd::prelude::*;
use crate::chars::to_lower;
use crate::parse::spec_parse;
use crate::parse::ParseOut;
use crate::render::spec_format_exact;
use crate::roundtrip::lemma_exact_round_trip;
use crate::std_time::MAX_STD_NANOS;
use crate::to_std_ns;
use crate::units::match_unit;
use crate::units::match_unit_from;
use crate::units::unit_at;
use crate::units::unit_count;
use crate::units::tag_match;

verus! {

/// Round trip across the standard-duration boundary: for every
/// nanosecond count the standard duration type can represent,
/// converting to it and back is the identity. [crate::Duration::to_std]
/// yields a standard duration holding `to_std_ns(n)` nanoseconds, and
/// [crate::Duration::from_std] reads that count back unchanged.
pub proof fn lemma_std_round_trip(n: u128)
    requires
        n <= MAX_STD_NANOS,
    ensures
        to_std_ns(n) == n,
{
}

/// Lower-casing is idempotent.
proof fn lemma_to_lower_idempotent(c: char)
    ensures
        to_lower(to_lower(c)) == to_lower(c),
{
}

/// One tag matches a text exactly when it matches the lower-cased
/// text.
proof fn lemma_tag_match_case_insensitive(s: Seq<char>, i: int, hi: int, tag: Seq<char>)
    requires
        0 <= i <= hi <= s.len(),
    ensures
        tag_match(s.map_values(|c: char| to_lower(c)), i, hi, tag) == tag_match(s, i, hi, tag),
{
    let ls = s.map_values(|c: char| to_lower(c));
    assert(ls.len() == s.len());
    if tag_match(s, i, hi, tag) {
        assert forall|k: int| 0 <= k < tag.len() implies to_lower(ls[i + k]) == to_lower(
            tag[k],
        ) by {
            assert(ls[i + k] == to_lower(s[i + k]));
            lemma_to_lower_idempotent(s[i + k]);
        }
    }
    if tag_match(ls, i, hi, tag) {
        assert forall|k: int| 0 <= k < tag.len() implies to_lower(s[i + k]) == to_lower(
            tag[k],
        ) by {
            assert(ls[i + k] == to_lower(s[i + k]));
            lemma_to_lower_idempotent(s[i + k]);
        }
    }
}

proof fn lemma_lookup_case_insensitive_from(s: Seq<char>, i: int, hi: int, idx: int)
    requires
        0 <= i <= hi <= s.len(),
    ensures
        match_unit_from(s.map_values(|c: char| to_lower(c)), i, hi, idx) == match_unit_from(
            s,
            i,
            hi,
            idx,
        ),
    decreases unit_count() - idx,
{
    if 0 <= idx < unit_count() {
        lemma_tag_match_case_insensitive(s, i, hi, unit_at(idx).tag);
        lemma_lookup_case_insensitive_from(s, i, hi, idx + 1);
    }
}

/// Unit lookup is case-insensitive: looking a spelling up in the unit
/// table finds the same entry, ending at the same position, as looking
/// up its ASCII-lower-cased form.
pub proof fn lemma_unit_lookup_case_insensitive(s: Seq<char>, i: int, hi: int)
    requires
        0 <= i <= hi <= s.len(),
    ensures
        match_unit(s.map_values(|c: char| to_lower(c)), i, hi) == match_unit(s, i, hi),
{
    lemma_lookup_case_insensitive_from(s, i, hi, 0);
}

/// The exact formatter round-trips through the parser: for every
/// duration, parsing the text [crate::ExactDisplay::to_string] renders
/// yields exactly the nanosecond count that was rendered. This is what
/// makes that rendering the canonical serialized form.
pub proof fn lemma_parse_format_exact(n: u128)
    ensures
        spec_parse(spec_format_exact(n)) == ParseOut::Val(n),
{
    lemma_exact_round_trip(n);
}

} // verus!
