//! Matching the unit suffixes the exact formatter emits: at a rendered
//! suffix followed by a space or the end of the text, the table lookup
//! finds exactly the entry the formatter meant.

use vstd::prelude::*;
use crate::chars::to_lower;
use crate::units::match_unit;
use crate::units::match_unit_from;
use crate::units::tag_match;
use crate::units::unit_at;

verus! {

/// Looking up the rendered suffix `"ns"` (followed by a space or
/// the end) finds its table entry.
#[verifier::rlimit(100)]
pub proof fn lemma_match_unit_ns(s: Seq<char>, u: int, hi: int)
    requires
        0 <= u,
        u + 2 <= hi <= s.len(),
        s[u + 0] == 'n',
        s[u + 1] == 's',
        u + 2 == hi || s[u + 2] == ' ',
    ensures
        match_unit(s, u, hi) matches Some(p) && p.0 == u + 2 && p.1 == unit_at(3),
{
    reveal_strlit("nanoseconds");
    reveal_strlit("nanosecond");
    reveal_strlit("nanos");
    reveal_strlit("ns");
    reveal_strlit("microseconds");
    reveal_strlit("microsecond");
    reveal_strlit("micros");
    reveal_strlit("us");
    reveal_strlit("\u{b5}s");
    reveal_strlit("milliseconds");
    reveal_strlit("millisecond");
    reveal_strlit("millis");
    reveal_strlit("ms");
    reveal_strlit("seconds");
    reveal_strlit("second");
    reveal_strlit("secs");
    reveal_strlit("sec");
    reveal_strlit("s");
    reveal_strlit("minutes");
    reveal_strlit("minute");
    reveal_strlit("mins");
    reveal_strlit("min");
    reveal_strlit("m");
    reveal_strlit("hours");
    reveal_strlit("hour");
    reveal_strlit("hrs");
    reveal_strlit("hr");
    reveal_strlit("h");
    reveal_strlit("days");
    reveal_strlit("day");
    reveal_strlit("d");
    reveal_strlit("weeks");
    reveal_strlit("week");
    reveal_strlit("w");
    reveal_strlit("years");
    reveal_strlit("year");
    reveal_strlit("yrs");
    reveal_strlit("yr");
    reveal_strlit("y");
    assert(tag_match(s, u, hi, unit_at(3).tag));
    assert(!tag_match(s, u, hi, unit_at(0).tag)) by {
        if tag_match(s, u, hi, unit_at(0).tag) {
            assert(to_lower(s[u + 1]) == to_lower(unit_at(0).tag[1]));
            assert(false);
        }
    }
    assert(!tag_match(s, u, hi, unit_at(1).tag)) by {
        if tag_match(s, u, hi, unit_at(1).tag) {
            assert(to_lower(s[u + 1]) == to_lower(unit_at(1).tag[1]));
            assert(false);
        }
    }
    assert(!tag_match(s, u, hi, unit_at(2).tag)) by {
        if tag_match(s, u, hi, unit_at(2).tag) {
            assert(to_lower(s[u + 1]) == to_lower(unit_at(2).tag[1]));
            assert(false);
        }
    }
    assert(match_unit_from(s, u, hi, 0) == match_unit_from(s, u, hi, 1));
    assert(match_unit_from(s, u, hi, 1) == match_unit_from(s, u, hi, 2));
    assert(match_unit_from(s, u, hi, 2) == match_unit_from(s, u, hi, 3));
    assert(match_unit_from(s, u, hi, 3) == Some((u + 2, unit_at(3))));
}

/// Looking up the rendered suffix `"us"` (followed by a space or
/// the end) finds its table entry.
#[verifier::rlimit(100)]
pub proof fn lemma_match_unit_us(s: Seq<char>, u: int, hi: int)
    requires
        0 <= u,
        u + 2 <= hi <= s.len(),
        s[u + 0] == 'u',
        s[u + 1] == 's',
        u + 2 == hi || s[u + 2] == ' ',
    ensures
        match_unit(s, u, hi) matches Some(p) && p.0 == u + 2 && p.1 == unit_at(7),
{
    reveal_strlit("nanoseconds");
    reveal_strlit("nanosecond");
    reveal_strlit("nanos");
    reveal_strlit("ns");
    reveal_strlit("microseconds");
    reveal_strlit("microsecond");
    reveal_strlit("micros");
    reveal_strlit("us");
    reveal_strlit("\u{b5}s");
    reveal_strlit("milliseconds");
    reveal_strlit("millisecond");
    reveal_strlit("millis");
    reveal_strlit("ms");
    reveal_strlit("seconds");
    reveal_strlit("second");
    reveal_strlit("secs");
    reveal_strlit("sec");
    reveal_strlit("s");
    reveal_strlit("minutes");
    reveal_strlit("minute");
    reveal_strlit("mins");
    reveal_strlit("min");
    reveal_strlit("m");
    reveal_strlit("hours");
    reveal_strlit("hour");
    reveal_strlit("hrs");
    reveal_strlit("hr");
    reveal_strlit("h");
    reveal_strlit("days");
    reveal_strlit("day");
    reveal_strlit("d");
    reveal_strlit("weeks");
    reveal_strlit("week");
    reveal_strlit("w");
    reveal_strlit("years");
    reveal_strlit("year");
    reveal_strlit("yrs");
    reveal_strlit("yr");
    reveal_strlit("y");
    assert(tag_match(s, u, hi, unit_at(7).tag));
    assert(!tag_match(s, u, hi, unit_at(0).tag)) by {
        if tag_match(s, u, hi, unit_at(0).tag) {
            assert(to_lower(s[u + 0]) == to_lower(unit_at(0).tag[0]));
            assert(false);
        }
    }
    assert(!tag_match(s, u, hi, unit_at(1).tag)) by {
        if tag_match(s, u, hi, unit_at(1).tag) {
            assert(to_lower(s[u + 0]) == to_lower(unit_at(1).tag[0]));
            assert(false);
        }
    }
    assert(!tag_match(s, u, hi, unit_at(2).tag)) by {
        if tag_match(s, u, hi, unit_at(2).tag) {
            assert(to_lower(s[u + 0]) == to_lower(unit_at(2).tag[0]));
            assert(false);
        }
    }
    assert(!tag_match(s, u, hi, unit_at(3).tag)) by {
        if tag_match(s, u, hi, unit_at(3).tag) {
            assert(to_lower(s[u + 0]) == to_lower(unit_at(3).tag[0]));
            assert(false);
        }
    }
    assert(!tag_match(s, u, hi, unit_at(4).tag)) by {
        if tag_match(s, u, hi, unit_at(4).tag) {
            assert(to_lower(s[u + 0]) == to_lower(unit_at(4).tag[0]));
            assert(false);
        }
    }
    assert(!tag_match(s, u, hi, unit_at(5).tag)) by {
        if tag_match(s, u, hi, unit_at(5).tag) {
            assert(to_lower(s[u + 0]) == to_lower(unit_at(5).tag[0]));
            assert(false);
        }
    }
    assert(!tag_match(s, u, hi, unit_at(6).tag)) by {
        if tag_match(s, u, hi, unit_at(6).tag) {
            assert(to_lower(s[u + 0]) == to_lower(unit_at(6).tag[0]));
            assert(false);
        }
    }
    assert(match_unit_from(s, u, hi, 0) == match_unit_from(s, u, hi, 1));
    assert(match_unit_from(s, u, hi, 1) == match_unit_from(s, u, hi, 2));
    assert(match_unit_from(s, u, hi, 2) == match_unit_from(s, u, hi, 3));
    assert(match_unit_from(s, u, hi, 3) == match_unit_from(s, u, hi, 4));
    assert(match_unit_from(s, u, hi, 4) == match_unit_from(s, u, hi, 5));
    assert(match_unit_from(s, u, hi, 5) == match_unit_from(s, u, hi, 6));
    assert(match_unit_from(s, u, hi, 6) == match_unit_from(s, u, hi, 7));
    assert(match_unit_from(s, u, hi, 7) == Some((u + 2, unit_at(7))));
}

/// Looking up the rendered suffix `"ms"` (followed by a space or
/// the end) finds its table entry.
#[verifier::rlimit(100)]
pub proof fn lemma_match_unit_ms(s: Seq<char>, u: int, hi: int)
    requires
        0 <= u,
        u + 2 <= hi <= s.len(),
        s[u + 0] == 'm',
        s[u + 1] == 's',
        u + 2 == hi || s[u + 2] == ' ',
    ensures
        match_unit(s, u, hi) matches Some(p) && p.0 == u + 2 && p.1 == unit_at(12),
{
    reveal_strlit("nanoseconds");
    reveal_strlit("nanosecond");
    reveal_strlit("nanos");
    reveal_strlit("ns");
    reveal_strlit("microseconds");
    reveal_strlit("microsecond");
    reveal_strlit("micros");
    reveal_strlit("us");
    reveal_strlit("\u{b5}s");
    reveal_strlit("milliseconds");
    reveal_strlit("millisecond");
    reveal_strlit("millis");
    reveal_strlit("ms");
    reveal_strlit("seconds");
    reveal_strlit("second");
    reveal_strlit("secs");
    reveal_strlit("sec");
    reveal_strlit("s");
    reveal_strlit("minutes");
    reveal_strlit("minute");
    reveal_strlit("mins");
    reveal_strlit("min");
    reveal_strlit("m");
    reveal_strlit("hours");
    reveal_strlit("hour");
    reveal_strlit("hrs");
    reveal_strlit("hr");
    reveal_strlit("h");
    reveal_strlit("days");
    reveal_strlit("day");
    reveal_strlit("d");
    reveal_strlit("weeks");
    reveal_strlit("week");
    reveal_strlit("w");
    reveal_strlit("years");
    reveal_strlit("year");
    reveal_strlit("yrs");
    reveal_strlit("yr");
    reveal_strlit("y");
    assert(tag_match(s, u, hi, unit_at(12).tag));
    assert(!tag_match(s, u, hi, unit_at(0).tag)) by {
        if tag_match(s, u, hi, unit_at(0).tag) {
            assert(to_lower(s[u + 0]) == to_lower(unit_at(0).tag[0]));
            assert(false);
        }
    }
    assert(!tag_match(s, u, hi, unit_at(1).tag)) by {
        if tag_match(s, u, hi, unit_at(1).tag) {
            assert(to_lower(s[u + 0]) == to_lower(unit_at(1).tag[0]));
            assert(false);
        }
    }
    assert(!tag_match(s, u, hi, unit_at(2).tag)) by {
        if tag_match(s, u, hi, unit_at(2).tag) {
            assert(to_lower(s[u + 0]) == to_lower(unit_at(2).tag[0]));
            assert(false);
        }
    }
    assert(!tag_match(s, u, hi, unit_at(3).tag)) by {
        if tag_match(s, u, hi, unit_at(3).tag) {
            assert(to_lower(s[u + 0]) == to_lower(unit_at(3).tag[0]));
            assert(false);
        }
    }
    assert(!tag_match(s, u, hi, unit_at(4).tag)) by {
        if tag_match(s, u, hi, unit_at(4).tag) {
            assert(to_lower(s[u + 1]) == to_lower(unit_at(4).tag[1]));
            assert(false);
        }
    }
    assert(!tag_match(s, u, hi, unit_at(5).tag)) by {
        if tag_match(s, u, hi, unit_at(5).tag) {
            assert(to_lower(s[u + 1]) == to_lower(unit_at(5).tag[1]));
            assert(false);
        }
    }
    assert(!tag_match(s, u, hi, unit_at(6).tag)) by {
        if tag_match(s, u, hi, unit_at(6).tag) {
            assert(to_lower(s[u + 1]) == to_lower(unit_at(6).tag[1]));
            assert(false);
        }
    }
    assert(!tag_match(s, u, hi, unit_at(7).tag)) by {
        if tag_match(s, u, hi, unit_at(7).tag) {
            assert(to_lower(s[u + 0]) == to_lower(unit_at(7).tag[0]));
            assert(false);
        }
    }
    assert(!tag_match(s, u, hi, unit_at(8).tag)) by {
        if tag_match(s, u, hi, unit_at(8).tag) {
            assert(to_lower(s[u + 0]) == to_lower(unit_at(8).tag[0]));
            assert(false);
        }
    }
    assert(!tag_match(s, u, hi, unit_at(9).tag)) by {
        if tag_match(s, u, hi, unit_at(9).tag) {
            assert(to_lower(s[u + 1]) == to_lower(unit_at(9).tag[1]));
            assert(false);
        }
    }
    assert(!tag_match(s, u, hi, unit_at(10).tag)) by {
        if tag_match(s, u, hi, unit_at(10).tag) {
            assert(to_lower(s[u + 1]) == to_lower(unit_at(10).tag[1]));
            assert(false);
        }
    }
    assert(!tag_match(s, u, hi, unit_at(11).tag)) by {
        if tag_match(s, u, hi, unit_at(11).tag) {
            assert(to_lower(s[u + 1]) == to_lower(unit_at(11).tag[1]));
            assert(false);
        }
    }
    assert(match_unit_from(s, u, hi, 0) == match_unit_from(s, u, hi, 1));
    assert(match_unit_from(s, u, hi, 1) == match_unit_from(s, u, hi, 2));
    assert(match_unit_from(s, u, hi, 2) == match_unit_from(s, u, hi, 3));
    assert(match_unit_from(s, u, hi, 3) == match_unit_from(s, u, hi, 4));
    assert(match_unit_from(s, u, hi, 4) == match_unit_from(s, u, hi, 5));
    assert(match_unit_from(s, u, hi, 5) == match_unit_from(s, u, hi, 6));
    assert(match_unit_from(s, u, hi, 6) == match_unit_from(s, u, hi, 7));
    assert(match_unit_from(s, u, hi, 7) == match_unit_from(s, u, hi, 8));
    assert(match_unit_from(s, u, hi, 8) == match_unit_from(s, u, hi, 9));
    assert(match_unit_from(s, u, hi, 9) == match_unit_from(s, u, hi, 10));
    assert(match_unit_from(s, u, hi, 10) == match_unit_from(s, u, hi, 11));
    assert(match_unit_from(s, u, hi, 11) == match_unit_from(s, u, hi, 12));
    assert(match_unit_from(s, u, hi, 12) == Some((u + 2, unit_at(12))));
}

/// Looking up the rendered suffix `"s"` (followed by a space or
/// the end) finds its table entry.
#[verifier::rlimit(100)]
pub proof fn lemma_match_unit_s(s: Seq<char>, u: int, hi: int)
    requires
        0 <= u,
        u + 1 <= hi <= s.len(),
        s[u + 0] == 's',
        u + 1 == hi || s[u + 1] == ' ',
    ensures
        match_unit(s, u, hi) matches Some(p) && p.0 == u + 1 && p.1 == unit_at(17),
{
    reveal_strlit("nanoseconds");
    reveal_strlit("nanosecond");
    reveal_strlit("nanos");
    reveal_strlit("ns");
    reveal_strlit("microseconds");
    reveal_strlit("microsecond");
    reveal_strlit("micros");
    reveal_strlit("us");
    reveal_strlit("\u{b5}s");
    reveal_strlit("milliseconds");
    reveal_strlit("millisecond");
    reveal_strlit("millis");
    reveal_strlit("ms");
    reveal_strlit("seconds");
    reveal_strlit("second");
    reveal_strlit("secs");
    reveal_strlit("sec");
    reveal_strlit("s");
    reveal_strlit("minutes");
    reveal_strlit("minute");
    reveal_strlit("mins");
    reveal_strlit("min");
    reveal_strlit("m");
    reveal_strlit("hours");
    reveal_strlit("hour");
    reveal_strlit("hrs");
    reveal_strlit("hr");
    reveal_strlit("h");
    reveal_strlit("days");
    reveal_strlit("day");
    reveal_strlit("d");
    reveal_strlit("weeks");
    reveal_strlit("week");
    reveal_strlit("w");
    reveal_strlit("years");
    reveal_strlit("year");
    reveal_strlit("yrs");
    reveal_strlit("yr");
    reveal_strlit("y");
    assert(tag_match(s, u, hi, unit_at(17).tag));
    assert(!tag_match(s, u, hi, unit_at(0).tag)) by {
        if tag_match(s, u, hi, unit_at(0).tag) {
            assert(to_lower(s[u + 0]) == to_lower(unit_at(0).tag[0]));
            assert(false);
        }
    }
    assert(!tag_match(s, u, hi, unit_at(1).tag)) by {
        if tag_match(s, u, hi, unit_at(1).tag) {
            assert(to_lower(s[u + 0]) == to_lower(unit_at(1).tag[0]));
            assert(false);
        }
    }
    assert(!tag_match(s, u, hi, unit_at(2).tag)) by {
        if tag_match(s, u, hi, unit_at(2).tag) {
            assert(to_lower(s[u + 0]) == to_lower(unit_at(2).tag[0]));
            assert(false);
        }
    }
    assert(!tag_match(s, u, hi, unit_at(3).tag)) by {
        if tag_match(s, u, hi, unit_at(3).tag) {
            assert(to_lower(s[u + 0]) == to_lower(unit_at(3).tag[0]));
            assert(false);
        }
    }
    assert(!tag_match(s, u, hi, unit_at(4).tag)) by {
        if tag_match(s, u, hi, unit_at(4).tag) {
            assert(to_lower(s[u + 0]) == to_lower(unit_at(4).tag[0]));
            assert(false);
        }
    }
    assert(!tag_match(s, u, hi, unit_at(5).tag)) by {
        if tag_match(s, u, hi, unit_at(5).tag) {
            assert(to_lower(s[u + 0]) == to_lower(unit_at(5).tag[0]));
            assert(false);
        }
    }
    assert(!tag_match(s, u, hi, unit_at(6).tag)) by {
        if tag_match(s, u, hi, unit_at(6).tag) {
            assert(to_lower(s[u + 0]) == to_lower(unit_at(6).tag[0]));
            assert(false);
        }
    }
    assert(!tag_match(s, u, hi, unit_at(7).tag)) by {
        if tag_match(s, u, hi, unit_at(7).tag) {
            assert(to_lower(s[u + 0]) == to_lower(unit_at(7).tag[0]));
            assert(false);
        }
    }
    assert(!tag_match(s, u, hi, unit_at(8).tag)) by {
        if tag_match(s, u, hi, unit_at(8).tag) {
            assert(to_lower(s[u + 0]) == to_lower(unit_at(8).tag[0]));
            assert(false);
        }
    }
    assert(!tag_match(s, u, hi, unit_at(9).tag)) by {
        if tag_match(s, u, hi, unit_at(9).tag) {
            assert(to_lower(s[u + 0]) == to_lower(unit_at(9).tag[0]));
            assert(false);
        }
    }
    assert(!tag_match(s, u, hi, unit_at(10).tag)) by {
        if tag_match(s, u, hi, unit_at(10).tag) {
            assert(to_lower(s[u + 0]) == to_lower(unit_at(10).tag[0]));
            assert(false);
        }
    }
    assert(!tag_match(s, u, hi, unit_at(11).tag)) by {
        if tag_match(s, u, hi, unit_at(11).tag) {
            assert(to_lower(s[u + 0]) == to_lower(unit_at(11).tag[0]));
            assert(false);
        }
    }
    assert(!tag_match(s, u, hi, unit_at(12).tag)) by {
        if tag_match(s, u, hi, unit_at(12).tag) {
            assert(to_lower(s[u + 0]) == to_lower(unit_at(12).tag[0]));
            assert(false);
        }
    }
    assert(!tag_match(s, u, hi, unit_at(13).tag)) by {
        if tag_match(s, u, hi, unit_at(13).tag) {
            assert(to_lower(s[u + 1]) == to_lower(unit_at(13).tag[1]));
            assert(false);
        }
    }
    assert(!tag_match(s, u, hi, unit_at(14).tag)) by {
        if tag_match(s, u, hi, unit_at(14).tag) {
            assert(to_lower(s[u + 1]) == to_lower(unit_at(14).tag[1]));
            assert(false);
        }
    }
    assert(!tag_match(s, u, hi, unit_at(15).tag)) by {
        if tag_match(s, u, hi, unit_at(15).tag) {
            assert(to_lower(s[u + 1]) == to_lower(unit_at(15).tag[1]));
            assert(false);
        }
    }
    assert(!tag_match(s, u, hi, unit_at(16).tag)) by {
        if tag_match(s, u, hi, unit_at(16).tag) {
            assert(to_lower(s[u + 1]) == to_lower(unit_at(16).tag[1]));
            assert(false);
        }
    }
    assert(match_unit_from(s, u, hi, 0) == match_unit_from(s, u, hi, 1));
    assert(match_unit_from(s, u, hi, 1) == match_unit_from(s, u, hi, 2));
    assert(match_unit_from(s, u, hi, 2) == match_unit_from(s, u, hi, 3));
    assert(match_unit_from(s, u, hi, 3) == match_unit_from(s, u, hi, 4));
    assert(match_unit_from(s, u, hi, 4) == match_unit_from(s, u, hi, 5));
    assert(match_unit_from(s, u, hi, 5) == match_unit_from(s, u, hi, 6));
    assert(match_unit_from(s, u, hi, 6) == match_unit_from(s, u, hi, 7));
    assert(match_unit_from(s, u, hi, 7) == match_unit_from(s, u, hi, 8));
    assert(match_unit_from(s, u, hi, 8) == match_unit_from(s, u, hi, 9));
    assert(match_unit_from(s, u, hi, 9) == match_unit_from(s, u, hi, 10));
    assert(match_unit_from(s, u, hi, 10) == match_unit_from(s, u, hi, 11));
    assert(match_unit_from(s, u, hi, 11) == match_unit_from(s, u, hi, 12));
    assert(match_unit_from(s, u, hi, 12) == match_unit_from(s, u, hi, 13));
    assert(match_unit_from(s, u, hi, 13) == match_unit_from(s, u, hi, 14));
    assert(match_unit_from(s, u, hi, 14) == match_unit_from(s, u, hi, 15));
    assert(match_unit_from(s, u, hi, 15) == match_unit_from(s, u, hi, 16));
    assert(match_unit_from(s, u, hi, 16) == match_unit_from(s, u, hi, 17));
    assert(match_unit_from(s, u, hi, 17) == Some((u + 1, unit_at(17))));
}

/// Looking up the rendered suffix `"m"` (followed by a space or
/// the end) finds its table entry.
#[verifier::rlimit(100)]
pub proof fn lemma_match_unit_m(s: Seq<char>, u: int, hi: int)
    requires
        0 <= u,
        u + 1 <= hi <= s.len(),
        s[u + 0] == 'm',
        u + 1 == hi || s[u + 1] == ' ',
    ensures
        match_unit(s, u, hi) matches Some(p) && p.0 == u + 1 && p.1 == unit_at(22),
{
    reveal_strlit("nanoseconds");
    reveal_strlit("nanosecond");
    reveal_strlit("nanos");
    reveal_strlit("ns");
    reveal_strlit("microseconds");
    reveal_strlit("microsecond");
    reveal_strlit("micros");
    reveal_strlit("us");
    reveal_strlit("\u{b5}s");
    reveal_strlit("milliseconds");
    reveal_strlit("millisecond");
    reveal_strlit("millis");
    reveal_strlit("ms");
    reveal_strlit("seconds");
    reveal_strlit("second");
    reveal_strlit("secs");
    reveal_strlit("sec");
    reveal_strlit("s");
    reveal_strlit("minutes");
    reveal_strlit("minute");
    reveal_strlit("mins");
    reveal_strlit("min");
    reveal_strlit("m");
    reveal_strlit("hours");
    reveal_strlit("hour");
    reveal_strlit("hrs");
    reveal_strlit("hr");
    reveal_strlit("h");
    reveal_strlit("days");
    reveal_strlit("day");
    reveal_strlit("d");
    reveal_strlit("weeks");
    reveal_strlit("week");
    reveal_strlit("w");
    reveal_strlit("years");
    reveal_strlit("year");
    reveal_strlit("yrs");
    reveal_strlit("yr");
    reveal_strlit("y");
    assert(tag_match(s, u, hi, unit_at(22).tag));
    assert(!tag_match(s, u, hi, unit_at(0).tag)) by {
        if tag_match(s, u, hi, unit_at(0).tag) {
            assert(to_lower(s[u + 0]) == to_lower(unit_at(0).tag[0]));
            assert(false);
        }
    }
    assert(!tag_match(s, u, hi, unit_at(1).tag)) by {
        if tag_match(s, u, hi, unit_at(1).tag) {
            assert(to_lower(s[u + 0]) == to_lower(unit_at(1).tag[0]));
            assert(false);
        }
    }
    assert(!tag_match(s, u, hi, unit_at(2).tag)) by {
        if tag_match(s, u, hi, unit_at(2).tag) {
            assert(to_lower(s[u + 0]) == to_lower(unit_at(2).tag[0]));
            assert(false);
        }
    }
    assert(!tag_match(s, u, hi, unit_at(3).tag)) by {
        if tag_match(s, u, hi, unit_at(3).tag) {
            assert(to_lower(s[u + 0]) == to_lower(unit_at(3).tag[0]));
            assert(false);
        }
    }
    assert(!tag_match(s, u, hi, unit_at(4).tag)) by {
        if tag_match(s, u, hi, unit_at(4).tag) {
            assert(to_lower(s[u + 1]) == to_lower(unit_at(4).tag[1]));
            assert(false);
        }
    }
    assert(!tag_match(s, u, hi, unit_at(5).tag)) by {
        if tag_match(s, u, hi, unit_at(5).tag) {
            assert(to_lower(s[u + 1]) == to_lower(unit_at(5).tag[1]));
            assert(false);
        }
    }
    assert(!tag_match(s, u, hi, unit_at(6).tag)) by {
        if tag_match(s, u, hi, unit_at(6).tag) {
            assert(to_lower(s[u + 1]) == to_lower(unit_at(6).tag[1]));
            assert(false);
        }
    }
    assert(!tag_match(s, u, hi, unit_at(7).tag)) by {
        if tag_match(s, u, hi, unit_at(7).tag) {
            assert(to_lower(s[u + 0]) == to_lower(unit_at(7).tag[0]));
            assert(false);
        }
    }
    assert(!tag_match(s, u, hi, unit_at(8).tag)) by {
        if tag_match(s, u, hi, unit_at(8).tag) {
            assert(to_lower(s[u + 0]) == to_lower(unit_at(8).tag[0]));
            assert(false);
        }
    }
    assert(!tag_match(s, u, hi, unit_at(9).tag)) by {
        if tag_match(s, u, hi, unit_at(9).tag) {
            assert(to_lower(s[u + 1]) == to_lower(unit_at(9).tag[1]));
            assert(false);
        }
    }
    assert(!tag_match(s, u, hi, unit_at(10).tag)) by {
        if tag_match(s, u, hi, unit_at(10).tag) {
            assert(to_lower(s[u + 1]) == to_lower(unit_at(10).tag[1]));
            assert(false);
        }
    }
    assert(!tag_match(s, u, hi, unit_at(11).tag)) by {
        if tag_match(s, u, hi, unit_at(11).tag) {
            assert(to_lower(s[u + 1]) == to_lower(unit_at(11).tag[1]));
            assert(false);
        }
    }
    assert(!tag_match(s, u, hi, unit_at(12).tag)) by {
        if tag_match(s, u, hi, unit_at(12).tag) {
            assert(to_lower(s[u + 1]) == to_lower(unit_at(12).tag[1]));
            assert(false);
        }
    }
    assert(!tag_match(s, u, hi, unit_at(13).tag)) by {
        if tag_match(s, u, hi, unit_at(13).tag) {
            assert(to_lower(s[u + 0]) == to_lower(unit_at(13).tag[0]));
            assert(false);
        }
    }
    assert(!tag_match(s, u, hi, unit_at(14).tag)) by {
        if tag_match(s, u, hi, unit_at(14).tag) {
            assert(to_lower(s[u + 0]) == to_lower(unit_at(14).tag[0]));
            assert(false);
        }
    }
    assert(!tag_match(s, u, hi, unit_at(15).tag)) by {
        if tag_match(s, u, hi, unit_at(15).tag) {
            assert(to_lower(s[u + 0]) == to_lower(unit_at(15).tag[0]));
            assert(false);
        }
    }
    assert(!tag_match(s, u, hi, unit_at(16).tag)) by {
        if tag_match(s, u, hi, unit_at(16).tag) {
            assert(to_lower(s[u + 0]) == to_lower(unit_at(16).tag[0]));
            assert(false);
        }
    }
    assert(!tag_match(s, u, hi, unit_at(17).tag)) by {
        if tag_match(s, u, hi, unit_at(17).tag) {
            assert(to_lower(s[u + 0]) == to_lower(unit_at(17).tag[0]));
            assert(false);
        }
    }
    assert(!tag_match(s, u, hi, unit_at(18).tag)) by {
        if tag_match(s, u, hi, unit_at(18).tag) {
            assert(to_lower(s[u + 1]) == to_lower(unit_at(18).tag[1]));
            assert(false);
        }
    }
    assert(!tag_match(s, u, hi, unit_at(19).tag)) by {
        if tag_match(s, u, hi, unit_at(19).tag) {
            assert(to_lower(s[u + 1]) == to_lower(unit_at(19).tag[1]));
            assert(false);
        }
    }
    assert(!tag_match(s, u, hi, unit_at(20).tag)) by {
        if tag_match(s, u, hi, unit_at(20).tag) {
            assert(to_lower(s[u + 1]) == to_lower(unit_at(20).tag[1]));
            assert(false);
        }
    }
    assert(!tag_match(s, u, hi, unit_at(21).tag)) by {
        if tag_match(s, u, hi, unit_at(21).tag) {
            assert(to_lower(s[u + 1]) == to_lower(unit_at(21).tag[1]));
            assert(false);
        }
    }
    assert(match_unit_from(s, u, hi, 0) == match_unit_from(s, u, hi, 1));
    assert(match_unit_from(s, u, hi, 1) == match_unit_from(s, u, hi, 2));
    assert(match_unit_from(s, u, hi, 2) == match_unit_from(s, u, hi, 3));
    assert(match_unit_from(s, u, hi, 3) == match_unit_from(s, u, hi, 4));
    assert(match_unit_from(s, u, hi, 4) == match_unit_from(s, u, hi, 5));
    assert(match_unit_from(s, u, hi, 5) == match_unit_from(s, u, hi, 6));
    assert(match_unit_from(s, u, hi, 6) == match_unit_from(s, u, hi, 7));
    assert(match_unit_from(s, u, hi, 7) == match_unit_from(s, u, hi, 8));
    assert(match_unit_from(s, u, hi, 8) == match_unit_from(s, u, hi, 9));
    assert(match_unit_from(s, u, hi, 9) == match_unit_from(s, u, hi, 10));
    assert(match_unit_from(s, u, hi, 10) == match_unit_from(s, u, hi, 11));
    assert(match_unit_from(s, u, hi, 11) == match_unit_from(s, u, hi, 12));
    assert(match_unit_from(s, u, hi, 12) == match_unit_from(s, u, hi, 13));
    assert(match_unit_from(s, u, hi, 13) == match_unit_from(s, u, hi, 14));
    assert(match_unit_from(s, u, hi, 14) == match_unit_from(s, u, hi, 15));
    assert(match_unit_from(s, u, hi, 15) == match_unit_from(s, u, hi, 16));
    assert(match_unit_from(s, u, hi, 16) == match_unit_from(s, u, hi, 17));
    assert(match_unit_from(s, u, hi, 17) == match_unit_from(s, u, hi, 18));
    assert(match_unit_from(s, u, hi, 18) == match_unit_from(s, u, hi, 19));
    assert(match_unit_from(s, u, hi, 19) == match_unit_from(s, u, hi, 20));
    assert(match_unit_from(s, u, hi, 20) == match_unit_from(s, u, hi, 21));
    assert(match_unit_from(s, u, hi, 21) == match_unit_from(s, u, hi, 22));
    assert(match_unit_from(s, u, hi, 22) == Some((u + 1, unit_at(22))));
}

/// Looking up the rendered suffix `"h"` (followed by a space or
/// the end) finds its table entry.
#[verifier::rlimit(100)]
pub proof fn lemma_match_unit_h(s: Seq<char>, u: int, hi: int)
    requires
        0 <= u,
        u + 1 <= hi <= s.len(),
        s[u + 0] == 'h',
        u + 1 == hi || s[u + 1] == ' ',
    ensures
        match_unit(s, u, hi) matches Some(p) && p.0 == u + 1 && p.1 == unit_at(27),
{
    reveal_strlit("nanoseconds");
    reveal_strlit("nanosecond");
    reveal_strlit("nanos");
    reveal_strlit("ns");
    reveal_strlit("microseconds");
    reveal_strlit("microsecond");
    reveal_strlit("micros");
    reveal_strlit("us");
    reveal_strlit("\u{b5}s");
    reveal_strlit("milliseconds");
    reveal_strlit("millisecond");
    reveal_strlit("millis");
    reveal_strlit("ms");
    reveal_strlit("seconds");
    reveal_strlit("second");
    reveal_strlit("secs");
    reveal_strlit("sec");
    reveal_strlit("s");
    reveal_strlit("minutes");
    reveal_strlit("minute");
    reveal_strlit("mins");
    reveal_strlit("min");
    reveal_strlit("m");
    reveal_strlit("hours");
    reveal_strlit("hour");
    reveal_strlit("hrs");
    reveal_strlit("hr");
    reveal_strlit("h");
    reveal_strlit("days");
    reveal_strlit("day");
    reveal_strlit("d");
    reveal_strlit("weeks");
    reveal_strlit("week");
    reveal_strlit("w");
    reveal_strlit("years");
    reveal_strlit("year");
    reveal_strlit("yrs");
    reveal_strlit("yr");
    reveal_strlit("y");
    assert(tag_match(s, u, hi, unit_at(27).tag));
    assert(!tag_match(s, u, hi, unit_at(0).tag)) by {
        if tag_match(s, u, hi, unit_at(0).tag) {
            assert(to_lower(s[u + 0]) == to_lower(unit_at(0).tag[0]));
            assert(false);
        }
    }
    assert(!tag_match(s, u, hi, unit_at(1).tag)) by {
        if tag_match(s, u, hi, unit_at(1).tag) {
            assert(to_lower(s[u + 0]) == to_lower(unit_at(1).tag[0]));
            assert(false);
        }
    }
    assert(!tag_match(s, u, hi, unit_at(2).tag)) by {
        if tag_match(s, u, hi, unit_at(2).tag) {
            assert(to_lower(s[u + 0]) == to_lower(unit_at(2).tag[0]));
            assert(false);
        }
    }
    assert(!tag_match(s, u, hi, unit_at(3).tag)) by {
        if tag_match(s, u, hi, unit_at(3).tag) {
            assert(to_lower(s[u + 0]) == to_lower(unit_at(3).tag[0]));
            assert(false);
        }
    }
    assert(!tag_match(s, u, hi, unit_at(4).tag)) by {
        if tag_match(s, u, hi, unit_at(4).tag) {
            assert(to_lower(s[u + 0]) == to_lower(unit_at(4).tag[0]));
            assert(false);
        }
    }
    assert(!tag_match(s, u, hi, unit_at(5).tag)) by {
        if tag_match(s, u, hi, unit_at(5).tag) {
            assert(to_lower(s[u + 0]) == to_lower(unit_at(5).tag[0]));
            assert(false);
        }
    }
    assert(!tag_match(s, u, hi, unit_at(6).tag)) by {
        if tag_match(s, u, hi, unit_at(6).tag) {
            assert(to_lower(s[u + 0]) == to_lower(unit_at(6).tag[0]));
            assert(false);
        }
    }
    assert(!tag_match(s, u, hi, unit_at(7).tag)) by {
        if tag_match(s, u, hi, unit_at(7).tag) {
            assert(to_lower(s[u + 0]) == to_lower(unit_at(7).tag[0]));
            assert(false);
        }
    }
    assert(!tag_match(s, u, hi, unit_at(8).tag)) by {
        if tag_match(s, u, hi, unit_at(8).tag) {
            assert(to_lower(s[u + 0]) == to_lower(unit_at(8).tag[0]));
            assert(false);
        }
    }
    assert(!tag_match(s, u, hi, unit_at(9).tag)) by {
        if tag_match(s, u, hi, unit_at(9).tag) {
            assert(to_lower(s[u + 0]) == to_lower(unit_at(9).tag[0]));
            assert(false);
        }
    }
    assert(!tag_match(s, u, hi, unit_at(10).tag)) by {
        if tag_match(s, u, hi, unit_at(10).tag) {
            assert(to_lower(s[u + 0]) == to_lower(unit_at(10).tag[0]));
            assert(false);
        }
    }
    assert(!tag_match(s, u, hi, unit_at(11).tag)) by {
        if tag_match(s, u, hi, unit_at(11).tag) {
            assert(to_lower(s[u + 0]) == to_lower(unit_at(11).tag[0]));
            assert(false);
        }
    }
    assert(!tag_match(s, u, hi, unit_at(12).tag)) by {
        if tag_match(s, u, hi, unit_at(12).tag) {
            assert(to_lower(s[u + 0]) == to_lower(unit_at(12).tag[0]));
            assert(false);
        }
    }
    assert(!tag_match(s, u, hi, unit_at(13).tag)) by {
        if tag_match(s, u, hi, unit_at(13).tag) {
            assert(to_lower(s[u + 0]) == to_lower(unit_at(13).tag[0]));
            assert(false);
        }
    }
    assert(!tag_match(s, u, hi, unit_at(14).tag)) by {
        if tag_match(s, u, hi, unit_at(14).tag) {
            assert(to_lower(s[u + 0]) == to_lower(unit_at(14).tag[0]));
            assert(false);
        }
    }
    assert(!tag_match(s, u, hi, unit_at(15).tag)) by {
        if tag_match(s, u, hi, unit_at(15).tag) {
            assert(to_lower(s[u + 0]) == to_lower(unit_at(15).tag[0]));
            assert(false);
        }
    }
    assert(!tag_match(s, u, hi, unit_at(16).tag)) by {
        if tag_match(s, u, hi, unit_at(16).tag) {
            assert(to_lower(s[u + 0]) == to_lower(unit_at(16).tag[0]));
            assert(false);
        }
    }
    assert(!tag_match(s, u, hi, unit_at(17).tag)) by {
        if tag_match(s, u, hi, unit_at(17).tag) {
            assert(to_lower(s[u + 0]) == to_lower(unit_at(17).tag[0]));
            assert(false);
        }
    }
    assert(!tag_match(s, u, hi, unit_at(18).tag)) by {
        if tag_match(s, u, hi, unit_at(18).tag) {
            assert(to_lower(s[u + 0]) == to_lower(unit_at(18).tag[0]));
            assert(false);
        }
    }
    assert(!tag_match(s, u, hi, unit_at(19).tag)) by {
        if tag_match(s, u, hi, unit_at(19).tag) {
            assert(to_lower(s[u + 0]) == to_lower(unit_at(19).tag[0]));
            assert(false);
        }
    }
    assert(!tag_match(s, u, hi, unit_at(20).tag)) by {
        if tag_match(s, u, hi, unit_at(20).tag) {
            assert(to_lower(s[u + 0]) == to_lower(unit_at(20).tag[0]));
            assert(false);
        }
    }
    assert(!tag_match(s, u, hi, unit_at(21).tag)) by {
        if tag_match(s, u, hi, unit_at(21).tag) {
            assert(to_lower(s[u + 0]) == to_lower(unit_at(21).tag[0]));
            assert(false);
        }
    }
    assert(!tag_match(s, u, hi, unit_at(22).tag)) by {
        if tag_match(s, u, hi, unit_at(22).tag) {
            assert(to_lower(s[u + 0]) == to_lower(unit_at(22).tag[0]));
            assert(false);
        }
    }
    assert(!tag_match(s, u, hi, unit_at(23).tag)) by {
        if tag_match(s, u, hi, unit_at(23).tag) {
            assert(to_lower(s[u + 1]) == to_lower(unit_at(23).tag[1]));
            assert(false);
        }
    }
    assert(!tag_match(s, u, hi, unit_at(24).tag)) by {
        if tag_match(s, u, hi, unit_at(24).tag) {
            assert(to_lower(s[u + 1]) == to_lower(unit_at(24).tag[1]));
            assert(false);
        }
    }
    assert(!tag_match(s, u, hi, unit_at(25).tag)) by {
        if tag_match(s, u, hi, unit_at(25).tag) {
            assert(to_lower(s[u + 1]) == to_lower(unit_at(25).tag[1]));
            assert(false);
        }
    }
    assert(!tag_match(s, u, hi, unit_at(26).tag)) by {
        if tag_match(s, u, hi, unit_at(26).tag) {
            assert(to_lower(s[u + 1]) == to_lower(unit_at(26).tag[1]));
            assert(false);
        }
    }
    assert(match_unit_from(s, u, hi, 0) == match_unit_from(s, u, hi, 1));
    assert(match_unit_from(s, u, hi, 1) == match_unit_from(s, u, hi, 2));
    assert(match_unit_from(s, u, hi, 2) == match_unit_from(s, u, hi, 3));
    assert(match_unit_from(s, u, hi, 3) == match_unit_from(s, u, hi, 4));
    assert(match_unit_from(s, u, hi, 4) == match_unit_from(s, u, hi, 5));
    assert(match_unit_from(s, u, hi, 5) == match_unit_from(s, u, hi, 6));
    assert(match_unit_from(s, u, hi, 6) == match_unit_from(s, u, hi, 7));
    assert(match_unit_from(s, u, hi, 7) == match_unit_from(s, u, hi, 8));
    assert(match_unit_from(s, u, hi, 8) == match_unit_from(s, u, hi, 9));
    assert(match_unit_from(s, u, hi, 9) == match_unit_from(s, u, hi, 10));
    assert(match_unit_from(s, u, hi, 10) == match_unit_from(s, u, hi, 11));
    assert(match_unit_from(s, u, hi, 11) == match_unit_from(s, u, hi, 12));
    assert(match_unit_from(s, u, hi, 12) == match_unit_from(s, u, hi, 13));
    assert(match_unit_from(s, u, hi, 13) == match_unit_from(s, u, hi, 14));
    assert(match_unit_from(s, u, hi, 14) == match_unit_from(s, u, hi, 15));
    assert(match_unit_from(s, u, hi, 15) == match_unit_from(s, u, hi, 16));
    assert(match_unit_from(s, u, hi, 16) == match_unit_from(s, u, hi, 17));
    assert(match_unit_from(s, u, hi, 17) == match_unit_from(s, u, hi, 18));
    assert(match_unit_from(s, u, hi, 18) == match_unit_from(s, u, hi, 19));
    assert(match_unit_from(s, u, hi, 19) == match_unit_from(s, u, hi, 20));
    assert(match_unit_from(s, u, hi, 20) == match_unit_from(s, u, hi, 21));
    assert(match_unit_from(s, u, hi, 21) == match_unit_from(s, u, hi, 22));
    assert(match_unit_from(s, u, hi, 22) == match_unit_from(s, u, hi, 23));
    assert(match_unit_from(s, u, hi, 23) == match_unit_from(s, u, hi, 24));
    assert(match_unit_from(s, u, hi, 24) == match_unit_from(s, u, hi, 25));
    assert(match_unit_from(s, u, hi, 25) == match_unit_from(s, u, hi, 26));
    assert(match_unit_from(s, u, hi, 26) == match_unit_from(s, u, hi, 27));
    assert(match_unit_from(s, u, hi, 27) == Some((u + 1, unit_at(27))));
}

/// Looking up the rendered suffix `"d"` (followed by a space or
/// the end) finds its table entry.
#[verifier::rlimit(100)]
pub proof fn lemma_match_unit_d(s: Seq<char>, u: int, hi: int)
    requires
        0 <= u,
        u + 1 <= hi <= s.len(),
        s[u + 0] == 'd',
        u + 1 == hi || s[u + 1] == ' ',
    ensures
        match_unit(s, u, hi) matches Some(p) && p.0 == u + 1 && p.1 == unit_at(30),
{
    reveal_strlit("nanoseconds");
    reveal_strlit("nanosecond");
    reveal_strlit("nanos");
    reveal_strlit("ns");
    reveal_strlit("microseconds");
    reveal_strlit("microsecond");
    reveal_strlit("micros");
    reveal_strlit("us");
    reveal_strlit("\u{b5}s");
    reveal_strlit("milliseconds");
    reveal_strlit("millisecond");
    reveal_strlit("millis");
    reveal_strlit("ms");
    reveal_strlit("seconds");
    reveal_strlit("second");
    reveal_strlit("secs");
    reveal_strlit("sec");
    reveal_strlit("s");
    reveal_strlit("minutes");
    reveal_strlit("minute");
    reveal_strlit("mins");
    reveal_strlit("min");
    reveal_strlit("m");
    reveal_strlit("hours");
    reveal_strlit("hour");
    reveal_strlit("hrs");
    reveal_strlit("hr");
    reveal_strlit("h");
    reveal_strlit("days");
    reveal_strlit("day");
    reveal_strlit("d");
    reveal_strlit("weeks");
    reveal_strlit("week");
    reveal_strlit("w");
    reveal_strlit("years");
    reveal_strlit("year");
    reveal_strlit("yrs");
    reveal_strlit("yr");
    reveal_strlit("y");
    assert(tag_match(s, u, hi, unit_at(30).tag));
    assert(!tag_match(s, u, hi, unit_at(0).tag)) by {
        if tag_match(s, u, hi, unit_at(0).tag) {
            assert(to_lower(s[u + 0]) == to_lower(unit_at(0).tag[0]));
            assert(false);
        }
    }
    assert(!tag_match(s, u, hi, unit_at(1).tag)) by {
        if tag_match(s, u, hi, unit_at(1).tag) {
            assert(to_lower(s[u + 0]) == to_lower(unit_at(1).tag[0]));
            assert(false);
        }
    }
    assert(!tag_match(s, u, hi, unit_at(2).tag)) by {
        if tag_match(s, u, hi, unit_at(2).tag) {
            assert(to_lower(s[u + 0]) == to_lower(unit_at(2).tag[0]));
            assert(false);
        }
    }
    assert(!tag_match(s, u, hi, unit_at(3).tag)) by {
        if tag_match(s, u, hi, unit_at(3).tag) {
            assert(to_lower(s[u + 0]) == to_lower(unit_at(3).tag[0]));
            assert(false);
        }
    }
    assert(!tag_match(s, u, hi, unit_at(4).tag)) by {
        if tag_match(s, u, hi, unit_at(4).tag) {
            assert(to_lower(s[u + 0]) == to_lower(unit_at(4).tag[0]));
            assert(false);
        }
    }
    assert(!tag_match(s, u, hi, unit_at(5).tag)) by {
        if tag_match(s, u, hi, unit_at(5).tag) {
            assert(to_lower(s[u + 0]) == to_lower(unit_at(5).tag[0]));
            assert(false);
        }
    }
    assert(!tag_match(s, u, hi, unit_at(6).tag)) by {
        if tag_match(s, u, hi, unit_at(6).tag) {
            assert(to_lower(s[u + 0]) == to_lower(unit_at(6).tag[0]));
            assert(false);
        }
    }
    assert(!tag_match(s, u, hi, unit_at(7).tag)) by {
        if tag_match(s, u, hi, unit_at(7).tag) {
            assert(to_lower(s[u + 0]) == to_lower(unit_at(7).tag[0]));
            assert(false);
        }
    }
    assert(!tag_match(s, u, hi, unit_at(8).tag)) by {
        if tag_match(s, u, hi, unit_at(8).tag) {
            assert(to_lower(s[u + 0]) == to_lower(unit_at(8).tag[0]));
            assert(false);
        }
    }
    assert(!tag_match(s, u, hi, unit_at(9).tag)) by {
        if tag_match(s, u, hi, unit_at(9).tag) {
            assert(to_lower(s[u + 0]) == to_lower(unit_at(9).tag[0]));
            assert(false);
        }
    }
    assert(!tag_match(s, u, hi, unit_at(10).tag)) by {
        if tag_match(s, u, hi, unit_at(10).tag) {
            assert(to_lower(s[u + 0]) == to_lower(unit_at(10).tag[0]));
            assert(false);
        }
    }
    assert(!tag_match(s, u, hi, unit_at(11).tag)) by {
        if tag_match(s, u, hi, unit_at(11).tag) {
            assert(to_lower(s[u + 0]) == to_lower(unit_at(11).tag[0]));
            assert(false);
        }
    }
    assert(!tag_match(s, u, hi, unit_at(12).tag)) by {
        if tag_match(s, u, hi, unit_at(12).tag) {
            assert(to_lower(s[u + 0]) == to_lower(unit_at(12).tag[0]));
            assert(false);
        }
    }
    assert(!tag_match(s, u, hi, unit_at(13).tag)) by {
        if tag_match(s, u, hi, unit_at(13).tag) {
            assert(to_lower(s[u + 0]) == to_lower(unit_at(13).tag[0]));
            assert(false);
        }
    }
    assert(!tag_match(s, u, hi, unit_at(14).tag)) by {
        if tag_match(s, u, hi, unit_at(14).tag) {
            assert(to_lower(s[u + 0]) == to_lower(unit_at(14).tag[0]));
            assert(false);
        }
    }
    assert(!tag_match(s, u, hi, unit_at(15).tag)) by {
        if tag_match(s, u, hi, unit_at(15).tag) {
            assert(to_lower(s[u + 0]) == to_lower(unit_at(15).tag[0]));
            assert(false);
        }
    }
    assert(!tag_match(s, u, hi, unit_at(16).tag)) by {
        if tag_match(s, u, hi, unit_at(16).tag) {
            assert(to_lower(s[u + 0]) == to_lower(unit_at(16).tag[0]));
            assert(false);
        }
    }
    assert(!tag_match(s, u, hi, unit_at(17).tag)) by {
        if tag_match(s, u, hi, unit_at(17).tag) {
            assert(to_lower(s[u + 0]) == to_lower(unit_at(17).tag[0]));
            assert(false);
        }
    }
    assert(!tag_match(s, u, hi, unit_at(18).tag)) by {
        if tag_match(s, u, hi, unit_at(18).tag) {
            assert(to_lower(s[u + 0]) == to_lower(unit_at(18).tag[0]));
            assert(false);
        }
    }
    assert(!tag_match(s, u, hi, unit_at(19).tag)) by {
        if tag_match(s, u, hi, unit_at(19).tag) {
            assert(to_lower(s[u + 0]) == to_lower(unit_at(19).tag[0]));
            assert(false);
        }
    }
    assert(!tag_match(s, u, hi, unit_at(20).tag)) by {
        if tag_match(s, u, hi, unit_at(20).tag) {
            assert(to_lower(s[u + 0]) == to_lower(unit_at(20).tag[0]));
            assert(false);
        }
    }
    assert(!tag_match(s, u, hi, unit_at(21).tag)) by {
        if tag_match(s, u, hi, unit_at(21).tag) {
            assert(to_lower(s[u + 0]) == to_lower(unit_at(21).tag[0]));
            assert(false);
        }
    }
    assert(!tag_match(s, u, hi, unit_at(22).tag)) by {
        if tag_match(s, u, hi, unit_at(22).tag) {
            assert(to_lower(s[u + 0]) == to_lower(unit_at(22).tag[0]));
            assert(false);
        }
    }
    assert(!tag_match(s, u, hi, unit_at(23).tag)) by {
        if tag_match(s, u, hi, unit_at(23).tag) {
            assert(to_lower(s[u + 0]) == to_lower(unit_at(23).tag[0]));
            assert(false);
        }
    }
    assert(!tag_match(s, u, hi, unit_at(24).tag)) by {
        if tag_match(s, u, hi, unit_at(24).tag) {
            assert(to_lower(s[u + 0]) == to_lower(unit_at(24).tag[0]));
            assert(false);
        }
    }
    assert(!tag_match(s, u, hi, unit_at(25).tag)) by {
        if tag_match(s, u, hi, unit_at(25).tag) {
            assert(to_lower(s[u + 0]) == to_lower(unit_at(25).tag[0]));
            assert(false);
        }
    }
    assert(!tag_match(s, u, hi, unit_at(26).tag)) by {
        if tag_match(s, u, hi, unit_at(26).tag) {
            assert(to_lower(s[u + 0]) == to_lower(unit_at(26).tag[0]));
            assert(false);
        }
    }
    assert(!tag_match(s, u, hi, unit_at(27).tag)) by {
        if tag_match(s, u, hi, unit_at(27).tag) {
            assert(to_lower(s[u + 0]) == to_lower(unit_at(27).tag[0]));
            assert(false);
        }
    }
    assert(!tag_match(s, u, hi, unit_at(28).tag)) by {
        if tag_match(s, u, hi, unit_at(28).tag) {
            assert(to_lower(s[u + 1]) == to_lower(unit_at(28).tag[1]));
            assert(false);
        }
    }
    assert(!tag_match(s, u, hi, unit_at(29).tag)) by {
        if tag_match(s, u, hi, unit_at(29).tag) {
            assert(to_lower(s[u + 1]) == to_lower(unit_at(29).tag[1]));
            assert(false);
        }
    }
    assert(match_unit_from(s, u, hi, 0) == match_unit_from(s, u, hi, 1));
    assert(match_unit_from(s, u, hi, 1) == match_unit_from(s, u, hi, 2));
    assert(match_unit_from(s, u, hi, 2) == match_unit_from(s, u, hi, 3));
    assert(match_unit_from(s, u, hi, 3) == match_unit_from(s, u, hi, 4));
    assert(match_unit_from(s, u, hi, 4) == match_unit_from(s, u, hi, 5));
    assert(match_unit_from(s, u, hi, 5) == match_unit_from(s, u, hi, 6));
    assert(match_unit_from(s, u, hi, 6) == match_unit_from(s, u, hi, 7));
    assert(match_unit_from(s, u, hi, 7) == match_unit_from(s, u, hi, 8));
    assert(match_unit_from(s, u, hi, 8) == match_unit_from(s, u, hi, 9));
    assert(match_unit_from(s, u, hi, 9) == match_unit_from(s, u, hi, 10));
    assert(match_unit_from(s, u, hi, 10) == match_unit_from(s, u, hi, 11));
    assert(match_unit_from(s, u, hi, 11) == match_unit_from(s, u, hi, 12));
    assert(match_unit_from(s, u, hi, 12) == match_unit_from(s, u, hi, 13));
    assert(match_unit_from(s, u, hi, 13) == match_unit_from(s, u, hi, 14));
    assert(match_unit_from(s, u, hi, 14) == match_unit_from(s, u, hi, 15));
    assert(match_unit_from(s, u, hi, 15) == match_unit_from(s, u, hi, 16));
    assert(match_unit_from(s, u, hi, 16) == match_unit_from(s, u, hi, 17));
    assert(match_unit_from(s, u, hi, 17) == match_unit_from(s, u, hi, 18));
    assert(match_unit_from(s, u, hi, 18) == match_unit_from(s, u, hi, 19));
    assert(match_unit_from(s, u, hi, 19) == match_unit_from(s, u, hi, 20));
    assert(match_unit_from(s, u, hi, 20) == match_unit_from(s, u, hi, 21));
    assert(match_unit_from(s, u, hi, 21) == match_unit_from(s, u, hi, 22));
    assert(match_unit_from(s, u, hi, 22) == match_unit_from(s, u, hi, 23));
    assert(match_unit_from(s, u, hi, 23) == match_unit_from(s, u, hi, 24));
    assert(match_unit_from(s, u, hi, 24) == match_unit_from(s, u, hi, 25));
    assert(match_unit_from(s, u, hi, 25) == match_unit_from(s, u, hi, 26));
    assert(match_unit_from(s, u, hi, 26) == match_unit_from(s, u, hi, 27));
    assert(match_unit_from(s, u, hi, 27) == match_unit_from(s, u, hi, 28));
    assert(match_unit_from(s, u, hi, 28) == match_unit_from(s, u, hi, 29));
    assert(match_unit_from(s, u, hi, 29) == match_unit_from(s, u, hi, 30));
    assert(match_unit_from(s, u, hi, 30) == Some((u + 1, unit_at(30))));
}

/// Looking up the rendered suffix `"yr"` (followed by a space or
/// the end) finds its table entry.
#[verifier::rlimit(100)]
pub proof fn lemma_match_unit_yr(s: Seq<char>, u: int, hi: int)
    requires
        0 <= u,
        u + 2 <= hi <= s.len(),
        s[u + 0] == 'y',
        s[u + 1] == 'r',
        u + 2 == hi || s[u + 2] == ' ',
    ensures
        match_unit(s, u, hi) matches Some(p) && p.0 == u + 2 && p.1 == unit_at(37),
{
    reveal_strlit("nanoseconds");
    reveal_strlit("nanosecond");
    reveal_strlit("nanos");
    reveal_strlit("ns");
    reveal_strlit("microseconds");
    reveal_strlit("microsecond");
    reveal_strlit("micros");
    reveal_strlit("us");
    reveal_strlit("\u{b5}s");
    reveal_strlit("milliseconds");
    reveal_strlit("millisecond");
    reveal_strlit("millis");
    reveal_strlit("ms");
    reveal_strlit("seconds");
    reveal_strlit("second");
    reveal_strlit("secs");
    reveal_strlit("sec");
    reveal_strlit("s");
    reveal_strlit("minutes");
    reveal_strlit("minute");
    reveal_strlit("mins");
    reveal_strlit("min");
    reveal_strlit("m");
    reveal_strlit("hours");
    reveal_strlit("hour");
    reveal_strlit("hrs");
    reveal_strlit("hr");
    reveal_strlit("h");
    reveal_strlit("days");
    reveal_strlit("day");
    reveal_strlit("d");
    reveal_strlit("weeks");
    reveal_strlit("week");
    reveal_strlit("w");
    reveal_strlit("years");
    reveal_strlit("year");
    reveal_strlit("yrs");
    reveal_strlit("yr");
    reveal_strlit("y");
    assert(tag_match(s, u, hi, unit_at(37).tag));
    assert(!tag_match(s, u, hi, unit_at(0).tag)) by {
        if tag_match(s, u, hi, unit_at(0).tag) {
            assert(to_lower(s[u + 0]) == to_lower(unit_at(0).tag[0]));
            assert(false);
        }
    }
    assert(!tag_match(s, u, hi, unit_at(1).tag)) by {
        if tag_match(s, u, hi, unit_at(1).tag) {
            assert(to_lower(s[u + 0]) == to_lower(unit_at(1).tag[0]));
            assert(false);
        }
    }
    assert(!tag_match(s, u, hi, unit_at(2).tag)) by {
        if tag_match(s, u, hi, unit_at(2).tag) {
            assert(to_lower(s[u + 0]) == to_lower(unit_at(2).tag[0]));
            assert(false);
        }
    }
    assert(!tag_match(s, u, hi, unit_at(3).tag)) by {
        if tag_match(s, u, hi, unit_at(3).tag) {
            assert(to_lower(s[u + 0]) == to_lower(unit_at(3).tag[0]));
            assert(false);
        }
    }
    assert(!tag_match(s, u, hi, unit_at(4).tag)) by {
        if tag_match(s, u, hi, unit_at(4).tag) {
            assert(to_lower(s[u + 0]) == to_lower(unit_at(4).tag[0]));
            assert(false);
        }
    }
    assert(!tag_match(s, u, hi, unit_at(5).tag)) by {
        if tag_match(s, u, hi, unit_at(5).tag) {
            assert(to_lower(s[u + 0]) == to_lower(unit_at(5).tag[0]));
            assert(false);
        }
    }
    assert(!tag_match(s, u, hi, unit_at(6).tag)) by {
        if tag_match(s, u, hi, unit_at(6).tag) {
            assert(to_lower(s[u + 0]) == to_lower(unit_at(6).tag[0]));
            assert(false);
        }
    }
    assert(!tag_match(s, u, hi, unit_at(7).tag)) by {
        if tag_match(s, u, hi, unit_at(7).tag) {
            assert(to_lower(s[u + 0]) == to_lower(unit_at(7).tag[0]));
            assert(false);
        }
    }
    assert(!tag_match(s, u, hi, unit_at(8).tag)) by {
        if tag_match(s, u, hi, unit_at(8).tag) {
            assert(to_lower(s[u + 0]) == to_lower(unit_at(8).tag[0]));
            assert(false);
        }
    }
    assert(!tag_match(s, u, hi, unit_at(9).tag)) by {
        if tag_match(s, u, hi, unit_at(9).tag) {
            assert(to_lower(s[u + 0]) == to_lower(unit_at(9).tag[0]));
            assert(false);
        }
    }
    assert(!tag_match(s, u, hi, unit_at(10).tag)) by {
        if tag_match(s, u, hi, unit_at(10).tag) {
            assert(to_lower(s[u + 0]) == to_lower(unit_at(10).tag[0]));
            assert(false);
        }
    }
    assert(!tag_match(s, u, hi, unit_at(11).tag)) by {
        if tag_match(s, u, hi, unit_at(11).tag) {
            assert(to_lower(s[u + 0]) == to_lower(unit_at(11).tag[0]));
            assert(false);
        }
    }
    assert(!tag_match(s, u, hi, unit_at(12).tag)) by {
        if tag_match(s, u, hi, unit_at(12).tag) {
            assert(to_lower(s[u + 0]) == to_lower(unit_at(12).tag[0]));
            assert(false);
        }
    }
    assert(!tag_match(s, u, hi, unit_at(13).tag)) by {
        if tag_match(s, u, hi, unit_at(13).tag) {
            assert(to_lower(s[u + 0]) == to_lower(unit_at(13).tag[0]));
            assert(false);
        }
    }
    assert(!tag_match(s, u, hi, unit_at(14).tag)) by {
        if tag_match(s, u, hi, unit_at(14).tag) {
            assert(to_lower(s[u + 0]) == to_lower(unit_at(14).tag[0]));
            assert(false);
        }
    }
    assert(!tag_match(s, u, hi, unit_at(15).tag)) by {
        if tag_match(s, u, hi, unit_at(15).tag) {
            assert(to_lower(s[u + 0]) == to_lower(unit_at(15).tag[0]));
            assert(false);
        }
    }
    assert(!tag_match(s, u, hi, unit_at(16).tag)) by {
        if tag_match(s, u, hi, unit_at(16).tag) {
            assert(to_lower(s[u + 0]) == to_lower(unit_at(16).tag[0]));
            assert(false);
        }
    }
    assert(!tag_match(s, u, hi, unit_at(17).tag)) by {
        if tag_match(s, u, hi, unit_at(17).tag) {
            assert(to_lower(s[u + 0]) == to_lower(unit_at(17).tag[0]));
            assert(false);
        }
    }
    assert(!tag_match(s, u, hi, unit_at(18).tag)) by {
        if tag_match(s, u, hi, unit_at(18).tag) {
            assert(to_lower(s[u + 0]) == to_lower(unit_at(18).tag[0]));
            assert(false);
        }
    }
    assert(!tag_match(s, u, hi, unit_at(19).tag)) by {
        if tag_match(s, u, hi, unit_at(19).tag) {
            assert(to_lower(s[u + 0]) == to_lower(unit_at(19).tag[0]));
            assert(false);
        }
    }
    assert(!tag_match(s, u, hi, unit_at(20).tag)) by {
        if tag_match(s, u, hi, unit_at(20).tag) {
            assert(to_lower(s[u + 0]) == to_lower(unit_at(20).tag[0]));
            assert(false);
        }
    }
    assert(!tag_match(s, u, hi, unit_at(21).tag)) by {
        if tag_match(s, u, hi, unit_at(21).tag) {
            assert(to_lower(s[u + 0]) == to_lower(unit_at(21).tag[0]));
            assert(false);
        }
    }
    assert(!tag_match(s, u, hi, unit_at(22).tag)) by {
        if tag_match(s, u, hi, unit_at(22).tag) {
            assert(to_lower(s[u + 0]) == to_lower(unit_at(22).tag[0]));
            assert(false);
        }
    }
    assert(!tag_match(s, u, hi, unit_at(23).tag)) by {
        if tag_match(s, u, hi, unit_at(23).tag) {
            assert(to_lower(s[u + 0]) == to_lower(unit_at(23).tag[0]));
            assert(false);
        }
    }
    assert(!tag_match(s, u, hi, unit_at(24).tag)) by {
        if tag_match(s, u, hi, unit_at(24).tag) {
            assert(to_lower(s[u + 0]) == to_lower(unit_at(24).tag[0]));
            assert(false);
        }
    }
    assert(!tag_match(s, u, hi, unit_at(25).tag)) by {
        if tag_match(s, u, hi, unit_at(25).tag) {
            assert(to_lower(s[u + 0]) == to_lower(unit_at(25).tag[0]));
            assert(false);
        }
    }
    assert(!tag_match(s, u, hi, unit_at(26).tag)) by {
        if tag_match(s, u, hi, unit_at(26).tag) {
            assert(to_lower(s[u + 0]) == to_lower(unit_at(26).tag[0]));
            assert(false);
        }
    }
    assert(!tag_match(s, u, hi, unit_at(27).tag)) by {
        if tag_match(s, u, hi, unit_at(27).tag) {
            assert(to_lower(s[u + 0]) == to_lower(unit_at(27).tag[0]));
            assert(false);
        }
    }
    assert(!tag_match(s, u, hi, unit_at(28).tag)) by {
        if tag_match(s, u, hi, unit_at(28).tag) {
            assert(to_lower(s[u + 0]) == to_lower(unit_at(28).tag[0]));
            assert(false);
        }
    }
    assert(!tag_match(s, u, hi, unit_at(29).tag)) by {
        if tag_match(s, u, hi, unit_at(29).tag) {
            assert(to_lower(s[u + 0]) == to_lower(unit_at(29).tag[0]));
            assert(false);
        }
    }
    assert(!tag_match(s, u, hi, unit_at(30).tag)) by {
        if tag_match(s, u, hi, unit_at(30).tag) {
            assert(to_lower(s[u + 0]) == to_lower(unit_at(30).tag[0]));
            assert(false);
        }
    }
    assert(!tag_match(s, u, hi, unit_at(31).tag)) by {
        if tag_match(s, u, hi, unit_at(31).tag) {
            assert(to_lower(s[u + 0]) == to_lower(unit_at(31).tag[0]));
            assert(false);
        }
    }
    assert(!tag_match(s, u, hi, unit_at(32).tag)) by {
        if tag_match(s, u, hi, unit_at(32).tag) {
            assert(to_lower(s[u + 0]) == to_lower(unit_at(32).tag[0]));
            assert(false);
        }
    }
    assert(!tag_match(s, u, hi, unit_at(33).tag)) by {
        if tag_match(s, u, hi, unit_at(33).tag) {
            assert(to_lower(s[u + 0]) == to_lower(unit_at(33).tag[0]));
            assert(false);
        }
    }
    assert(!tag_match(s, u, hi, unit_at(34).tag)) by {
        if tag_match(s, u, hi, unit_at(34).tag) {
            assert(to_lower(s[u + 1]) == to_lower(unit_at(34).tag[1]));
            assert(false);
        }
    }
    assert(!tag_match(s, u, hi, unit_at(35).tag)) by {
        if tag_match(s, u, hi, unit_at(35).tag) {
            assert(to_lower(s[u + 1]) == to_lower(unit_at(35).tag[1]));
            assert(false);
        }
    }
    assert(!tag_match(s, u, hi, unit_at(36).tag)) by {
        if tag_match(s, u, hi, unit_at(36).tag) {
            assert(to_lower(s[u + 2]) == to_lower(unit_at(36).tag[2]));
            assert(false);
        }
    }
    assert(match_unit_from(s, u, hi, 0) == match_unit_from(s, u, hi, 1));
    assert(match_unit_from(s, u, hi, 1) == match_unit_from(s, u, hi, 2));
    assert(match_unit_from(s, u, hi, 2) == match_unit_from(s, u, hi, 3));
    assert(match_unit_from(s, u, hi, 3) == match_unit_from(s, u, hi, 4));
    assert(match_unit_from(s, u, hi, 4) == match_unit_from(s, u, hi, 5));
    assert(match_unit_from(s, u, hi, 5) == match_unit_from(s, u, hi, 6));
    assert(match_unit_from(s, u, hi, 6) == match_unit_from(s, u, hi, 7));
    assert(match_unit_from(s, u, hi, 7) == match_unit_from(s, u, hi, 8));
    assert(match_unit_from(s, u, hi, 8) == match_unit_from(s, u, hi, 9));
    assert(match_unit_from(s, u, hi, 9) == match_unit_from(s, u, hi, 10));
    assert(match_unit_from(s, u, hi, 10) == match_unit_from(s, u, hi, 11));
    assert(match_unit_from(s, u, hi, 11) == match_unit_from(s, u, hi, 12));
    assert(match_unit_from(s, u, hi, 12) == match_unit_from(s, u, hi, 13));
    assert(match_unit_from(s, u, hi, 13) == match_unit_from(s, u, hi, 14));
    assert(match_unit_from(s, u, hi, 14) == match_unit_from(s, u, hi, 15));
    assert(match_unit_from(s, u, hi, 15) == match_unit_from(s, u, hi, 16));
    assert(match_unit_from(s, u, hi, 16) == match_unit_from(s, u, hi, 17));
    assert(match_unit_from(s, u, hi, 17) == match_unit_from(s, u, hi, 18));
    assert(match_unit_from(s, u, hi, 18) == match_unit_from(s, u, hi, 19));
    assert(match_unit_from(s, u, hi, 19) == match_unit_from(s, u, hi, 20));
    assert(match_unit_from(s, u, hi, 20) == match_unit_from(s, u, hi, 21));
    assert(match_unit_from(s, u, hi, 21) == match_unit_from(s, u, hi, 22));
    assert(match_unit_from(s, u, hi, 22) == match_unit_from(s, u, hi, 23));
    assert(match_unit_from(s, u, hi, 23) == match_unit_from(s, u, hi, 24));
    assert(match_unit_from(s, u, hi, 24) == match_unit_from(s, u, hi, 25));
    assert(match_unit_from(s, u, hi, 25) == match_unit_from(s, u, hi, 26));
    assert(match_unit_from(s, u, hi, 26) == match_unit_from(s, u, hi, 27));
    assert(match_unit_from(s, u, hi, 27) == match_unit_from(s, u, hi, 28));
    assert(match_unit_from(s, u, hi, 28) == match_unit_from(s, u, hi, 29));
    assert(match_unit_from(s, u, hi, 29) == match_unit_from(s, u, hi, 30));
    assert(match_unit_from(s, u, hi, 30) == match_unit_from(s, u, hi, 31));
    assert(match_unit_from(s, u, hi, 31) == match_unit_from(s, u, hi, 32));
    assert(match_unit_from(s, u, hi, 32) == match_unit_from(s, u, hi, 33));
    assert(match_unit_from(s, u, hi, 33) == match_unit_from(s, u, hi, 34));
    assert(match_unit_from(s, u, hi, 34) == match_unit_from(s, u, hi, 35));
    assert(match_unit_from(s, u, hi, 35) == match_unit_from(s, u, hi, 36));
    assert(match_unit_from(s, u, hi, 36) == match_unit_from(s, u, hi, 37));
    assert(match_unit_from(s, u, hi, 37) == Some((u + 2, unit_at(37))));
}

} // verus!
