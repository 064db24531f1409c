use std::time::Duration as StdDuration;

use human_duration::format_human;
use human_duration::parse;
use human_duration::Decimal;
use human_duration::Duration;
use human_duration::Error;
use human_duration::FormatStyle;

#[test]
fn exact_round_trip() {
    let values: [u128; 20] = [
        0,
        1,
        999,
        1_000,
        1_240,
        999_999,
        1_000_000,
        4_200_000,
        999_999_999,
        1_000_000_000,
        1_550_000_000,
        59_999_999_999,
        60_000_000_000,
        363_000_000_000,
        3_600_000_000_000,
        3_661_000_000_001,
        86_400_000_000_000,
        31_557_600_000_000_000,
        u64::MAX as u128,
        u128::MAX,
    ];
    for n in values {
        let d = Duration::from_nanos(n);
        let text = d.format_exact().to_string();
        assert_eq!(parse(&text), Ok(d), "round trip failed through {text:?}");
    }
}

#[test]
fn empty_and_blank_are_invalid() {
    assert_eq!(parse(""), Err(Error::InvalidDuration));
    assert_eq!(parse("   "), Err(Error::InvalidDuration));
}

#[test]
fn unknown_unit_names_the_token() {
    match parse("5xyz") {
        Err(Error::InvalidUnit(t)) => assert_eq!(&t, "xyz"),
        other => panic!("expected an invalid-unit error, got {other:?}"),
    }
    // Text that is no component at all, after a valid one, is an
    // invalid duration rather than an invalid unit.
    assert_eq!(parse("5mins extra"), Err(Error::InvalidDuration));
    match parse("5minsx") {
        Err(Error::InvalidUnit(t)) => assert_eq!(&t, "minsx"),
        other => panic!("expected an invalid-unit error, got {other:?}"),
    }
}

#[test]
fn negative_is_rejected() {
    let expected = Decimal {
        neg: true,
        mantissa: 5,
        scale: 0,
    };
    assert_eq!(parse("-5s"), Err(Error::IsNegative(expected)));
    assert_eq!(parse("-5"), Err(Error::IsNegative(expected)));
}

#[test]
fn missing_unit_after_second_number() {
    assert_eq!(parse("5s 5"), Err(Error::MissingUnit));
}

#[test]
fn oversized_literal_is_too_big() {
    assert_eq!(
        parse("99999999999999999999999999999999999999s"),
        Err(Error::ValueTooBig)
    );
    assert_eq!(
        parse("99999999999999999999999999999999999999"),
        Err(Error::ValueTooBig)
    );
}

#[test]
fn accumulation_overflow_is_too_big() {
    // Two components whose sum exceeds the nanosecond range.
    assert_eq!(
        parse("10000000000000000000000yr 10000000000000000000000yr"),
        Err(Error::ValueTooBig)
    );
}

#[test]
fn second_aliases_share_one_multiplier() {
    let one_second = Duration::from_nanos(1_000_000_000);
    for text in ["1S", "1sec", "1secs", "1second", "1seconds", "1 s"] {
        assert_eq!(parse(text), Ok(one_second), "for input {text:?}");
    }
}

#[test]
fn unit_lookup_is_case_insensitive() {
    for (lower, mixed) in [
        ("1ns", "1NS"),
        ("2us", "2Us"),
        ("3ms", "3mS"),
        ("4minutes", "4MINUTES"),
        ("5h", "5H"),
        ("6days", "6dAyS"),
        ("7yr", "7YR"),
    ] {
        assert_eq!(parse(lower), parse(mixed));
    }
}

#[test]
fn repeated_components_accumulate() {
    assert_eq!(parse("1s1s1s"), Ok(Duration::from_nanos(3_000_000_000)));
}

#[test]
fn bare_number_is_milliseconds() {
    assert_eq!(parse("42"), Ok(Duration::from_nanos(42_000_000)));
    assert_eq!(parse("0.5"), Ok(Duration::from_nanos(500_000)));
    assert_eq!(parse("5."), Ok(Duration::from_nanos(5_000_000)));
    assert_eq!(parse(".5"), Ok(Duration::from_nanos(500_000)));
}

#[test]
fn comma_separators_are_accepted() {
    assert_eq!(
        parse("1m, 30s"),
        Ok(Duration::from_nanos(90_000_000_000))
    );
}

#[test]
fn fractional_nanoseconds_truncate() {
    assert_eq!(parse("0.5ns"), Ok(Duration::from_nanos(0)));
    assert_eq!(parse("2.5ns"), Ok(Duration::from_nanos(2)));
}

#[test]
fn human_precision_truncates_not_rounds() {
    let d = parse("1.238s").unwrap();
    assert_eq!(format_human(d, FormatStyle::Compact, 2), "1.23s");
    assert_eq!(format_human(d, FormatStyle::Compact, 1), "1.2s");
    assert_eq!(format_human(d, FormatStyle::Compact, 0), "1s");
    assert_eq!(format_human(d, FormatStyle::Compact, 9), "1.238s");
}

#[test]
fn spelled_singular_needs_exact_one() {
    assert_eq!(
        format_human(Duration::from_nanos(1_000_000_000), FormatStyle::Spelled, 2),
        "1 second"
    );
    // Truncation may leave a bare 1, but the count was not exactly one.
    assert_eq!(
        format_human(Duration::from_nanos(1_005_000_000), FormatStyle::Spelled, 2),
        "1 seconds"
    );
}

#[test]
fn to_std_saturates_at_max() {
    assert_eq!(Duration::from_nanos(u128::MAX).to_std(), StdDuration::MAX);
    let exact = 1_000_000_000_000_000_000_000u128;
    assert_eq!(
        Duration::from_nanos(exact).to_std(),
        StdDuration::new(1_000_000_000_000, 0)
    );
}

#[test]
fn try_to_std_steps_down_to_millis() {
    let n = u64::MAX as u128 + 1_000_000;
    let s = Duration::from_nanos(n).try_to_std().unwrap();
    assert_eq!(s.as_nanos(), (n / 1_000_000) * 1_000_000);
    assert!(Duration::from_nanos(u128::MAX).try_to_std().is_none());
}

#[test]
fn error_messages_name_their_cause() {
    assert_eq!(parse("").unwrap_err().message(), "invalid duration");
    assert_eq!(
        parse("5xyz").unwrap_err().message(),
        "invalid duration unit `xyz`"
    );
    assert_eq!(
        parse("-5.50s").unwrap_err().message(),
        "durations cannot be negative (-5.50)"
    );
}

#[test]
fn parse_std_parses_and_converts() {
    assert_eq!(
        human_duration::parse_std("1m 30s"),
        Ok(StdDuration::from_secs(90))
    );
    assert_eq!(
        human_duration::parse_std("oops"),
        Err(Error::InvalidDuration)
    );
}

#[test]
fn pretty_keeps_nanoseconds() {
    let d = human_duration::pretty(StdDuration::from_micros(1_500));
    assert_eq!(d.as_nanos(), 1_500_000);
    assert_eq!(d.to_string(), "1.5ms");
}

#[test]
fn arithmetic_methods_follow_the_nanosecond_field() {
    let a = Duration::from_secs(90);
    let b = Duration::from_secs(30);
    assert_eq!(a.add(b), Duration::from_secs(120));
    assert_eq!(a.sub(b), Duration::from_secs(60));
    assert_eq!(b.mul(4), Duration::from_secs(120));
    assert_eq!(a.div(3), Duration::from_secs(30));
    assert_eq!(a.rem(60_000_000_000), Duration::from_secs(30));
    assert!(Duration::from_nanos(0).is_zero());
    assert!(!a.is_zero());
}

#[test]
fn micro_aliases_and_decimal_accessors() {
    assert_eq!(parse("1\u{b5}s"), Ok(Duration::from_nanos(1_000)));
    let d = Duration::from_nanos(1_500);
    assert_eq!(
        d.as_micros_dec(),
        Decimal {
            neg: false,
            mantissa: 1_500,
            scale: 3
        }
    );
    assert_eq!(d.as_micros_dec().to_string(), "1.500");
    assert_eq!(d.as_micros(), 1);
}
