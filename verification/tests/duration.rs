use pqueue::duration::{
    parse_duration, parse_number, parse_seconds, parse_unit, pieces, seconds_of_pieces,
    separate_numbers, split_with, DigitEdge, DurationError, WordEdge,
};
use std::time::Duration;

#[test]
fn test_separate_numbers() {
    assert_eq!(
        separate_numbers("10aa20bb30cc"),
        vec!["10", "aa", "20", "bb", "30", "cc"]
    );
    assert_eq!(
        separate_numbers("a1b2c3"),
        vec!["a", "1", "b", "2", "c", "3"]
    );
    assert_eq!(separate_numbers("10"), vec!["10"]);
    assert_eq!(separate_numbers("aa"), vec!["aa"]);
    assert_eq!(separate_numbers(""), vec![] as Vec<&str>);
}

#[test]
fn test_duration() {
    assert_eq!(parse_duration("10s").unwrap(), Duration::from_secs(10));
    assert_eq!(parse_duration("10 s").unwrap(), Duration::from_secs(10));
    assert_eq!(
        parse_duration("10 s 1 hour").unwrap(),
        Duration::from_secs(10 + 60 * 60)
    );
    assert_eq!(
        parse_duration("30min").unwrap(),
        Duration::from_secs(60 * 30)
    );
    assert!(parse_duration("10").is_err(),);
}

#[test]
fn every_unit_counts() {
    for unit in ["s", "sec", "secs", "second", "seconds"] {
        assert_eq!(parse_seconds(&format!("7{}", unit)), Ok(7));
        assert_eq!(parse_unit(unit), Some(1));
    }
    for unit in ["m", "min", "mins", "minute", "minutes"] {
        assert_eq!(parse_seconds(&format!("7 {}", unit)), Ok(420));
        assert_eq!(parse_unit(unit), Some(60));
    }
    for unit in ["h", "hour", "hours"] {
        assert_eq!(parse_seconds(&format!("2{}", unit)), Ok(7200));
        assert_eq!(parse_unit(unit), Some(3600));
    }
    assert_eq!(parse_unit("d"), None);
    assert_eq!(parse_unit("S"), None);
    assert_eq!(parse_unit(""), None);
}

#[test]
fn durations_are_summed() {
    assert_eq!(parse_seconds("1h30m15s"), Ok(3600 + 1800 + 15));
    assert_eq!(parse_seconds("  1 hour\t2 mins \n 3 seconds "), Ok(3723));
    assert_eq!(parse_seconds("1s 1s 1s"), Ok(3));
    assert_eq!(parse_seconds(""), Ok(0));
    assert_eq!(parse_seconds("   "), Ok(0));
    assert_eq!(parse_seconds("007s"), Ok(7));
    assert_eq!(parse_seconds("10\u{a0}s"), Ok(10));
    assert_eq!(parse_duration("2h").unwrap(), Duration::from_secs(7200));
    assert_eq!(parse_duration("").unwrap(), Duration::new(0, 0));
}

#[test]
fn duration_errors() {
    assert_eq!(parse_seconds("10"), Err(DurationError::UnitExpected));
    assert_eq!(parse_seconds("10 s 5"), Err(DurationError::UnitExpected));
    assert_eq!(parse_seconds("10 x"), Err(DurationError::UnitExpected));
    assert_eq!(parse_seconds("10 5"), Err(DurationError::UnitExpected));
    assert_eq!(parse_seconds("s"), Err(DurationError::InvalidNumber));
    assert_eq!(parse_seconds("10s s"), Err(DurationError::InvalidNumber));
    assert_eq!(parse_seconds("-1s"), Err(DurationError::InvalidNumber));
    assert_eq!(
        parse_seconds("18446744073709551616s"),
        Err(DurationError::NumberTooLarge)
    );
    assert_eq!(
        parse_seconds("18446744073709551615s"),
        Ok(18446744073709551615)
    );
    assert_eq!(
        parse_seconds("18446744073709551615s 1s"),
        Err(DurationError::TooLong)
    );
    assert_eq!(
        parse_seconds("18446744073709551615m"),
        Err(DurationError::TooLong)
    );
    assert_eq!(
        parse_duration("x").unwrap_err(),
        DurationError::InvalidNumber
    );
    assert_eq!(DurationError::UnitExpected.message(), "unit expected");
    assert_eq!(
        DurationError::InvalidNumber.message(),
        "invalid digit found in string"
    );
    assert_eq!(
        DurationError::NumberTooLarge.message(),
        "number too large to fit in target type"
    );
    assert_eq!(DurationError::TooLong.message(), "duration too long");
}

#[test]
fn numbers_are_read_digit_by_digit() {
    assert_eq!(parse_number("0"), Ok(0));
    assert_eq!(parse_number("1234567890"), Ok(1234567890));
    assert_eq!(parse_number(""), Err(DurationError::InvalidNumber));
    assert_eq!(parse_number("+1"), Err(DurationError::InvalidNumber));
    assert_eq!(parse_number("1a"), Err(DurationError::InvalidNumber));
    assert_eq!(
        parse_number("99999999999999999999"),
        Err(DurationError::NumberTooLarge)
    );
}

#[test]
fn pieces_part_words_and_numbers() {
    assert_eq!(pieces("10 s 1hour"), vec!["10", "s", "1", "hour"]);
    assert_eq!(pieces(" a1  b2 "), vec!["a", "1", "b", "2"]);
    assert_eq!(pieces(""), vec![] as Vec<String>);
    let parts: Vec<String> = vec!["3".into(), "m".into(), "2".into(), "s".into()];
    assert_eq!(seconds_of_pieces(&parts), Ok(182));
    let parts: Vec<String> = vec!["3".into()];
    assert_eq!(seconds_of_pieces(&parts), Err(DurationError::UnitExpected));
}

#[test]
fn split_with_cuts_before_each_hit() {
    assert_eq!(
        split_with(DigitEdge { in_number: true }, "ab12"),
        vec!["ab", "12"]
    );
    assert_eq!(
        split_with(WordEdge { after_space: false }, "a  b"),
        vec!["a", " ", " ", "b"]
    );
    assert_eq!(
        split_with(DigitEdge { in_number: false }, "é1ü"),
        vec!["é", "1", "ü"]
    );
}

#[test]
fn pieces_follow_white_space_of_every_kind() {
    for input in [
        "10s",
        " 10 s ",
        "1h\t30m\n15s",
        "1\u{2003}h",
        "a\u{3000}b\u{85}c1",
        "12ab 34 cd56\u{a0}7",
        "\u{b}\u{c}x\r9",
        "x\u{200b}y",
    ] {
        let expected: Vec<String> = input
            .split_whitespace()
            .flat_map(|word| separate_numbers(word))
            .collect();
        assert_eq!(pieces(input), expected);
    }
}
