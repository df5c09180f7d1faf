use rsqlite_rsync::ip::ip_address;
use rsqlite_rsync::text::{
    ascii_uppercase, ends_with, eq_ignore_ascii_case, i64_text, parse_i64, parse_unsigned, space,
    split_once, split_words, starts_with, trim, u64_text,
};
use rsqlite_rsync::time::Duration;
use rsqlite_rsync::SyncTuning;

#[test]
fn white_space_is_that_of_unicode() {
    for c in '\0'..=char::MAX {
        assert_eq!(space(c), c.is_whitespace(), "{c:?}");
    }
}

#[test]
fn texts_are_trimmed_and_split_as_in_std() {
    for s in ["", "  ", " a b ", "\u{a0}x\u{2003}", "a\tb\r\n c"] {
        assert_eq!(trim(s), s.trim());
        let words: Vec<&str> = s.split_whitespace().collect();
        assert_eq!(split_words(s), words);
    }
    assert_eq!(
        split_once("a=b=c", '='),
        Some(("a".to_string(), "b=c".to_string()))
    );
    assert_eq!(split_once("abc", '='), None);
    assert!(starts_with("abc", "ab") && !starts_with("abc", "b"));
    assert!(ends_with("abc", "bc") && !ends_with("abc", "b"));
    assert!(eq_ignore_ascii_case("NuLL", "nUll"));
    assert!(!eq_ignore_ascii_case("\u{e4}", "\u{c4}"));
    assert_eq!(ascii_uppercase("a\u{e4}z"), "A\u{e4}Z");
}

#[test]
fn numbers_are_read_and_written_as_in_std() {
    for s in [
        "", "0", "+7", "-7", "007", "18446744073709551615", "18446744073709551616", "1 ", "a",
        "+", "-", "9223372036854775807", "-9223372036854775808", "-9223372036854775809",
    ] {
        assert_eq!(parse_unsigned(s, u64::MAX), s.parse::<u64>().ok(), "{s:?}");
        assert_eq!(parse_i64(s), s.parse::<i64>().ok(), "{s:?}");
    }
    assert_eq!(parse_unsigned("256", 255), None);
    for n in [0, 9, 10, u64::MAX] {
        assert_eq!(u64_text(n), n.to_string());
    }
    for n in [0, -1, i64::MIN, i64::MAX] {
        assert_eq!(i64_text(n), n.to_string());
    }
}

#[test]
fn addresses_are_told_from_names() {
    for s in ["1.2.3.4", "::1", "fe80::1", "::ffff:1.2.3.4"] {
        assert!(ip_address(s), "{s}");
    }
    for s in ["", "1.2.3", "1.2.3.256", "host", "fe80:::1"] {
        assert!(!ip_address(s), "{s}");
    }
}

#[test]
fn durations_count_whole_milliseconds() {
    assert_eq!(Duration::from_millis(1500).as_secs(), 1);
    assert_eq!(Duration::from_millis(1500).subsec_nanos(), 500_000_000);
    assert_eq!(Duration::from_secs(u64::MAX).as_millis(), u64::MAX as u128 * 1000);
}

#[test]
fn tuning_ignores_settings_that_are_no_positive_numbers() {
    let tuning = SyncTuning::from_env(Some("4"), Some("0"), Some("x"));
    assert_eq!(tuning.max_hash_threads, Some(4));
    assert_eq!(tuning.parallel_min_pages, 4096);
    assert_eq!(tuning.hash_chunk_groups, 16);
    assert!(tuning.should_parallelize(4096));
    assert!(!tuning.should_parallelize(4095));
    let unset = SyncTuning::from_env(None, None, None);
    assert_eq!(unset.max_hash_threads, None);
}
