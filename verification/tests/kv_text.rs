use rsqlite_rsync::kv_text::{
    parse_kv_lines, read_optional_kv_text, require_non_empty, require_u64,
};

#[test]
fn parse_kv_lines_accepts_known_keys() {
    let map = parse_kv_lines("test", "a=1\nb=2\n", &["a", "b"]).unwrap();
    assert_eq!(map.get("a").map(String::as_str), Some("1"));
    assert_eq!(map.get("b").map(String::as_str), Some("2"));
}

#[test]
fn parse_kv_lines_skips_blank_lines() {
    let map = parse_kv_lines("test", "a=1\n\n  \nb=2\n", &["a", "b"]).unwrap();
    assert_eq!(map.len(), 2);
}

#[test]
fn parse_kv_lines_rejects_missing_equals() {
    let err = parse_kv_lines("test", "not-a-pair\n", &["a"]).unwrap_err();
    assert!(err.contains("invalid test line"));
}

#[test]
fn parse_kv_lines_rejects_unknown_key() {
    let err = parse_kv_lines("test", "c=1\n", &["a", "b"]).unwrap_err();
    assert!(err.contains("unknown test key: c"));
}

#[test]
fn require_u64_reports_missing_and_invalid() {
    let map = parse_kv_lines("test", "a=xyz\n", &["a"]).unwrap();
    assert!(require_u64(&map, "a").unwrap_err().contains("invalid a"));
    assert!(require_u64(&map, "b").unwrap_err().contains("missing b"));
}

#[test]
fn require_non_empty_rejects_blank_value() {
    let map = parse_kv_lines("test", "a=\n", &["a"]).unwrap();
    assert!(require_non_empty(&map, "a")
        .unwrap_err()
        .contains("must not be empty"));
}

#[test]
fn read_optional_kv_text_treats_missing_empty_and_none_as_absent() {
    assert_eq!(read_optional_kv_text(None), None);
    assert_eq!(read_optional_kv_text(Some("\n")), None);
    assert_eq!(read_optional_kv_text(Some("none\n")), None);
    assert_eq!(
        read_optional_kv_text(Some("  a=1  \n")),
        Some("a=1".to_string())
    );
}

#[test]
fn later_value_of_a_key_counts() {
    let map = parse_kv_lines("test", "a=1\r\na = 2 \n", &["a"]).unwrap();
    assert_eq!(map.len(), 1);
    assert_eq!(map.get("a").map(String::as_str), Some("2"));
}

#[test]
fn largest_number_is_accepted_and_the_next_one_is_not() {
    let map = parse_kv_lines(
        "test",
        "a=18446744073709551615\nb=18446744073709551616\nc=+7\n",
        &["a", "b", "c"],
    )
    .unwrap();
    assert_eq!(require_u64(&map, "a"), Ok(u64::MAX));
    assert!(require_u64(&map, "b").is_err());
    assert_eq!(require_u64(&map, "c"), Ok(7));
}
