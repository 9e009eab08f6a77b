use blog_creator::clock::{clock_fields, clock_text, CalendarDate, Timestamp};
use blog_creator::document::{tags_from_text, tags_text};
use blog_creator::text::{join_text, parse_u32, split_text, trim_text};

#[test]
fn split_keeps_empty_pieces() {
    assert_eq!(split_text("a,,b,", ','), vec!["a", "", "b", ""]);
    assert_eq!(split_text("", ','), vec![""]);
    assert_eq!(split_text("abc", ','), vec!["abc"]);
}

#[test]
fn join_puts_separator_between_parts() {
    let parts = vec!["cooking".to_string(), "bread".to_string(), "easy".to_string()];
    assert_eq!(join_text(&parts, ','), "cooking,bread,easy");
    assert_eq!(join_text(&Vec::new(), ','), "");
}

#[test]
fn trim_removes_surrounding_white_space() {
    assert_eq!(trim_text("  bread \t\n"), "bread");
    assert_eq!(trim_text("\u{3000}a b\u{a0}"), "a b");
    assert_eq!(trim_text("   "), "");
}

#[test]
fn parse_reads_decimal_numbers() {
    assert_eq!(parse_u32("42"), Some(42));
    assert_eq!(parse_u32("+7"), Some(7));
    assert_eq!(parse_u32("007"), Some(7));
    assert_eq!(parse_u32("4294967295"), Some(u32::MAX));
    assert_eq!(parse_u32("4294967296"), None);
    assert_eq!(parse_u32(""), None);
    assert_eq!(parse_u32("+"), None);
    assert_eq!(parse_u32("-1"), None);
    assert_eq!(parse_u32("05 PM"), None);
}

#[test]
fn clock_text_has_two_digits_per_part() {
    assert_eq!(clock_text(9, 5, 0), "09:05:00");
    assert_eq!(clock_text(23, 59, 59), "23:59:59");
}

#[test]
fn clock_fields_reads_all_three_parts() {
    assert_eq!(clock_fields("13:45:10"), (13, 45, 10));
    assert_eq!(clock_fields("13:45:10:99"), (13, 45, 10));
}

#[test]
fn clock_fields_defaults_missing_parts_to_zero() {
    assert_eq!(clock_fields("7"), (7, 0, 0));
    assert_eq!(clock_fields("7:30"), (7, 30, 0));
    assert_eq!(clock_fields(""), (0, 0, 0));
    assert_eq!(clock_fields("xx:15:yy"), (0, 15, 0));
    assert_eq!(clock_fields("01:02:03 PM"), (1, 2, 0));
}

#[test]
fn tags_text_joins_with_commas() {
    let tags = vec!["a".to_string(), "b c".to_string()];
    assert_eq!(tags_text(&tags), "a,b c");
}

#[test]
fn tags_from_text_trims_each_tag() {
    assert_eq!(tags_from_text(" cooking , bread,dough "), vec!["cooking", "bread", "dough"]);
    assert_eq!(tags_from_text("a,,b"), vec!["a", "", "b"]);
}

#[test]
fn empty_tags_text_gives_one_empty_tag() {
    assert_eq!(tags_from_text(""), vec![""]);
}

#[test]
fn timestamp_accepts_only_existing_instants() {
    assert!(Timestamp::from_parts(2024, 2, 29, 12, 0, 0).is_some());
    assert!(Timestamp::from_parts(2023, 2, 29, 12, 0, 0).is_none());
    assert!(Timestamp::from_parts(2000, 2, 29, 0, 0, 0).is_some());
    assert!(Timestamp::from_parts(1900, 2, 29, 0, 0, 0).is_none());
    assert!(Timestamp::from_parts(2024, 4, 31, 0, 0, 0).is_none());
    assert!(Timestamp::from_parts(2024, 13, 1, 0, 0, 0).is_none());
    assert!(Timestamp::from_parts(2024, 1, 0, 0, 0, 0).is_none());
    assert!(Timestamp::from_parts(2024, 1, 1, 24, 0, 0).is_none());
    assert!(Timestamp::from_parts(2024, 1, 1, 23, 60, 0).is_none());
    assert!(Timestamp::from_parts(2024, 1, 1, 23, 59, 60).is_none());
    assert!(Timestamp::from_parts(262142, 12, 31, 23, 59, 59).is_some());
    assert!(Timestamp::from_parts(262143, 1, 1, 0, 0, 0).is_none());
    assert!(Timestamp::from_parts(-262143, 1, 1, 0, 0, 0).is_some());
    assert!(Timestamp::from_parts(-262144, 12, 31, 0, 0, 0).is_none());
    let t = Timestamp::from_parts(2025, 3, 14, 15, 9, 26).unwrap();
    assert_eq!(t.date(), CalendarDate { year: 2025, month: 3, day: 14 });
}

#[test]
fn tags_from_text_trims_spaces_around_commas() {
    assert_eq!(tags_from_text(" a , b,c "), vec!["a", "b", "c"]);
}
