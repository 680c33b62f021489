//! Texts, maps of texts, and instants.

use rimaia_core::instant::{format_instant, parse_instant, Instant, MAX_SECONDS, MIN_SECONDS};
use rimaia_core::path::beneath;
use rimaia_core::text::{
    decimal_text, find, is_before, is_blank, is_white_space, join, lines, parse_usize, sort,
    strip_prefix, trim, without_trailing_space,
};
use rimaia_core::textmap::TextMap;

#[test]
fn white_space_is_what_the_language_says_it_is() {
    for code in 0..=0x10ffffu32 {
        if let Some(c) = char::from_u32(code) {
            assert_eq!(is_white_space(c), c.is_whitespace(), "{code:x}");
        }
    }
}

#[test]
fn texts_are_cut_the_way_the_language_cuts_them() {
    for text in ["", " ", "\u{3000}a b\u{a0}\n", "a", "\r\n", "a\u{200b} "] {
        assert_eq!(trim(text), text.trim(), "{text:?}");
        assert_eq!(without_trailing_space(text), text.trim_end(), "{text:?}");
        assert_eq!(is_blank(text), text.trim().is_empty(), "{text:?}");
    }
    for text in ["", "\n", "a", "a\n", "a\r\nb", "a\rb\n\n", "a\r", "\u{1f980}\n\u{1f980}"] {
        assert_eq!(lines(text), text.lines().collect::<Vec<_>>(), "{text:?}");
    }
    assert_eq!(strip_prefix("start a", "start "), Some("a"));
    assert_eq!(strip_prefix("started", "start "), None);
    assert_eq!(find("abcabc", "ca"), Some(2));
    assert_eq!(find("abc", "d"), None);
    assert_eq!(join(&vec!["a".to_string(), "b".to_string()], ", "), "a, b");
    assert_eq!(join(&Vec::new(), ", "), "");
}

#[test]
fn numbers_are_read_and_written_the_way_the_language_does_it() {
    for n in [0, 9, 10, 99, 1234567890, u64::MAX] {
        assert_eq!(decimal_text(n), n.to_string());
    }
    for text in ["0", "007", "+5", "", "+", "-1", "2.5", "two", " 1", "18446744073709551616"] {
        assert_eq!(parse_usize(text), text.parse::<usize>().ok(), "{text:?}");
    }
}

#[test]
fn texts_are_ordered_the_way_the_language_orders_them() {
    let words = ["b", "a", "", "ab", "aa", "\u{e9}", "z", "a"];
    for one in words {
        for other in words {
            assert_eq!(is_before(one, other), one < other, "{one:?} {other:?}");
        }
    }
    let mut expected: Vec<String> = words.iter().map(|word| (*word).to_string()).collect();
    let sorted = sort(expected.clone());
    expected.sort();
    assert_eq!(sorted, expected);
}

#[test]
fn a_path_is_joined_the_way_the_language_joins_it() {
    for (dir, name) in [("/a", "b"), ("/a/", "b"), ("", "b"), ("/a", "/b"), ("a b", "c d/e")] {
        let joined = std::path::Path::new(dir).join(name);
        assert_eq!(Some(beneath(dir, name).as_str()), joined.to_str());
    }
}

#[test]
fn a_map_keeps_the_last_value_of_a_key() {
    let mut map = TextMap::new();
    map.insert("a".to_string(), 1);
    map.insert("b".to_string(), 2);
    map.insert("a".to_string(), 3);
    assert_eq!(map.get("a"), Some(&3));
    map.remove("a");
    assert_eq!(map.get("a"), None);
    assert_eq!(map.get("b"), Some(&2));
}

#[test]
fn instants_reach_as_far_as_the_calendar() {
    assert_eq!(chrono::DateTime::<chrono::Utc>::MAX_UTC.timestamp(), MAX_SECONDS);
    assert_eq!(chrono::DateTime::<chrono::Utc>::MIN_UTC.timestamp(), MIN_SECONDS);
}

#[test]
fn every_instant_that_is_written_reads_back() {
    for at in [
        Instant { seconds: 0, nanos: 0 },
        Instant { seconds: -1, nanos: 999_999_999 },
        Instant { seconds: 1_787_227_200, nanos: 123_000_000 },
        Instant { seconds: 1_787_227_199, nanos: 1_500_000_000 },
        Instant { seconds: MAX_SECONDS, nanos: 0 },
        Instant { seconds: MIN_SECONDS, nanos: 1 },
    ] {
        assert_eq!(parse_instant(&format_instant(at)), Some(at), "{at:?}");
    }
    assert_eq!(parse_instant("yesterday"), None);
}

#[test]
fn adding_seconds_is_what_the_calendar_adds() {
    for (seconds, nanos, more) in
        [(0, 0, 0), (59, 1_500_000_000, 0), (59, 1_500_000_000, 1), (1_000, 5, 86_400)]
    {
        let base = chrono::DateTime::<chrono::Utc>::from_timestamp(seconds, nanos)
            .expect("a moment of the calendar");
        let sum = base + chrono::Duration::seconds(more);
        let at = Instant { seconds, nanos }.plus_seconds(more);
        assert_eq!((at.seconds, at.nanos), (sum.timestamp(), sum.timestamp_subsec_nanos()));
    }
}
