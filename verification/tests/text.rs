use noise_hoihoi::error::EngineError;
use noise_hoihoi::history::SignalHistory;
use noise_hoihoi::sort::{compare_keys, compare_text, stable_sort_by_keys, SortKey};
use noise_hoihoi::text::{
    chars_equal, chars_of, concat_str, contains_chars, is_blank_str, is_whitespace, push_decimal,
    push_hex8,
    starts_with, string_from_chars, to_ascii_lowercase, trim_chars,
};

#[test]
fn text_helpers_work_on_characters() {
    assert_eq!(chars_of("héllo"), vec!['h', 'é', 'l', 'l', 'o']);
    assert_eq!(string_from_chars(&['a', 'ß']), "aß");
    assert_eq!(concat_str("ab", "cd"), "abcd");
    assert_eq!(to_ascii_lowercase("AbÄ"), vec!['a', 'b', 'Ä']);
    assert!(chars_equal(&['x'], &['x']));
    assert!(!chars_equal(&['x'], &['x', 'y']));
    assert!(starts_with(&['a', 'b'], &['a']));
    assert!(!starts_with(&['a'], &['a', 'b']));
    assert!(contains_chars(&['a', 'b', 'c'], &['b', 'c']));
    assert!(contains_chars(&['a'], &[]));
    assert!(!contains_chars(&['a', 'b'], &['b', 'a']));
    assert!(is_blank_str(" \t\u{3000}\n"));
    assert!(!is_blank_str(" x "));
    assert_eq!(trim_chars(&[' ', 'a', ' ', 'b', '\u{a0}']), vec!['a', ' ', 'b']);
}

#[test]
fn numbers_are_written_in_decimal_and_hex() {
    let mut s = String::from("n=");
    push_decimal(&mut s, 0);
    push_decimal(&mut s, 1_234_567_890);
    assert_eq!(s, "n=01234567890");
    let mut h = String::new();
    push_hex8(&mut h, 0x10de);
    push_hex8(&mut h, 0xdeadbeef);
    assert_eq!(h, "000010dedeadbeef");
}

#[test]
fn error_messages_match_the_user_interface() {
    assert_eq!(
        EngineError::UnsupportedPlatform.message(),
        "no native audio backend is available for this platform"
    );
    assert_eq!(
        EngineError::InvalidConfiguration("x".into()).message(),
        "invalid engine configuration: x"
    );
    assert_eq!(
        EngineError::VirtualOutputUnavailable("y".into()).message(),
        "virtual output is unavailable: y"
    );
}

#[test]
fn keys_sort_stably() {
    let key = |rank: u32, text: &str, minor: u64| SortKey {
        rank,
        text: text.chars().collect(),
        minor,
    };
    assert_eq!(compare_text(&['a'], &['b']), -1);
    assert_eq!(compare_text(&['a', 'b'], &['a']), 1);
    assert_eq!(compare_text(&[], &[]), 0);
    assert_eq!(compare_keys(&key(0, "z", 0), &key(1, "a", 0)), -1);
    assert_eq!(compare_keys(&key(1, "a", 2), &key(1, "a", 1)), 1);
    let sorted = stable_sort_by_keys(
        vec!["c", "a1", "b", "a2"],
        vec![key(1, "c", 0), key(0, "a", 0), key(1, "b", 0), key(0, "a", 0)],
    );
    assert_eq!(sorted, ["a1", "a2", "b", "c"]);
}

#[test]
fn history_keeps_the_latest_samples() {
    let mut history = SignalHistory::new(3);
    history.append(&[1, 2]);
    assert_eq!(history.to_vec(), vec![1, 2]);
    history.append(&[3, 4, 5, 6]);
    assert_eq!(history.to_vec(), vec![4, 5, 6]);
    assert_eq!(history.len(), 3);
    history.clear();
    assert_eq!(history.len(), 0);
}

#[test]
fn white_space_matches_the_standard_library() {
    for c in (0..0x11_0000_u32).filter_map(char::from_u32) {
        assert_eq!(is_whitespace(c), c.is_whitespace(), "{:#x}", c as u32);
    }
}
