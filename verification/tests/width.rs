use pokedex_tui::width::{shimmer_runs, spinner_char_for, truncate_end, truncate_middle, truncate_text};

#[test]
fn truncate_end_cases() {
    assert_eq!(truncate_end("hello world", 5), "hell\u{2026}");
    assert_eq!(truncate_end("abc", 3), "abc");
    assert_eq!(truncate_end("abcd", 1), "\u{2026}");
    assert_eq!(truncate_end("x", 0), "");
    assert_eq!(truncate_end("日本語", 4), "日\u{2026}");
}

#[test]
fn truncate_middle_cases() {
    assert_eq!(truncate_middle("abcdefghij", 7), "abc\u{2026}hij");
    assert_eq!(truncate_middle("abcdef", 3), "ab\u{2026}");
    assert_eq!(truncate_middle("short", 10), "short");
    assert_eq!(truncate_middle("abcdef", 0), "");
}

#[test]
fn truncate_text_cases() {
    assert_eq!(truncate_text("hello world", 5), "hello");
    assert_eq!(truncate_text("日本語", 5), "日本\u{2026}");
    assert_eq!(truncate_text("fits", 4), "fits");
    assert_eq!(truncate_text("ab", 1), "a");
    assert_eq!(truncate_text("ab", 0), "");
}

#[test]
fn spinner_cycles_through_twelve_frames() {
    assert_eq!(spinner_char_for(13, false), '\u{2722}');
    assert_eq!(spinner_char_for(0, true), '\u{00b7}');
    assert_eq!(spinner_char_for(2, true), '*');
    assert_eq!(spinner_char_for(2, false), '\u{2733}');
    assert_eq!(spinner_char_for(11, false), spinner_char_for(23, false));
}

#[test]
fn shimmer_runs_follow_the_sweep() {
    let r = |t: &str, f: u64| -> Vec<(String, bool)> { shimmer_runs(t, f) };
    assert!(r("", 7).is_empty());
    assert_eq!(r("abcdef", 0), vec![("abcdef".to_string(), false)]);
    assert_eq!(
        r("abcdef", 56),
        vec![("a".to_string(), false), ("bcd".to_string(), true), ("ef".to_string(), false)]
    );
    assert_eq!(r("abcdef", 59), r("abcdef", 56));
    assert_eq!(r("abcdef", 64), vec![("ab".to_string(), true), ("cdef".to_string(), false)]);
    assert_eq!(r("abcdef", 104), vec![("abcdef".to_string(), false)]);
    assert_eq!(r("abcdef", 44), vec![("abcd".to_string(), false), ("ef".to_string(), true)]);
    assert_eq!(r("abcdef", 48), vec![("abc".to_string(), false), ("def".to_string(), true)]);
}
