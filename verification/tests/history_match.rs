use pokedex_tui::history_match::{highlight_runs, history_match, MatchKind};

fn score(query: &str, target: &str) -> Option<f32> {
    let m = history_match(query, target)?;
    Some(match m.kind {
        MatchKind::EmptyQuery => 0.0,
        MatchKind::Substring => 1.0 + 1.0 / (1.0 + m.first as f32),
        MatchKind::Subsequence => m.max_run as f32 / m.query_len as f32 + 1.0 / (1.0 + m.first as f32),
    })
}

#[test]
fn subseq_score_none_for_non_subsequence() {
    assert!(history_match("xyz", "abcde").is_none());
    assert!(history_match("ba", "abc").is_none());
}

#[test]
fn subseq_score_some_for_exact_subsequence() {
    assert!(history_match("git", "git push").is_some());
    assert!(history_match("gt", "get it together").is_some());
}

#[test]
fn subseq_score_substring_beats_subsequence() {
    let sub = history_match("git", "git push").unwrap();
    assert_eq!(sub.kind, MatchKind::Substring);
    let seq = history_match("git", "go into town").unwrap();
    assert_eq!(seq.kind, MatchKind::Subsequence);
    assert!(score("git", "git push").unwrap() > score("git", "go into town").unwrap());
}

#[test]
fn subseq_score_returns_correct_positions_for_substring() {
    let m = history_match("git", "git commit").unwrap();
    assert_eq!(m.positions, vec![0, 1, 2]);
}

#[test]
fn empty_query_matches_everything() {
    let m = history_match("", "anything").unwrap();
    assert_eq!(m.kind, MatchKind::EmptyQuery);
    assert!(m.positions.is_empty());
}

#[test]
fn substring_match_is_case_insensitive_and_first() {
    let m = history_match("GIT", "cargo git git").unwrap();
    assert_eq!(m.kind, MatchKind::Substring);
    assert_eq!(m.first, 6);
    assert_eq!(m.query_len, 3);
    assert_eq!(m.positions, vec![6, 7, 8]);
}

#[test]
fn subsequence_records_first_run_and_byte_positions() {
    // "gt" in "get it together": g at 0, t at 2 (greedy), not adjacent.
    let m = history_match("gt", "get it together").unwrap();
    assert_eq!(m.kind, MatchKind::Subsequence);
    assert_eq!(m.first, 0);
    assert_eq!(m.max_run, 1);
    assert_eq!(m.positions, vec![0, 2]);
    // "abd" in "xabcd": a at 1, b at 2 adjacent, d at 4.
    let m = history_match("abd", "xabcd").unwrap();
    assert_eq!(m.first, 1);
    assert_eq!(m.max_run, 2);
    assert_eq!(m.positions, vec![1, 2, 4]);
}

#[test]
fn subsequence_positions_are_byte_offsets() {
    // 'é' takes two bytes, so 'b' at character 2 starts at byte 3.
    let m = history_match("ab", "a\u{e9}b").unwrap();
    assert_eq!(m.kind, MatchKind::Subsequence);
    assert_eq!(m.positions, vec![0, 3]);
}

#[test]
fn highlight_runs_group_matched_bytes() {
    let (runs, cut) = highlight_runs("git commit", &vec![0, 1, 2], 80);
    assert!(!cut);
    assert_eq!(runs, vec![("git".to_string(), true), (" commit".to_string(), false)]);
    let (runs, cut) = highlight_runs("get it", &vec![0, 2], 80);
    assert!(!cut);
    assert_eq!(
        runs,
        vec![
            ("g".to_string(), true),
            ("e".to_string(), false),
            ("t".to_string(), true),
            (" it".to_string(), false)
        ]
    );
}

#[test]
fn highlight_runs_cut_long_text() {
    let (runs, cut) = highlight_runs("abcdef", &vec![4], 3);
    assert!(cut);
    assert_eq!(runs, vec![("abc".to_string(), false)]);
    let (runs, cut) = highlight_runs("abc", &vec![], 3);
    assert!(!cut);
    assert_eq!(runs, vec![("abc".to_string(), false)]);
    let (runs, cut) = highlight_runs("", &vec![0], 0);
    assert!(!cut);
    assert!(runs.is_empty());
}

#[test]
fn highlight_runs_use_byte_offsets() {
    // 'é' is two bytes: the 'b' after it starts at byte 3.
    let (runs, _) = highlight_runs("a\u{e9}b", &vec![3], 10);
    assert_eq!(runs, vec![("a\u{e9}".to_string(), false), ("b".to_string(), true)]);
}
