use pokedex_tui::transcript::truncate_user_prompt_text;

#[test]
fn short_prompt_is_shown_whole() {
    let text = "line one\nline two";
    assert_eq!(truncate_user_prompt_text(text), text);
}

#[test]
fn prompt_at_the_limit_is_shown_whole() {
    let text = "x".repeat(10_000);
    assert_eq!(truncate_user_prompt_text(&text), text);
}

#[test]
fn long_prompt_keeps_head_and_tail() {
    let text = format!("{}{}", "\n".repeat(2_500), "x".repeat(10_000));
    let expected = format!("{}\n\u{2026} +2500 lines \u{2026}\n{}", "\n".repeat(2_500), "x".repeat(2_500));
    assert_eq!(truncate_user_prompt_text(&text), expected);
}

#[test]
fn hidden_count_subtracts_tail_lines() {
    let text = "a\n".repeat(6_000);
    let expected = format!("{}\n\u{2026} +0 lines \u{2026}\n{}", "a\n".repeat(1_250), "a\n".repeat(1_250));
    assert_eq!(truncate_user_prompt_text(&text), expected);
}

#[test]
fn long_prompt_with_multibyte_characters() {
    // 'é' is two bytes: 2500 bytes of head are 1250 characters.
    let text = format!("{}{}", "\u{e9}".repeat(1_250), "y\n".repeat(5_000));
    let expected = format!("{}\n\u{2026} +0 lines \u{2026}\n{}", "\u{e9}".repeat(1_250), "y\n".repeat(1_250));
    assert_eq!(truncate_user_prompt_text(&text), expected);
}

#[test]
fn user_text_truncates_large_prompts() {
    let text = format!("{}\nquestion", "a".repeat(12_000));
    let shown = truncate_user_prompt_text(&text);
    assert!(shown.contains("question"));
    assert!(shown.contains(&"a".repeat(40)));
    assert!(shown.contains("\u{2026} +0 lines \u{2026}"));
    assert!(shown.len() < text.len());
}
