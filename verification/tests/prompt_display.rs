use pokedex_tui::prompt::{InputMode, PromptInputState};
use pokedex_tui::prompt_display::{lines_of, prompt_display_lines};

fn state(text: &str, cursor: usize) -> PromptInputState {
    let mut s = PromptInputState::new();
    s.text = text.to_string();
    s.cursor = cursor;
    s
}

#[test]
fn empty_prompt_shows_cursor_or_placeholder() {
    let s = state("", 0);
    assert_eq!(prompt_display_lines(&s, true, InputMode::Default, 80), vec!["\u{2588}".to_string()]);
    assert_eq!(prompt_display_lines(&s, false, InputMode::Default, 80), vec!["How can I help you?".to_string()]);
    assert_eq!(prompt_display_lines(&s, false, InputMode::Plan, 80), vec![String::new()]);
}

#[test]
fn cursor_block_goes_at_the_cursor() {
    let s = state("ab\ncd", 4);
    assert_eq!(
        prompt_display_lines(&s, true, InputMode::Default, 80),
        vec!["ab".to_string(), "c\u{2588}d".to_string()]
    );
    assert_eq!(
        prompt_display_lines(&s, false, InputMode::Default, 80),
        vec!["ab".to_string(), "cd".to_string()]
    );
}

#[test]
fn rows_keep_their_last_characters() {
    let s = state("abcdef", 6);
    assert_eq!(prompt_display_lines(&s, true, InputMode::Default, 3), vec!["ef\u{2588}".to_string()]);
}

#[test]
fn lines_split_like_str_lines() {
    let cs: Vec<char> = "a\r\nb\n\nc".chars().collect();
    assert_eq!(lines_of(&cs), vec!["a".to_string(), "b".to_string(), String::new(), "c".to_string()]);
    let cs: Vec<char> = "x\n".chars().collect();
    assert_eq!(lines_of(&cs), vec!["x".to_string()]);
    assert!(lines_of(&Vec::new()).is_empty());
}
