#![allow(non_snake_case)]
use pokedex_tui::prompt::{compute_typeahead, handle_paste, InputMode, PromptInputState};
use pokedex_tui::vim::{VimMode, VimPendingState};

#[test]
fn insert_char_updates_cursor() {
    let mut s = PromptInputState::new();
    s.insert_char('h');
    s.insert_char('i');
    assert_eq!(s.text, "hi");
    assert_eq!(s.cursor, 2);
}

#[test]
fn insert_newline_works() {
    let mut s = PromptInputState::new();
    s.insert_char('a');
    s.insert_newline();
    s.insert_char('b');
    assert_eq!(s.text, "a\nb");
}

#[test]
fn backspace_removes_previous_char() {
    let mut s = PromptInputState::new();
    s.text = "hello".to_string();
    s.cursor = 5;
    s.backspace();
    assert_eq!(s.text, "hell");
    assert_eq!(s.cursor, 4);
}

#[test]
fn backspace_at_start_is_noop() {
    let mut s = PromptInputState::new();
    s.text = "hi".to_string();
    s.cursor = 0;
    s.backspace();
    assert_eq!(s.text, "hi");
}

#[test]
fn delete_removes_char_at_cursor() {
    let mut s = PromptInputState::new();
    s.text = "hello".to_string();
    s.cursor = 1;
    s.delete();
    assert_eq!(s.text, "hllo");
    assert_eq!(s.cursor, 1);
}

#[test]
fn move_left_right() {
    let mut s = PromptInputState::new();
    s.text = "abc".to_string();
    s.cursor = 1;
    s.move_right();
    assert_eq!(s.cursor, 2);
    s.move_left();
    assert_eq!(s.cursor, 1);
}

#[test]
fn readonly_blocks_insert() {
    let mut s = PromptInputState::new();
    s.mode = InputMode::Readonly;
    s.insert_char('x');
    assert!(s.text.is_empty());
}

#[test]
fn history_navigation_up_down() {
    let mut s = PromptInputState::new();
    s.history = vec!["first".to_string(), "second".to_string()];
    s.history_up();
    assert_eq!(s.text, "second");
    s.history_up();
    assert_eq!(s.text, "first");
    s.history_down();
    assert_eq!(s.text, "second");
    s.history_down();
    assert_eq!(s.text, "");
    assert!(s.history_pos.is_none());
}

#[test]
fn history_draft_restored() {
    let mut s = PromptInputState::new();
    s.text = "draft text".to_string();
    s.cursor = 10;
    s.history = vec!["old entry".to_string()];
    s.history_up();
    assert_eq!(s.text, "old entry");
    s.history_down();
    assert_eq!(s.text, "draft text");
}

#[test]
fn clear_resets_state() {
    let mut s = PromptInputState::new();
    s.text = "something".to_string();
    s.cursor = 5;
    s.token_estimate = 10;
    s.clear();
    assert!(s.text.is_empty());
    assert_eq!(s.cursor, 0);
    assert_eq!(s.token_estimate, 0);
}

#[test]
fn take_returns_and_clears() {
    let mut s = PromptInputState::new();
    s.text = "hello".to_string();
    s.cursor = 5;
    let taken = s.take();
    assert_eq!(taken, "hello");
    assert!(s.text.is_empty());
}

#[test]
fn is_empty_trims_whitespace() {
    let mut s = PromptInputState::new();
    s.text = "   \n  ".to_string();
    assert!(s.is_empty());
    s.text = "  x  ".to_string();
    assert!(!s.is_empty());
}

#[test]
fn paste_small_content_inline() {
    let mut counter = 0u32;
    let (result, stored) = handle_paste("short text", &mut counter);
    assert_eq!(result, "short text");
    assert!(stored.is_none());
    assert_eq!(counter, 0);
}

#[test]
fn paste_large_content_placeholder() {
    let mut counter = 0u32;
    let big = "x".repeat(2000);
    let (result, stored) = handle_paste(&big, &mut counter);
    assert!(result.starts_with("[Pasted text #1"));
    assert!(stored.is_some());
    assert_eq!(counter, 1);
}

#[test]
fn paste_large_multiline_placeholder() {
    let mut counter = 0u32;
    let big = "line\n".repeat(300); // 1500 bytes, >1024
    let (result, stored) = handle_paste(&big, &mut counter);
    assert!(result.contains("+300 lines") || result.contains("lines"));
    assert!(stored.is_some());
}

#[test]
fn paste_counter_increments() {
    let mut counter = 0u32;
    let big = "x".repeat(2000);
    handle_paste(&big, &mut counter);
    handle_paste(&big, &mut counter);
    assert_eq!(counter, 2);
}

#[test]
fn typeahead_slash_prefix_matches() {
    let cmds = [("help", "Show help"), ("history", "Show history"), ("compact", "Compact")];
    let suggestions = compute_typeahead("/h", &cmds);
    assert_eq!(suggestions.len(), 2);
    assert_eq!(suggestions[0].text, "/help");
    assert_eq!(suggestions[1].text, "/history");
}

#[test]
fn typeahead_no_slash_returns_empty() {
    let cmds = [("help", "Show help")];
    let suggestions = compute_typeahead("hello", &cmds);
    assert!(suggestions.is_empty());
}

#[test]
fn typeahead_full_match() {
    let cmds = [("compact", "Compact conversation")];
    let suggestions = compute_typeahead("/compact", &cmds);
    assert_eq!(suggestions.len(), 1);
    assert_eq!(suggestions[0].text, "/compact");
    assert_eq!(suggestions[0].description, "Compact conversation");
}

#[test]
fn typeahead_case_insensitive() {
    let cmds = [("Help", "Show help")];
    let suggestions = compute_typeahead("/H", &cmds);
    assert_eq!(suggestions.len(), 1);
    assert_eq!(suggestions[0].text, "/Help");
}

#[test]
fn suggestion_next_cycles() {
    let mut s = PromptInputState::new();
    let cmds = [("help", "Help"), ("history", "History"), ("compact", "Compact")];
    s.text = "/h".to_string();
    s.update_suggestions(&cmds);
    assert_eq!(s.suggestions.len(), 2);
    assert_eq!(s.suggestion_index, Some(0));
    s.suggestion_next();
    assert_eq!(s.suggestion_index, Some(1));
    s.suggestion_next();
    assert_eq!(s.suggestion_index, Some(0)); // wraps
}

#[test]
fn accept_suggestion_fills_text() {
    let mut s = PromptInputState::new();
    let cmds = [("help", "Show help")];
    s.text = "/he".to_string();
    s.update_suggestions(&cmds);
    s.suggestion_next();
    s.accept_suggestion();
    assert_eq!(s.text, "/help");
    assert_eq!(s.cursor, 5);
    assert!(s.suggestions.is_empty());
}

#[test]
fn token_estimate_rough() {
    let mut s = PromptInputState::new();
    for _ in 0..40 {
        s.insert_char('a');
    }
    // 40 chars / 4 = 10 tokens
    assert_eq!(s.token_estimate, 10);
}

#[test]
fn prompt_input_undo_restores_text() {
    let mut s = PromptInputState::new();
    s.vim_enabled = true;
    s.vim_mode = VimMode::Normal;
    s.text = "hello".to_string();
    s.cursor = 5;
    s.vim_command("x"); // deletes 'o' (but cursor at 5 = past end)
    // let's set cursor to 4 and delete
    s.cursor = 4;
    s.vim_command("x");
    assert_eq!(s.text, "hell");
    s.vim_command("u");
    assert_eq!(s.text, "hello");
}

#[test]
fn prompt_input_visual_yank() {
    let mut s = PromptInputState::new();
    s.vim_enabled = true;
    s.vim_mode = VimMode::Normal;
    s.text = "hello world".to_string();
    s.cursor = 0;
    s.vim_command("v");
    assert_eq!(s.vim_mode, VimMode::Visual);
    // Move to end of word
    s.vim_command("e");
    s.vim_command("y"); // yank selection
    assert_eq!(s.yank_buf, "hello");
    assert_eq!(s.vim_mode, VimMode::Normal);
}

#[test]
fn register_yank_and_paste() {
    let mut s = PromptInputState::new();
    s.vim_mode = VimMode::Normal;
    s.text = "hello world".to_string();
    s.cursor = 0;
    // `"ay` — yank line to register 'a'
    s.vim_command("\"");
    s.vim_command("a");
    s.vim_command("y");
    assert_eq!(s.vim_registers.get(&'a').map(|s| s.as_str()), Some("hello world"));
    // `"ap` — paste from register 'a' after cursor
    s.cursor = 0;
    s.vim_command("\"");
    s.vim_command("a");
    s.vim_command("p");
    assert!(s.text.contains("hello world"));
}

#[test]
fn register_yank_method() {
    let mut s = PromptInputState::new();
    s.yank_to_register('b', "some text");
    assert_eq!(s.paste_from_register('b'), Some("some text".to_string()));
    assert_eq!(s.paste_from_register('z'), None);
}

#[test]
fn register_delete_to_named() {
    let mut s = PromptInputState::new();
    s.vim_mode = VimMode::Normal;
    s.text = "hello\nworld".to_string();
    s.cursor = 0;
    // `"ad` — delete line to register 'a'
    s.vim_command("\"");
    s.vim_command("a");
    s.vim_command("d");
    assert_eq!(s.vim_registers.get(&'a').map(|s| s.as_str()), Some("hello\n"));
    assert_eq!(s.text, "world");
}

#[test]
fn mark_set_and_jump() {
    let mut s = PromptInputState::new();
    s.text = "hello world".to_string();
    s.cursor = 6; // at 'w'
    s.set_mark('a');
    s.cursor = 0;
    s.jump_to_mark('a');
    assert_eq!(s.cursor, 6);
}

#[test]
fn mark_jump_nonexistent_is_noop() {
    let mut s = PromptInputState::new();
    s.text = "hello".to_string();
    s.cursor = 3;
    s.jump_to_mark('z'); // no mark 'z' set
    assert_eq!(s.cursor, 3);
}

#[test]
fn mark_via_vim_command() {
    let mut s = PromptInputState::new();
    s.vim_mode = VimMode::Normal;
    s.text = "hello world".to_string();
    s.cursor = 6;
    // `ma` — set mark 'a'
    s.vim_command("m");
    s.vim_command("a");
    assert!(s.vim_marks.contains_key(&'a'));
    // Move cursor and jump back with `'a`
    s.cursor = 0;
    s.vim_command("'");
    s.vim_command("a");
    assert_eq!(s.cursor, 6);
}

#[test]
fn mark_clamped_when_text_shortened() {
    let mut s = PromptInputState::new();
    s.text = "hello world".to_string();
    s.cursor = 10;
    s.set_mark('x');
    // Shorten the text
    s.text = "hi".to_string();
    s.cursor = 0;
    s.jump_to_mark('x');
    // Should clamp to text length
    assert!(s.cursor <= s.text.len());
    assert!(s.text.is_char_boundary(s.cursor));
}

#[test]
fn macro_record_and_replay() {
    let mut s = PromptInputState::new();
    // Start recording into register 'q'
    s.start_macro_recording('q');
    assert_eq!(s.vim_macro_recording, Some('q'));
    // Simulate accumulating keys
    s.vim_macro_content.get_mut(&'q').unwrap().push("w".to_string());
    s.vim_macro_content.get_mut(&'q').unwrap().push("e".to_string());
    // Stop recording
    let reg = s.stop_macro_recording();
    assert_eq!(reg, Some('q'));
    assert_eq!(s.vim_macro_recording, None);
    // Replay
    let keys = s.replay_macro('q');
    assert_eq!(keys, vec!["w".to_string(), "e".to_string()]);
}

#[test]
fn macro_replay_empty_register() {
    let s = PromptInputState::new();
    let keys = s.replay_macro('z');
    assert!(keys.is_empty());
}

#[test]
fn macro_via_vim_command() {
    let mut s = PromptInputState::new();
    s.vim_mode = VimMode::Normal;
    s.text = "abc".to_string();
    s.cursor = 0;
    // `qq` — start recording into 'q'
    s.vim_command("q");
    assert!(matches!(s.vim_pending, VimPendingState::MacroRecord));
    s.vim_command("q"); // register name = 'q'
    assert_eq!(s.vim_macro_recording, Some('q'));
    // Record some keys: move right twice
    s.vim_command("l");
    s.vim_command("l");
    // Stop recording with `q`
    s.vim_command("q");
    assert_eq!(s.vim_macro_recording, None);
    // The recorded content should have 'l', 'l'
    let keys = s.replay_macro('q');
    assert_eq!(keys, vec!["l".to_string(), "l".to_string()]);
}

#[test]
fn macro_replay_via_at() {
    let mut s = PromptInputState::new();
    s.vim_mode = VimMode::Normal;
    s.text = "abcdef".to_string();
    s.cursor = 0;
    // Manually record a macro: move 2 chars right
    s.vim_macro_content.insert('q', vec!["l".to_string(), "l".to_string()]);
    // `@q` — replay macro 'q'
    s.vim_command("@");
    assert!(matches!(s.vim_pending, VimPendingState::MacroReplay));
    s.vim_command("q");
    // cursor should have moved right by 2
    assert_eq!(s.cursor, 2);
}

#[test]
fn dot_repeat_delete_char() {
    let mut s = PromptInputState::new();
    s.vim_mode = VimMode::Normal;
    s.text = "hello".to_string();
    s.cursor = 0;
    // Delete char at cursor with `x`
    s.vim_command("x");
    assert_eq!(s.text, "ello");
    // Dot-repeat should delete again
    s.vim_command(".");
    assert_eq!(s.text, "llo");
}

#[test]
fn dot_repeat_replace_char() {
    let mut s = PromptInputState::new();
    s.vim_mode = VimMode::Normal;
    s.text = "hello".to_string();
    s.cursor = 0;
    // Replace 'h' with 'H' using `r`
    s.vim_command("r");
    s.vim_command("H");
    assert_eq!(s.text, "Hello");
    // Move and dot-repeat: should replace 'e' with 'H'
    s.vim_command("l");
    s.vim_command(".");
    assert_eq!(s.text, "HHllo");
}

#[test]
fn dot_repeat_noop_when_no_action() {
    let mut s = PromptInputState::new();
    s.vim_mode = VimMode::Normal;
    s.text = "hello".to_string();
    s.cursor = 0;
    // `.` with no prior modifying action should be a no-op
    s.vim_command(".");
    assert_eq!(s.text, "hello");
    assert_eq!(s.cursor, 0);
}

#[test]
fn dot_repeat_after_visual_delete() {
    let mut s = PromptInputState::new();
    s.vim_mode = VimMode::Normal;
    s.text = "hello world".to_string();
    s.cursor = 0;
    // Enter visual, select 'hel', then delete
    s.vim_command("v");
    s.vim_command("l");
    s.vim_command("l");
    s.vim_command("d");
    assert_eq!(s.text, "lo world");
    // Dot-repeat should delete chars again
    s.vim_command(".");
    // The text should be shorter
    assert!(s.text.len() < "lo world".len());
}

#[test]
fn visual_line_mode_enter() {
    let mut s = PromptInputState::new();
    s.vim_mode = VimMode::Normal;
    s.text = "line one\nline two".to_string();
    s.cursor = 0;
    s.vim_command("V");
    assert_eq!(s.vim_mode, VimMode::VisualLine);
    assert!(s.visual_anchor.is_some());
}

#[test]
fn visual_line_yank() {
    let mut s = PromptInputState::new();
    s.vim_mode = VimMode::Normal;
    s.text = "line one\nline two".to_string();
    s.cursor = 0;
    s.vim_command("V");
    s.vim_command("y");
    assert_eq!(s.vim_mode, VimMode::Normal);
    assert_eq!(s.yank_buf, "line one\n");
}

#[test]
fn visual_line_delete() {
    let mut s = PromptInputState::new();
    s.vim_mode = VimMode::Normal;
    s.text = "line one\nline two".to_string();
    s.cursor = 0;
    s.vim_command("V");
    s.vim_command("d");
    assert_eq!(s.vim_mode, VimMode::Normal);
    assert_eq!(s.text, "line two");
}

#[test]
fn visual_line_escape_returns_normal() {
    let mut s = PromptInputState::new();
    s.vim_mode = VimMode::Normal;
    s.text = "hello".to_string();
    s.vim_command("V");
    assert_eq!(s.vim_mode, VimMode::VisualLine);
    s.vim_command("Escape");
    assert_eq!(s.vim_mode, VimMode::Normal);
}

#[test]
fn command_line_mode_enter() {
    let mut s = PromptInputState::new();
    s.vim_mode = VimMode::Normal;
    s.vim_command(":");
    assert_eq!(s.vim_mode, VimMode::Command);
    assert!(s.vim_command_buf.is_empty());
}

#[test]
fn command_line_accumulates_chars() {
    let mut s = PromptInputState::new();
    s.vim_mode = VimMode::Normal;
    s.vim_command(":");
    s.vim_command("q");
    assert_eq!(s.vim_command_buf, "q");
    s.vim_command("!");
    assert_eq!(s.vim_command_buf, "q!");
}

#[test]
fn command_line_backspace_pops() {
    let mut s = PromptInputState::new();
    s.vim_mode = VimMode::Normal;
    s.vim_command(":");
    s.vim_command("q");
    s.vim_command("w");
    s.vim_command("Backspace");
    assert_eq!(s.vim_command_buf, "q");
}

#[test]
fn command_line_empty_backspace_cancels() {
    let mut s = PromptInputState::new();
    s.vim_mode = VimMode::Normal;
    s.vim_command(":");
    s.vim_command("Backspace");
    assert_eq!(s.vim_mode, VimMode::Normal);
}

#[test]
fn command_q_sets_quit_flag() {
    let mut s = PromptInputState::new();
    s.vim_mode = VimMode::Normal;
    s.vim_command(":");
    s.vim_command("q");
    s.vim_command("Enter");
    assert!(s.vim_quit_requested);
    assert_eq!(s.vim_mode, VimMode::Normal);
}

#[test]
fn command_noh_clears_search() {
    let mut s = PromptInputState::new();
    s.vim_search_last = Some("foo".to_string());
    s.vim_mode = VimMode::Normal;
    s.vim_command(":");
    for c in "noh".chars() {
        s.vim_command(&c.to_string());
    }
    s.vim_command("Enter");
    assert!(s.vim_search_last.is_none());
}

#[test]
fn command_escape_cancels() {
    let mut s = PromptInputState::new();
    s.vim_mode = VimMode::Normal;
    s.vim_command(":");
    s.vim_command("q");
    s.vim_command("Escape");
    assert_eq!(s.vim_mode, VimMode::Normal);
}

#[test]
fn search_mode_enter() {
    let mut s = PromptInputState::new();
    s.vim_mode = VimMode::Normal;
    s.vim_command("/");
    assert_eq!(s.vim_mode, VimMode::Search);
    assert!(s.vim_search_buf.is_empty());
}

#[test]
fn search_finds_match_and_moves_cursor() {
    let mut s = PromptInputState::new();
    s.vim_mode = VimMode::Normal;
    s.text = "hello world hello".to_string();
    s.cursor = 0;
    s.vim_command("/");
    for c in "world".chars() {
        s.vim_command(&c.to_string());
    }
    s.vim_command("Enter");
    assert_eq!(s.vim_mode, VimMode::Normal);
    assert_eq!(s.cursor, 6); // "world" starts at byte 6
    assert_eq!(s.vim_search_last.as_deref(), Some("world"));
}

#[test]
fn search_n_finds_next() {
    let mut s = PromptInputState::new();
    s.vim_mode = VimMode::Normal;
    s.text = "aa bb aa".to_string();
    s.cursor = 0;
    s.vim_command("/");
    s.vim_command("a");
    s.vim_command("a");
    s.vim_command("Enter");
    assert_eq!(s.cursor, 0); // first 'aa'
    s.vim_command("n");
    assert_eq!(s.cursor, 6); // second 'aa'
}

#[test]
fn search_N_finds_prev() {
    let mut s = PromptInputState::new();
    s.vim_mode = VimMode::Normal;
    s.text = "aa bb aa".to_string();
    s.cursor = 7; // at second 'aa'
    s.vim_search_last = Some("aa".to_string());
    s.vim_command("N");
    assert_eq!(s.cursor, 0); // wraps to first 'aa'
}

#[test]
fn search_escape_cancels() {
    let mut s = PromptInputState::new();
    s.vim_mode = VimMode::Normal;
    s.vim_command("/");
    s.vim_command("f");
    s.vim_command("Escape");
    assert_eq!(s.vim_mode, VimMode::Normal);
}

#[test]
fn vim_mode_new_labels() {
    assert_eq!(VimMode::VisualLine.label(), "VISUAL LINE");
    assert_eq!(VimMode::Command.label(), "COMMAND");
    assert_eq!(VimMode::Search.label(), "SEARCH");
}
