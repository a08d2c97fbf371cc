use pokedex_tui::prompt::{handle_paste, input_height, InputMode, PastedImage, PromptInputState};
use pokedex_tui::vim::{VimMode, VimPendingState};

fn normal(text: &str, cursor: usize) -> PromptInputState {
    let mut s = PromptInputState::new();
    s.vim_mode = VimMode::Normal;
    s.text = text.to_string();
    s.cursor = cursor;
    s
}

#[test]
fn insert_then_backspace_restores_text_and_cursor() {
    let mut s = PromptInputState::new();
    s.text = "añb".to_string();
    s.cursor = 3; // after 'ñ'
    s.insert_char('é');
    assert_eq!(s.text, "añéb");
    assert_eq!(s.cursor, 5);
    s.backspace();
    assert_eq!(s.text, "añb");
    assert_eq!(s.cursor, 3);
}

#[test]
fn history_round_trip_restores_draft() {
    let mut s = PromptInputState::new();
    s.text = "draft".to_string();
    s.cursor = 2;
    s.history = vec!["a".to_string(), "b".to_string(), "c".to_string()];
    s.history_up();
    s.history_up();
    assert_eq!(s.text, "b");
    s.history_down();
    assert_eq!(s.text, "c");
    s.history_up();
    assert_eq!(s.text, "b");
    s.history_down();
    s.history_down();
    assert_eq!(s.text, "draft");
    assert_eq!(s.cursor, 5);
    assert!(s.history_pos.is_none());
}

#[test]
fn history_up_stops_at_oldest() {
    let mut s = PromptInputState::new();
    s.history = vec!["a".to_string(), "b".to_string()];
    s.history_up();
    s.history_up();
    s.history_up();
    assert_eq!(s.text, "a");
    assert_eq!(s.history_pos, Some(0));
}

#[test]
fn normalize_moves_cursor_back_to_boundary() {
    let mut s = PromptInputState::new();
    s.text = "aé".to_string();
    s.cursor = 2; // inside 'é'
    s.normalize();
    assert_eq!(s.cursor, 1);
    s.normalize();
    assert_eq!(s.cursor, 1);
    s.cursor = 40;
    s.normalize();
    assert_eq!(s.cursor, 3);
    assert_eq!(s.token_estimate, 1);
}

#[test]
fn undo_after_modifying_key_restores_text() {
    let mut s = normal("hello world", 6);
    s.vim_command("d");
    s.vim_command("w");
    assert_eq!(s.text, "hello ");
    s.vim_command("u");
    assert_eq!(s.text, "hello world");
    assert_eq!(s.cursor, 6);
}

#[test]
fn undo_keeps_at_most_one_hundred_snapshots() {
    let mut s = PromptInputState::new();
    for _ in 0..120 {
        s.push_undo();
    }
    assert_eq!(s.undo_stack.len(), 100);
}

#[test]
fn register_read_after_write() {
    let mut s = PromptInputState::new();
    s.yank_to_register('a', "first");
    s.yank_to_register('b', "second");
    s.yank_to_register('a', "third");
    assert_eq!(s.paste_from_register('a'), Some("third".to_string()));
    assert_eq!(s.paste_from_register('b'), Some("second".to_string()));
}

#[test]
fn mark_round_trip_on_multibyte_text() {
    let mut s = PromptInputState::new();
    s.text = "ñaña".to_string();
    s.cursor = 3;
    s.set_mark('m');
    s.cursor = 0;
    s.jump_to_mark('m');
    assert_eq!(s.cursor, 3);
}

#[test]
fn mark_is_clamped_back_to_a_boundary() {
    let mut s = PromptInputState::new();
    s.text = "abcd".to_string();
    s.cursor = 2;
    s.set_mark('m');
    s.text = "éé".to_string();
    s.jump_to_mark('m');
    assert_eq!(s.cursor, 2);
    s.text = "xé".to_string();
    s.jump_to_mark('m');
    assert_eq!(s.cursor, 1);
}

#[test]
fn paste_exactly_at_limit_is_inline() {
    let mut counter = 7u32;
    let text = "y".repeat(1024);
    let (result, stored) = handle_paste(&text, &mut counter);
    assert_eq!(result, text);
    assert!(stored.is_none());
    assert_eq!(counter, 7);
}

#[test]
fn paste_long_single_line_placeholder() {
    let mut counter = 0u32;
    let text = "y".repeat(1025);
    let (result, stored) = handle_paste(&text, &mut counter);
    assert_eq!(result, "[Pasted text #1]");
    assert_eq!(stored, Some(text));
    let (second, _) = handle_paste(&"z".repeat(2000), &mut counter);
    assert_eq!(second, "[Pasted text #2]");
}

#[test]
fn paste_long_multiline_counts_lines() {
    let mut counter = 4u32;
    let text = "line\n".repeat(300);
    let (result, _) = handle_paste(&text, &mut counter);
    assert_eq!(result, "[Pasted text #5 (+300 lines)]");
    let text2 = format!("{}tail", "line\n".repeat(300));
    let (result2, _) = handle_paste(&text2, &mut counter);
    assert_eq!(result2, "[Pasted text #6 (+301 lines)]");
}

#[test]
fn paste_in_state_stores_long_content() {
    let mut s = PromptInputState::new();
    s.text = "ab".to_string();
    s.cursor = 1;
    let big = "q".repeat(1500);
    s.paste(&big);
    assert_eq!(s.text, "a[Pasted text #1]b");
    assert_eq!(s.cursor, 17);
    assert_eq!(s.paste_contents.get(&1), Some(&big));
    s.paste("xy");
    assert_eq!(s.text, "a[Pasted text #1]xyb");
}

#[test]
fn input_height_bounds() {
    let mut s = PromptInputState::new();
    assert_eq!(input_height(&s), 4);
    s.text = "a\nb".to_string();
    assert_eq!(input_height(&s), 5);
    s.text = "x\n".repeat(40);
    assert_eq!(input_height(&s), 12);
    s.pending_images.push(PastedImage { label: "img".to_string(), dimensions: Some((4, 3)) });
    assert_eq!(input_height(&s), 12);
    s.text = "a\nb".to_string();
    assert_eq!(input_height(&s), 6);
    s.text = "x\n".repeat(40);
    let taken = s.clear_images();
    assert_eq!(taken.len(), 1);
    assert_eq!(input_height(&s), 12);
}

#[test]
fn escape_from_any_mode_returns_to_normal() {
    let mut s = normal("abc", 1);
    s.vim_command("v");
    s.vim_command("2");
    s.vim_command("Escape");
    assert_eq!(s.vim_mode, VimMode::Normal);
    assert_eq!(s.vim_pending, VimPendingState::Idle);
    assert!(s.visual_anchor.is_none());
}

#[test]
fn insert_session_becomes_dot_repeat() {
    let mut s = normal("ab", 1);
    s.vim_command("A"); // append at end: insert mode, cursor at 2
    assert_eq!(s.vim_mode, VimMode::Insert);
    s.insert_char('x');
    s.insert_char('y');
    s.vim_command("Escape");
    assert_eq!(s.text, "abxy");
    s.cursor = 0;
    s.vim_command(".");
    assert_eq!(s.text, "xyabxy");
}

#[test]
fn readonly_blocks_editing() {
    let mut s = PromptInputState::new();
    s.text = "abc".to_string();
    s.cursor = 3;
    s.mode = InputMode::Readonly;
    s.backspace();
    s.cursor = 0;
    s.delete();
    s.insert_newline();
    assert_eq!(s.text, "abc");
}

#[test]
fn delete_at_end_is_noop() {
    let mut s = PromptInputState::new();
    s.text = "ab".to_string();
    s.cursor = 2;
    s.delete();
    assert_eq!(s.text, "ab");
    s.move_right();
    assert_eq!(s.cursor, 2);
    s.cursor = 0;
    s.move_left();
    assert_eq!(s.cursor, 0);
}

#[test]
fn nested_macro_replay() {
    let mut s = normal("abcdefgh", 0);
    s.vim_macro_content.insert('a', vec!["l".to_string()]);
    s.vim_macro_content.insert('b', vec!["@".to_string(), "a".to_string(), "@".to_string(), "a".to_string()]);
    s.vim_command("@");
    s.vim_command("b");
    assert_eq!(s.cursor, 2);
}

#[test]
fn macro_recording_of_unknown_register_is_not_stored() {
    let mut s = normal("abc", 0);
    s.vim_macro_recording = Some('z');
    s.vim_command("l");
    assert_eq!(s.cursor, 1);
    assert!(s.vim_macro_content.get(&'z').is_none());
}

#[test]
fn command_line_set_is_a_no_op() {
    let mut s = normal("", 0);
    s.vim_enabled = true;
    for k in [":", "s", "e", "t", " ", "n", "o", "v", "i", "m", " ", " "] {
        s.vim_command(k);
    }
    s.vim_command("Enter");
    assert!(s.vim_enabled);
    s.vim_enabled = false;
    for k in [":", " ", "s", "e", "t", " ", " ", "v", "i", "m"] {
        s.vim_command(k);
    }
    s.vim_command("Enter");
    assert!(!s.vim_enabled);
    assert!(!s.vim_quit_requested);
    for k in [":", "w", "q", "Enter"] {
        s.vim_command(k);
    }
    assert!(s.vim_quit_requested);
}

#[test]
fn command_line_ignores_non_ascii_keys() {
    let mut s = normal("", 0);
    s.vim_command(":");
    s.vim_command("é");
    s.vim_command("Tab");
    assert_eq!(s.vim_command_buf, "");
}

#[test]
fn search_is_case_insensitive_and_wraps() {
    let mut s = normal("Alpha beta ALPHA", 3);
    for k in ["/", "a", "l", "p", "h", "a", "Enter"] {
        s.vim_command(k);
    }
    assert_eq!(s.cursor, 11);
    s.vim_command("n");
    assert_eq!(s.cursor, 0);
    s.vim_command("N");
    assert_eq!(s.cursor, 11);
}

#[test]
fn search_without_match_keeps_cursor() {
    let mut s = normal("abc", 1);
    for k in ["/", "z", "Enter"] {
        s.vim_command(k);
    }
    assert_eq!(s.cursor, 1);
    assert_eq!(s.vim_search_last.as_deref(), Some("z"));
}

#[test]
fn visual_block_delete_and_change() {
    let mut s = normal("abcdef", 1);
    s.vim_command("\x16");
    assert_eq!(s.vim_mode, VimMode::VisualBlock);
    s.vim_command("l");
    s.vim_command("l");
    s.vim_command("x");
    assert_eq!(s.text, "aef");
    assert_eq!(s.yank_buf, "bcd");
    let mut c = normal("abcdef", 4);
    c.vim_command("v");
    c.vim_command("h");
    c.vim_command("c");
    assert_eq!(c.text, "abcf");
    assert_eq!(c.vim_mode, VimMode::Insert);
}

#[test]
fn register_put_after_cursor() {
    let mut s = normal("ab", 0);
    s.yank_to_register('r', "XY");
    s.vim_command("\"");
    s.vim_command("r");
    s.vim_command("p");
    assert_eq!(s.text, "aXYb");
    assert_eq!(s.cursor, 2);
}

#[test]
fn is_empty_unicode_whitespace() {
    let mut s = PromptInputState::new();
    s.text = "\u{3000}\t\u{a0}".to_string();
    assert!(s.is_empty());
}

#[test]
fn suggestion_prev_wraps_to_last() {
    let mut s = PromptInputState::new();
    let cmds = [("help", "Help"), ("history", "History")];
    s.text = "/H".to_string();
    s.update_suggestions(&cmds);
    assert_eq!(s.suggestion_index, Some(0));
    s.suggestion_prev();
    assert_eq!(s.suggestion_index, Some(1));
    s.accept_suggestion();
    assert_eq!(s.text, "/history");
    assert_eq!(s.cursor, 8);
    s.replace_text("new".to_string());
    assert_eq!(s.take(), "new");
}

#[test]
fn escape_cancels_macro_recording() {
    let mut s = normal("abc", 0);
    s.vim_command("q");
    s.vim_command("a");
    assert_eq!(s.vim_macro_recording, Some('a'));
    s.vim_command("l");
    s.vim_command("Escape");
    assert_eq!(s.vim_macro_recording, None);
    assert_eq!(s.vim_mode, VimMode::Normal);
    assert_eq!(s.cursor, 1);
}

#[test]
fn search_positions_are_boundaries_of_the_text() {
    // 'İ' lowercases to two characters, so offsets of the lowercased text
    // would not be offsets of the text.
    let mut s = normal("\u{130}\u{130}ab \u{130}ab", 0);
    s.vim_search_forward("AB", 0);
    assert_eq!(s.cursor, 4);
    s.vim_search_forward("ab", 1);
    assert_eq!(s.cursor, 9);
    s.vim_search_forward("ab", 1);
    assert_eq!(s.cursor, 4);
    s.vim_search_backward("ab");
    assert_eq!(s.cursor, 9);
    s.vim_search_backward("ab");
    assert_eq!(s.cursor, 4);
    s.vim_search_forward("zz", 0);
    assert_eq!(s.cursor, 4);
    assert!(s.text.is_char_boundary(s.cursor));
}

#[test]
fn macro_replaying_itself_stops() {
    let mut s = normal("abc", 0);
    s.vim_macro_content.insert('q', vec!["@".to_string(), "q".to_string()]);
    s.vim_command("@");
    s.vim_command("q");
    assert_eq!(s.text, "abc");
    assert_eq!(s.cursor, 0);
    assert_eq!(s.vim_pending, VimPendingState::Idle);
}

#[test]
fn macro_replaying_itself_after_a_move() {
    let mut s = normal("abcdef", 0);
    s.vim_macro_content.insert('q', vec!["l".to_string(), "@".to_string(), "q".to_string(), "l".to_string()]);
    s.vim_command("@");
    s.vim_command("q");
    assert_eq!(s.cursor, 2);
}

#[test]
fn escape_from_insert_with_cursor_before_the_insert_start() {
    let mut s = normal("abcdef", 1);
    s.vim_mode = VimMode::Insert;
    s.vim_insert_text_before = Some("abcd".to_string());
    s.vim_command("Escape");
    assert_eq!(s.vim_mode, VimMode::Normal);
    assert_eq!(s.text, "abcdef");
    assert_eq!(s.cursor, 1);
    assert!(s.vim_insert_text_before.is_none());
}
