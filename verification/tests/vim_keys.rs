#![allow(non_snake_case)]
use pokedex_tui::motions::{
    motion_B, motion_E, motion_G, motion_W, motion_b, motion_e, motion_find_char,
    motion_first_nonblank, motion_gg, motion_w, VimFindKind,
};
use pokedex_tui::vim::{apply_vim_key, VimMode, VimOperator, VimPendingState};
use pokedex_tui::vim_basic::apply_vim_command;

// ---- VimMode --------------------------------------------------------

#[test]
fn vim_mode_labels() {
    assert_eq!(VimMode::Insert.label(), "INSERT");
    assert_eq!(VimMode::Normal.label(), "NORMAL");
    assert_eq!(VimMode::Visual.label(), "VISUAL");
}

#[test]
fn vim_insert_to_normal_via_escape() {
    let mut mode = VimMode::Insert;
    let mut text = "hello".to_string();
    let mut cursor = 3;
    let mut yank = String::new();
    apply_vim_command(&mut mode, &mut text, &mut cursor, "Escape", &mut yank);
    assert_eq!(mode, VimMode::Normal);
}

#[test]
fn vim_normal_i_enters_insert() {
    let mut mode = VimMode::Normal;
    let mut text = "hello".to_string();
    let mut cursor = 0;
    let mut yank = String::new();
    apply_vim_command(&mut mode, &mut text, &mut cursor, "i", &mut yank);
    assert_eq!(mode, VimMode::Insert);
    assert_eq!(cursor, 0);
}

#[test]
fn vim_normal_a_goes_to_end() {
    let mut mode = VimMode::Normal;
    let mut text = "hello".to_string();
    let mut cursor = 0;
    let mut yank = String::new();
    apply_vim_command(&mut mode, &mut text, &mut cursor, "A", &mut yank);
    assert_eq!(mode, VimMode::Insert);
    assert_eq!(cursor, 5);
}

#[test]
fn vim_h_moves_left() {
    let mut mode = VimMode::Normal;
    let mut text = "hello".to_string();
    let mut cursor = 3;
    let mut yank = String::new();
    apply_vim_command(&mut mode, &mut text, &mut cursor, "h", &mut yank);
    assert_eq!(cursor, 2);
}

#[test]
fn vim_l_moves_right() {
    let mut mode = VimMode::Normal;
    let mut text = "hello".to_string();
    let mut cursor = 2;
    let mut yank = String::new();
    apply_vim_command(&mut mode, &mut text, &mut cursor, "l", &mut yank);
    assert_eq!(cursor, 3);
}

#[test]
fn vim_dollar_goes_to_end() {
    let mut mode = VimMode::Normal;
    let mut text = "hello".to_string();
    let mut cursor = 0;
    let mut yank = String::new();
    apply_vim_command(&mut mode, &mut text, &mut cursor, "$", &mut yank);
    assert_eq!(cursor, 5);
}

#[test]
fn vim_zero_goes_to_start() {
    let mut mode = VimMode::Normal;
    let mut text = "hello".to_string();
    let mut cursor = 4;
    let mut yank = String::new();
    apply_vim_command(&mut mode, &mut text, &mut cursor, "0", &mut yank);
    assert_eq!(cursor, 0);
}

#[test]
fn vim_x_deletes_char() {
    let mut mode = VimMode::Normal;
    let mut text = "hello".to_string();
    let mut cursor = 1;
    let mut yank = String::new();
    apply_vim_command(&mut mode, &mut text, &mut cursor, "x", &mut yank);
    assert_eq!(text, "hllo");
    assert_eq!(yank, "e");
}

#[test]
fn vim_dd_clears_text() {
    let mut mode = VimMode::Normal;
    let mut text = "hello world".to_string();
    let mut cursor = 3;
    let mut yank = String::new();
    apply_vim_command(&mut mode, &mut text, &mut cursor, "dd", &mut yank);
    assert!(text.is_empty());
    assert_eq!(cursor, 0);
    assert_eq!(yank, "hello world");
}

#[test]
fn vim_yy_copies_text() {
    let mut mode = VimMode::Normal;
    let mut text = "hello".to_string();
    let mut cursor = 0;
    let mut yank = String::new();
    apply_vim_command(&mut mode, &mut text, &mut cursor, "yy", &mut yank);
    assert_eq!(yank, "hello");
    assert_eq!(text, "hello"); // unchanged
}

#[test]
fn vim_p_pastes_after_cursor() {
    let mut mode = VimMode::Normal;
    let mut text = "ab".to_string();
    let mut cursor = 0;
    let mut yank = "XY".to_string();
    apply_vim_command(&mut mode, &mut text, &mut cursor, "p", &mut yank);
    assert_eq!(text, "aXYb");
}

// ---- motion_w / motion_b -----------------------------------------------

#[test]
fn motion_w_basic() {
    assert_eq!(motion_w("hello world", 0), 6);
    assert_eq!(motion_w("hello world", 6), 11); // at start of 'world', moves to end
    assert_eq!(motion_w("  foo", 0), 2);         // skip leading spaces
}

#[test]
fn motion_b_basic() {
    assert_eq!(motion_b("hello world", 6), 0); // 'w' â†’ start of 'hello'
    assert_eq!(motion_b("hello world", 0), 0); // already at start
}

#[test]
fn motion_e_basic() {
    assert_eq!(motion_e("hello world", 0), 4);  // cursor on 'h', end at 'o'
    assert_eq!(motion_e("hello world", 4), 10); // at 'o' (end), jump to 'd'
}

#[test]
fn motion_W_B_basic() {
    // "foo.bar baz"  W from 0 â†’ 8 ('b' of 'baz')
    assert_eq!(motion_W("foo.bar baz", 0), 8);
    assert_eq!(motion_B("foo.bar baz", 8), 0);
}

#[test]
fn motion_E_basic() {
    assert_eq!(motion_E("foo.bar baz", 0), 6); // end of 'foo.bar' WORD
}

#[test]
fn motion_first_nonblank_basic() {
    assert_eq!(motion_first_nonblank("  hello", 0), 2);
    assert_eq!(motion_first_nonblank("hello", 0), 0);
}

#[test]
fn motion_G_basic() {
    assert_eq!(motion_G("foo\nbar"), 4);
    assert_eq!(motion_G("single line"), 0);
}

#[test]
fn motion_gg_basic() {
    assert_eq!(motion_gg("foo\nbar\nbaz", 1), 0);
    assert_eq!(motion_gg("foo\nbar\nbaz", 2), 4);
    assert_eq!(motion_gg("foo\nbar\nbaz", 3), 8);
}

#[test]
fn motion_find_char_f() {
    // f: cursor lands on 'o', count=1
    assert_eq!(motion_find_char("hello", 0, 'o', VimFindKind::F, 1), Some(4));
    // f: not found
    assert_eq!(motion_find_char("hello", 0, 'z', VimFindKind::F, 1), None);
}

#[test]
fn motion_find_char_t() {
    // t: cursor stops before 'o'
    assert_eq!(motion_find_char("hello", 0, 'o', VimFindKind::T, 1), Some(3));
}

#[test]
fn motion_find_char_bigF() {
    // F: search backward
    assert_eq!(motion_find_char("hello", 4, 'h', VimFindKind::BigF, 1), Some(0));
}

// ---- apply_vim_key new commands ----------------------------------------

#[test]
fn vim_key_e_motion() {
    let mut mode = VimMode::Normal;
    let mut text = "hello world".to_string();
    let mut cursor = 0usize;
    let mut yank = String::new();
    let mut pending = VimPendingState::Idle;
    let mut last_find = None;
    apply_vim_key(&mut mode, &mut text, &mut cursor, "e", &mut yank, &mut pending, &mut last_find);
    assert_eq!(cursor, 4); // end of 'hello'
}

#[test]
fn vim_key_W_motion() {
    let mut mode = VimMode::Normal;
    let mut text = "foo.bar baz".to_string();
    let mut cursor = 0usize;
    let mut yank = String::new();
    let mut pending = VimPendingState::Idle;
    let mut last_find = None;
    apply_vim_key(&mut mode, &mut text, &mut cursor, "W", &mut yank, &mut pending, &mut last_find);
    assert_eq!(cursor, 8); // 'baz'
}

#[test]
fn vim_key_G_last_line() {
    let mut mode = VimMode::Normal;
    let mut text = "first\nsecond\nthird".to_string();
    let mut cursor = 0usize;
    let mut yank = String::new();
    let mut pending = VimPendingState::Idle;
    let mut last_find = None;
    apply_vim_key(&mut mode, &mut text, &mut cursor, "G", &mut yank, &mut pending, &mut last_find);
    assert_eq!(cursor, 13); // start of 'third'
}

#[test]
fn vim_key_gg_first_line() {
    let mut mode = VimMode::Normal;
    let mut text = "first\nsecond".to_string();
    let mut cursor = 6usize;
    let mut yank = String::new();
    let mut pending = VimPendingState::Idle;
    let mut last_find = None;
    // 'g' sets pending G
    apply_vim_key(&mut mode, &mut text, &mut cursor, "g", &mut yank, &mut pending, &mut last_find);
    assert!(matches!(pending, VimPendingState::G { .. }));
    apply_vim_key(&mut mode, &mut text, &mut cursor, "g", &mut yank, &mut pending, &mut last_find);
    assert_eq!(cursor, 0);
}

#[test]
fn vim_key_count_motion() {
    let mut mode = VimMode::Normal;
    let mut text = "a b c d e".to_string();
    let mut cursor = 0usize;
    let mut yank = String::new();
    let mut pending = VimPendingState::Idle;
    let mut last_find = None;
    // 3w — advance 3 words
    apply_vim_key(&mut mode, &mut text, &mut cursor, "3", &mut yank, &mut pending, &mut last_find);
    assert!(matches!(pending, VimPendingState::Count { .. }));
    apply_vim_key(&mut mode, &mut text, &mut cursor, "w", &mut yank, &mut pending, &mut last_find);
    assert_eq!(cursor, 6); // 3 words forward: aâ†’bâ†’câ†’d start = pos 6
}

#[test]
fn vim_key_dw_delete_word() {
    let mut mode = VimMode::Normal;
    let mut text = "hello world".to_string();
    let mut cursor = 0usize;
    let mut yank = String::new();
    let mut pending = VimPendingState::Idle;
    let mut last_find = None;
    apply_vim_key(&mut mode, &mut text, &mut cursor, "d", &mut yank, &mut pending, &mut last_find);
    assert!(matches!(pending, VimPendingState::Operator { op: VimOperator::Delete, .. }));
    apply_vim_key(&mut mode, &mut text, &mut cursor, "w", &mut yank, &mut pending, &mut last_find);
    assert_eq!(text, "world");
    assert_eq!(yank, "hello ");
}

#[test]
fn vim_key_cw_change_word_enters_insert() {
    let mut mode = VimMode::Normal;
    let mut text = "hello world".to_string();
    let mut cursor = 0usize;
    let mut yank = String::new();
    let mut pending = VimPendingState::Idle;
    let mut last_find = None;
    apply_vim_key(&mut mode, &mut text, &mut cursor, "c", &mut yank, &mut pending, &mut last_find);
    apply_vim_key(&mut mode, &mut text, &mut cursor, "w", &mut yank, &mut pending, &mut last_find);
    assert_eq!(mode, VimMode::Insert);
    assert_eq!(text, "world");
}

#[test]
fn vim_key_dd_deletes_line() {
    let mut mode = VimMode::Normal;
    let mut text = "first\nsecond".to_string();
    let mut cursor = 0usize;
    let mut yank = String::new();
    let mut pending = VimPendingState::Idle;
    let mut last_find = None;
    apply_vim_key(&mut mode, &mut text, &mut cursor, "d", &mut yank, &mut pending, &mut last_find);
    apply_vim_key(&mut mode, &mut text, &mut cursor, "d", &mut yank, &mut pending, &mut last_find);
    assert_eq!(text, "second");
    assert_eq!(yank, "first\n");
}

#[test]
fn vim_key_r_replace_char() {
    let mut mode = VimMode::Normal;
    let mut text = "hello".to_string();
    let mut cursor = 0usize;
    let mut yank = String::new();
    let mut pending = VimPendingState::Idle;
    let mut last_find = None;
    apply_vim_key(&mut mode, &mut text, &mut cursor, "r", &mut yank, &mut pending, &mut last_find);
    assert!(matches!(pending, VimPendingState::Replace { .. }));
    apply_vim_key(&mut mode, &mut text, &mut cursor, "H", &mut yank, &mut pending, &mut last_find);
    assert_eq!(text, "Hello");
    assert_eq!(mode, VimMode::Normal); // stays in Normal after replace
}

#[test]
fn vim_key_find_f() {
    let mut mode = VimMode::Normal;
    let mut text = "hello world".to_string();
    let mut cursor = 0usize;
    let mut yank = String::new();
    let mut pending = VimPendingState::Idle;
    let mut last_find = None;
    apply_vim_key(&mut mode, &mut text, &mut cursor, "f", &mut yank, &mut pending, &mut last_find);
    apply_vim_key(&mut mode, &mut text, &mut cursor, "o", &mut yank, &mut pending, &mut last_find);
    assert_eq!(cursor, 4); // first 'o' in 'hello'
    assert_eq!(last_find, Some((VimFindKind::F, 'o')));
}

#[test]
fn vim_key_semicolon_repeat_find() {
    let mut mode = VimMode::Normal;
    let mut text = "a.b.c".to_string();
    let mut cursor = 0usize;
    let mut yank = String::new();
    let mut pending = VimPendingState::Idle;
    let mut last_find = None;
    apply_vim_key(&mut mode, &mut text, &mut cursor, "f", &mut yank, &mut pending, &mut last_find);
    apply_vim_key(&mut mode, &mut text, &mut cursor, ".", &mut yank, &mut pending, &mut last_find);
    assert_eq!(cursor, 1);
    apply_vim_key(&mut mode, &mut text, &mut cursor, ";", &mut yank, &mut pending, &mut last_find);
    assert_eq!(cursor, 3); // repeated find â†’ next '.'
}

#[test]
fn vim_key_X_delete_before_cursor() {
    let mut mode = VimMode::Normal;
    let mut text = "hello".to_string();
    let mut cursor = 4usize;
    let mut yank = String::new();
    let mut pending = VimPendingState::Idle;
    let mut last_find = None;
    apply_vim_key(&mut mode, &mut text, &mut cursor, "X", &mut yank, &mut pending, &mut last_find);
    assert_eq!(text, "helo");
    assert_eq!(cursor, 3);
}

#[test]
fn vim_key_tilde_toggle_case() {
    let mut mode = VimMode::Normal;
    let mut text = "hello".to_string();
    let mut cursor = 0usize;
    let mut yank = String::new();
    let mut pending = VimPendingState::Idle;
    let mut last_find = None;
    apply_vim_key(&mut mode, &mut text, &mut cursor, "~", &mut yank, &mut pending, &mut last_find);
    assert_eq!(text, "Hello");
}

#[test]
fn vim_key_o_open_line_below() {
    let mut mode = VimMode::Normal;
    let mut text = "first\nthird".to_string();
    let mut cursor = 0usize;
    let mut yank = String::new();
    let mut pending = VimPendingState::Idle;
    let mut last_find = None;
    apply_vim_key(&mut mode, &mut text, &mut cursor, "o", &mut yank, &mut pending, &mut last_find);
    assert_eq!(mode, VimMode::Insert);
    assert!(text.contains('\n'));
    assert_eq!(cursor, 6); // after first newline
}

#[test]
fn vim_key_D_delete_to_eol() {
    let mut mode = VimMode::Normal;
    let mut text = "hello world".to_string();
    let mut cursor = 6usize;
    let mut yank = String::new();
    let mut pending = VimPendingState::Idle;
    let mut last_find = None;
    apply_vim_key(&mut mode, &mut text, &mut cursor, "D", &mut yank, &mut pending, &mut last_find);
    assert_eq!(text, "hello ");
    assert_eq!(yank, "world");
}


#[test]
fn basic_command_e_moves_to_word_end() {
    let mut mode = VimMode::Normal;
    let mut text = "hello world".to_string();
    let mut cursor = 0usize;
    let mut yank = String::new();
    apply_vim_command(&mut mode, &mut text, &mut cursor, "e", &mut yank);
    assert_eq!(cursor, 4);
    assert_eq!(text, "hello world");
    assert_eq!(mode, VimMode::Normal);
    apply_vim_command(&mut mode, &mut text, &mut cursor, "e", &mut yank);
    assert_eq!(cursor, 10);
}

#[test]
fn basic_command_j_k_move_between_lines() {
    let mut mode = VimMode::Normal;
    let mut text = "abcd\nxy\nlonger".to_string();
    let mut cursor = 3usize; // 'd' on the first line
    let mut yank = String::new();
    apply_vim_command(&mut mode, &mut text, &mut cursor, "j", &mut yank);
    assert_eq!(cursor, 7); // end of "xy" (shorter line)
    apply_vim_command(&mut mode, &mut text, &mut cursor, "j", &mut yank);
    assert_eq!(cursor, 10); // column 2 of "longer"
    apply_vim_command(&mut mode, &mut text, &mut cursor, "j", &mut yank);
    assert_eq!(cursor, 10); // last line: stays
    apply_vim_command(&mut mode, &mut text, &mut cursor, "k", &mut yank);
    assert_eq!(cursor, 7);
    apply_vim_command(&mut mode, &mut text, &mut cursor, "k", &mut yank);
    assert_eq!(cursor, 2);
    apply_vim_command(&mut mode, &mut text, &mut cursor, "k", &mut yank);
    assert_eq!(cursor, 2); // first line: stays
}

#[test]
fn apply_vim_key_reports_text_changes() {
    for key in ["x", "X", "~", "p", "w", "l", "D"] {
        let mut mode = VimMode::Normal;
        let mut text = "hello world".to_string();
        let before = text.clone();
        let mut cursor = 2usize;
        let mut yank = "yy".to_string();
        let mut pending = VimPendingState::Idle;
        let mut last_find: Option<(VimFindKind, char)> = None;
        let modified = apply_vim_key(&mut mode, &mut text, &mut cursor, key, &mut yank, &mut pending, &mut last_find);
        if text != before {
            assert!(modified, "key {key} changed the text without reporting it");
        }
    }
}
