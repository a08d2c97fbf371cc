//! `PromptInputState::vim_command`: one key press of the prompt in vim mode.
//!
//! The key is handled in this order: `Escape`; the `:` command line; the `/`
//! search line; macro recording; the pending register, mark and macro
//! commands; dot-repeat, undo and the mode switches; the visual selections;
//! and finally the key state machine of `apply_vim_key`.
//!
//! Replaying a macro runs `vim_command` on each recorded key, and a macro can
//! replay macros, so the specification `cmd` carries a `fuel` bound on the
//! replay depth; `cmd` is `None` when a key would slice the text off a
//! character boundary or when the replays nest deeper than the fuel.
use vstd::prelude::*;
use crate::motions::{line_start, line_start_index};
use crate::prompt::{checked_backward_spec, checked_forward_spec, cmdline_spec, normalized, push_snapshot, push_undo_spec, trim, trim_chars, jump_to_mark_spec, DotRepeatAction, DotView, PromptInputState, PromptView, UNDO_LIMIT};
use crate::text::{check_boundary, byte_len, byte_offset, byte_to_index, char_index, chars_of, cut, cut_vec, index_to_byte, is_boundary, lemma_char_index, lemma_offset_bound, lemma_offset_full, slice_vec, splice, splice_vec, str_is, string_of, utf8_len, vec_eq};
use crate::vim::{apply_vim_key, ascii_key, key1, key_ok, key_spec, line_end_incl, line_end_incl_index, room, PendingView, VimMode, VimPendingState};

verus! {

// ---------------------------------------------------------------------------
// Specification
// ---------------------------------------------------------------------------

/// The outcome of one key before any macro replay: a new state, a slice off a
/// character boundary, or a macro to replay (the state, the register, the keys).
pub ghost enum Step {
    Done(PromptView),
    Fail,
    Replay(PromptView, char, Seq<Seq<char>>),
}

pub open spec fn opt_step(o: Option<PromptView>) -> Step {
    match o {
        Some(w) => Step::Done(w),
        None => Step::Fail,
    }
}

/// Leaving insert mode: the text typed since insert mode was entered (from
/// the length of the text at entry up to the cursor) becomes the dot-repeat
/// action when it is not empty. When that range is empty or reversed, or
/// does not fall on character boundaries, no text is recorded.
pub open spec fn finish_insert(v: PromptView) -> Option<PromptView> {
    if v.vim_mode == VimMode::Insert && v.vim_insert_text_before is Some {
        let lt = utf8_len(v.text);
        let lb = utf8_len(v.vim_insert_text_before.unwrap());
        if lt >= lb {
            let b = if v.cursor <= lt {
                v.cursor as int
            } else {
                lt as int
            };
            if lb <= b && is_boundary(v.text, lb as int) && is_boundary(v.text, b) {
                let ins = v.text.subrange(char_index(v.text, lb as int), char_index(v.text, b));
                Some(
                    PromptView {
                        vim_insert_text_before: None,
                        vim_dot_action: if ins.len() > 0 {
                            Some(DotView::Insert(ins, false))
                        } else {
                            v.vim_dot_action
                        },
                        ..v
                    },
                )
            } else {
                Some(PromptView { vim_insert_text_before: None, ..v })
            }
        } else {
            Some(PromptView { vim_insert_text_before: None, ..v })
        }
    } else {
        Some(v)
    }
}

/// `Escape`: back to normal mode with nothing pending, no selection and no
/// macro being recorded.
pub open spec fn escape_spec(v: PromptView) -> Option<PromptView> {
    match finish_insert(v) {
        Some(w) => Some(
            normalized(
                PromptView {
                    vim_mode: VimMode::Normal,
                    vim_pending: PendingView::Idle,
                    visual_anchor: None,
                    vim_macro_recording: None,
                    ..w
                },
            ),
        ),
        None => None,
    }
}

/// A key in `:` command-line mode: `Backspace` edits (or leaves on an empty
/// line), `Enter` runs the trimmed line, an ASCII key is typed.
pub open spec fn command_mode_spec(v: PromptView, k: Seq<char>) -> PromptView {
    if k == "Backspace"@ {
        if v.vim_command_buf.len() == 0 {
            PromptView { vim_mode: VimMode::Normal, ..v }
        } else {
            PromptView { vim_command_buf: v.vim_command_buf.drop_last(), ..v }
        }
    } else if k == "Enter"@ {
        cmdline_spec(
            PromptView { vim_command_buf: Seq::empty(), vim_mode: VimMode::Normal, ..v },
            trim(v.vim_command_buf),
        )
    } else if ascii_key(k) {
        PromptView { vim_command_buf: v.vim_command_buf.push(k[0]), ..v }
    } else {
        v
    }
}

/// A key in `/` search mode: `Backspace` edits (or leaves on an empty line),
/// `Enter` searches forward for the line and remembers it, an ASCII key is typed.
pub open spec fn search_mode_spec(v: PromptView, k: Seq<char>) -> PromptView {
    if k == "Backspace"@ {
        if v.vim_search_buf.len() == 0 {
            PromptView { vim_mode: VimMode::Normal, ..v }
        } else {
            PromptView { vim_search_buf: v.vim_search_buf.drop_last(), ..v }
        }
    } else if k == "Enter"@ {
        let pat = v.vim_search_buf;
        let w = if pat.len() > 0 {
            checked_forward_spec(PromptView { vim_search_last: Some(pat), ..v }, pat, 0)
        } else {
            v
        };
        PromptView { vim_search_buf: Seq::empty(), vim_mode: VimMode::Normal, ..w }
    } else if ascii_key(k) {
        PromptView { vim_search_buf: v.vim_search_buf.push(k[0]), ..v }
    } else {
        v
    }
}

/// `q` in normal mode with nothing pending ends a recording.
pub open spec fn stops_recording(v: PromptView, k: Seq<char>) -> bool {
    &&& v.vim_macro_recording is Some
    &&& k == seq!['q']
    &&& v.vim_mode == VimMode::Normal
    &&& v.vim_pending == PendingView::Idle
}

/// While recording, the key is appended to the recorded register's keys.
pub open spec fn recorded(v: PromptView, k: Seq<char>) -> PromptView {
    match v.vim_macro_recording {
        Some(reg) => if v.vim_macro_content.contains_key(reg) {
            PromptView {
                vim_macro_content: v.vim_macro_content.insert(reg, v.vim_macro_content[reg].push(k)),
                ..v
            }
        } else {
            v
        },
        None => v,
    }
}

/// The keys recorded in `reg`, or none.
pub open spec fn macro_keys(v: PromptView, reg: char) -> Seq<Seq<char>> {
    if v.vim_macro_content.contains_key(reg) {
        v.vim_macro_content[reg]
    } else {
        Seq::empty()
    }
}

/// Byte offsets of the start and the end (past its `'\n'`) of the cursor's line.
pub open spec fn cursor_line(v: PromptView) -> (int, int) {
    let i = char_index(v.text, v.cursor as int);
    (line_start(v.text, i), line_end_incl(v.text, i))
}

/// `"<reg>` then `y`, `d` or `p`: yank the cursor's line into the register,
/// delete it into the register, or put the register after the cursor.
pub open spec fn register_op_spec(v: PromptView, reg: char, k: Seq<char>) -> Option<PromptView> {
    let idle = PromptView { vim_pending: PendingView::Idle, ..v };
    if k == seq!['y'] || k == seq!['d'] {
        if !is_boundary(v.text, v.cursor as int) {
            None
        } else {
            let (s, e) = cursor_line(v);
            let y = v.text.subrange(s, e);
            if k == seq!['y'] {
                Some(
                    PromptView {
                        vim_registers: v.vim_registers.insert(reg, y),
                        yank_buf: y,
                        ..idle
                    },
                )
            } else {
                Some(
                    normalized(
                        PromptView {
                            vim_registers: v.vim_registers.insert(reg, y),
                            yank_buf: y,
                            text: cut(v.text, s, e),
                            cursor: byte_offset(v.text, s) as usize,
                            ..push_undo_spec(idle)
                        },
                    ),
                )
            }
        }
    } else if k == seq!['p'] && v.vim_registers.contains_key(reg) {
        let buf = v.vim_registers[reg];
        let at_text = v.cursor < utf8_len(v.text);
        if at_text && !is_boundary(v.text, v.cursor as int) {
            None
        } else {
            let ip = if at_text {
                char_index(v.text, v.cursor as int) + 1
            } else {
                v.text.len() as int
            };
            let end = byte_offset(v.text, ip) + utf8_len(buf);
            Some(
                normalized(
                    PromptView {
                        text: splice(v.text, ip, buf),
                        cursor: if end >= 1 {
                            (end - 1) as usize
                        } else {
                            0
                        },
                        ..push_undo_spec(idle)
                    },
                ),
            )
        }
    } else {
        Some(idle)
    }
}

/// Insert `ins` at the cursor, which moves past it.
pub open spec fn insert_at_cursor(v: PromptView, ins: Seq<char>) -> Option<PromptView> {
    if !is_boundary(v.text, v.cursor as int) {
        None
    } else {
        Some(
            normalized(
                PromptView {
                    text: splice(v.text, char_index(v.text, v.cursor as int), ins),
                    cursor: (v.cursor + utf8_len(ins)) as usize,
                    ..push_undo_spec(v)
                },
            ),
        )
    }
}

/// `.`: replay the last modifying action at the cursor.
pub open spec fn dot_spec(v: PromptView) -> Option<PromptView> {
    let at_text = v.cursor < utf8_len(v.text);
    match v.vim_dot_action {
        None => Some(v),
        Some(DotView::Insert(ins, _)) => insert_at_cursor(v, ins),
        Some(DotView::Change(_, ins)) => insert_at_cursor(v, ins),
        Some(DotView::DeleteChars(n)) => if n > 0 && at_text && !is_boundary(v.text, v.cursor as int) {
            None
        } else {
            let t = if n > 0 && at_text {
                let i = char_index(v.text, v.cursor as int);
                cut(
                    v.text,
                    i,
                    if i + n <= v.text.len() {
                        i + n
                    } else {
                        v.text.len() as int
                    },
                )
            } else {
                v.text
            };
            Some(normalized(PromptView { text: t, ..push_undo_spec(v) }))
        },
        Some(DotView::ReplaceChar(ch)) => if !at_text {
            Some(v)
        } else if !is_boundary(v.text, v.cursor as int) {
            None
        } else {
            Some(
                normalized(
                    PromptView {
                        text: v.text.update(char_index(v.text, v.cursor as int), ch),
                        ..push_undo_spec(v)
                    },
                ),
            )
        },
    }
}

/// `u`: restore the last undo snapshot.
pub open spec fn undo_spec(v: PromptView) -> PromptView {
    if v.undo_stack.len() > 0 {
        let (t, c) = v.undo_stack.last();
        normalized(PromptView { text: t, cursor: c, undo_stack: v.undo_stack.drop_last(), ..v })
    } else {
        v
    }
}

/// `y`, `d`/`x` or `c` on the selection of characters `[s, e)`; the cursor
/// goes to `cur`, the selection's start.
pub open spec fn selection_op(v: PromptView, k: Seq<char>, s: int, e: int, cur: int) -> PromptView {
    let y = v.text.subrange(s, e);
    if k == seq!['y'] {
        PromptView {
            yank_buf: y,
            cursor: cur as usize,
            vim_mode: VimMode::Normal,
            visual_anchor: None,
            ..v
        }
    } else if k == seq!['c'] {
        let t = cut(v.text, s, e);
        normalized(
            PromptView {
                yank_buf: y,
                text: t,
                cursor: cur as usize,
                vim_mode: VimMode::Insert,
                visual_anchor: None,
                vim_insert_text_before: Some(t),
                ..push_undo_spec(v)
            },
        )
    } else {
        normalized(
            PromptView {
                yank_buf: y,
                text: cut(v.text, s, e),
                cursor: cur as usize,
                vim_mode: VimMode::Normal,
                visual_anchor: None,
                vim_dot_action: Some(DotView::DeleteChars((e - s) as usize)),
                ..push_undo_spec(v)
            },
        )
    }
}

pub open spec fn selection_key(k: Seq<char>) -> bool {
    k == seq!['y'] || k == seq!['d'] || k == seq!['x'] || k == seq!['c']
}

pub open spec fn min_usize(a: usize, b: usize) -> usize {
    if a <= b {
        a
    } else {
        b
    }
}

pub open spec fn max_usize(a: usize, b: usize) -> usize {
    if a <= b {
        b
    } else {
        a
    }
}

/// The visual modes: `y`, `d`/`x` and `c` act on the selection between the
/// anchor and the cursor (whole lines in linewise mode, through the
/// character under the later end otherwise); other keys go on to
/// `apply_spec`.
pub open spec fn visual_spec(v: PromptView, k: Seq<char>) -> Option<PromptView> {
    match v.visual_anchor {
        Some(a) => {
            let lo = min_usize(a, v.cursor);
            let hi = max_usize(a, v.cursor);
            if v.vim_mode == VimMode::VisualLine {
                if !(is_boundary(v.text, lo as int) && is_boundary(v.text, hi as int)) {
                    None
                } else if selection_key(k) {
                    let s = line_start(v.text, char_index(v.text, lo as int));
                    let e = line_end_incl(v.text, char_index(v.text, hi as int));
                    Some(selection_op(v, k, s, e, byte_offset(v.text, s) as int))
                } else {
                    apply_spec(v, k)
                }
            } else if v.vim_mode == VimMode::VisualBlock || v.vim_mode == VimMode::Visual {
                if !is_boundary(v.text, hi as int) {
                    None
                } else if selection_key(k) {
                    if !is_boundary(v.text, lo as int) {
                        None
                    } else {
                        let j = char_index(v.text, hi as int);
                        let e = if j < v.text.len() {
                            j + 1
                        } else {
                            v.text.len() as int
                        };
                        Some(selection_op(v, k, char_index(v.text, lo as int), e, lo as int))
                    }
                } else {
                    apply_spec(v, k)
                }
            } else {
                apply_spec(v, k)
            }
        },
        None => apply_spec(v, k),
    }
}

/// After a modifying normal-mode key that kept the byte length but changed
/// the text, a replacement at the old cursor becomes the dot-repeat action.
pub open spec fn replace_check(v: PromptView, t: Seq<char>, idle: bool, modified: bool) -> bool {
    &&& idle
    &&& modified
    &&& v.vim_mode == VimMode::Normal
    &&& utf8_len(t) == utf8_len(v.text)
    &&& t != v.text
}

/// Any other key: the key state machine (`key_spec`), then an undo snapshot
/// of a modified text, dot-repeat bookkeeping, and a normalized cursor.
pub open spec fn apply_spec(v: PromptView, k: Seq<char>) -> Option<PromptView> {
    if !(key_ok(v.text, v.cursor as int, k, v.vim_pending) && room(v.text, v.yank_buf)) {
        None
    } else {
        let was_normal = v.vim_mode == VimMode::Normal;
        let o = key_spec(v.vim_mode, v.text, v.cursor as int, k, v.yank_buf, v.vim_pending, v.last_find);
        let w1 = PromptView {
            vim_mode: o.mode,
            text: o.text,
            cursor: o.cursor as usize,
            yank_buf: o.yank,
            vim_pending: o.pending,
            last_find: o.last_find,
            ..v
        };
        let w2 = if o.modified {
            PromptView {
                undo_stack: push_snapshot(v.undo_stack, v.text, v.cursor),
                vim_dot_action: if was_normal && (k == seq!['x'] || k == seq!['X']) {
                    Some(DotView::DeleteChars(1))
                } else {
                    v.vim_dot_action
                },
                ..w1
            }
        } else {
            w1
        };
        let w3 = if was_normal && o.mode == VimMode::Insert {
            PromptView { vim_insert_text_before: Some(o.text), ..w2 }
        } else {
            w2
        };
        let rc = replace_check(v, o.text, o.pending == PendingView::Idle, o.modified);
        if rc && !is_boundary(o.text, v.cursor as int) {
            None
        } else {
            let j = char_index(o.text, v.cursor as int);
            let i0 = char_index(v.text, v.cursor as int);
            let w4 = if rc && j < o.text.len() && !(i0 < v.text.len() && v.text[i0] == o.text[j]) {
                PromptView { vim_dot_action: Some(DotView::ReplaceChar(o.text[j])), ..w3 }
            } else {
                w3
            };
            let w5 = if (w4.vim_mode == VimMode::Visual || w4.vim_mode == VimMode::VisualBlock)
                && w4.visual_anchor is None {
                PromptView { visual_anchor: Some(w4.cursor), ..w4 }
            } else {
                w4
            };
            Some(normalized(w5))
        }
    }
}

/// Keys of normal mode with nothing pending: `.`, `u`, `v`, `:`, `/`, `V`,
/// Ctrl-V, `n`, `N`; every other key goes on to `visual_spec`.
pub open spec fn main_spec(v: PromptView, k: Seq<char>) -> Option<PromptView> {
    let ni = v.vim_mode == VimMode::Normal && v.vim_pending == PendingView::Idle;
    if ni && k == seq!['.'] {
        dot_spec(v)
    } else if ni && k == seq!['u'] {
        Some(undo_spec(v))
    } else if ni && k == seq!['v'] {
        Some(PromptView { vim_mode: VimMode::Visual, visual_anchor: Some(v.cursor), ..v })
    } else if ni && k == seq![':'] {
        Some(PromptView { vim_mode: VimMode::Command, vim_command_buf: Seq::empty(), ..v })
    } else if ni && k == seq!['/'] {
        Some(PromptView { vim_mode: VimMode::Search, vim_search_buf: Seq::empty(), ..v })
    } else if ni && k == seq!['V'] {
        if is_boundary(v.text, v.cursor as int) {
            Some(
                PromptView {
                    vim_mode: VimMode::VisualLine,
                    visual_anchor: Some(
                        byte_offset(v.text, line_start(v.text, char_index(v.text, v.cursor as int))) as usize,
                    ),
                    ..v
                },
            )
        } else {
            None
        }
    } else if ni && k == seq!['\x16'] {
        Some(PromptView { vim_mode: VimMode::VisualBlock, visual_anchor: Some(v.cursor), ..v })
    } else if ni && k == seq!['n'] {
        match v.vim_search_last {
            Some(p) => if p.len() > 0 && !is_boundary(v.text, v.cursor as int) {
                None
            } else {
                Some(checked_forward_spec(v, p, 1))
            },
            None => Some(v),
        }
    } else if ni && k == seq!['N'] {
        match v.vim_search_last {
            Some(p) => Some(checked_backward_spec(v, p)),
            None => Some(v),
        }
    } else {
        visual_spec(v, k)
    }
}

/// The pending register, mark and macro commands, which take the key as
/// their argument; other states go on to `main_spec`.
pub open spec fn pending_step(v: PromptView, k: Seq<char>) -> Step {
    let idle = PromptView { vim_pending: PendingView::Idle, ..v };
    match v.vim_pending {
        PendingView::Register(c) => if c == '\0' {
            Step::Done(
                PromptView {
                    vim_pending: if ascii_key(k) {
                        PendingView::RegisterOp(k[0])
                    } else {
                        PendingView::Idle
                    },
                    ..v
                },
            )
        } else {
            opt_step(main_spec(v, k))
        },
        PendingView::RegisterOp(reg) => opt_step(register_op_spec(v, reg, k)),
        PendingView::Mark => Step::Done(
            if ascii_key(k) {
                PromptView {
                    vim_marks: v.vim_marks.insert(k[0], (v.text, v.cursor)),
                    ..idle
                }
            } else {
                idle
            },
        ),
        PendingView::JumpMark => Step::Done(
            if ascii_key(k) {
                jump_to_mark_spec(idle, k[0])
            } else {
                idle
            },
        ),
        PendingView::MacroRecord => Step::Done(
            if ascii_key(k) {
                PromptView {
                    vim_macro_recording: Some(k[0]),
                    vim_macro_content: v.vim_macro_content.insert(k[0], Seq::empty()),
                    ..idle
                }
            } else {
                idle
            },
        ),
        PendingView::MacroReplay => if ascii_key(k) {
            Step::Replay(idle, k[0], macro_keys(idle, k[0]))
        } else {
            Step::Done(idle)
        },
        _ => opt_step(main_spec(v, k)),
    }
}

/// One key, up to the replay of a macro.
pub open spec fn step(v: PromptView, k: Seq<char>) -> Step {
    if k == "Escape"@ {
        opt_step(escape_spec(v))
    } else if v.vim_mode == VimMode::Command {
        Step::Done(command_mode_spec(v, k))
    } else if v.vim_mode == VimMode::Search {
        Step::Done(search_mode_spec(v, k))
    } else if stops_recording(v, k) {
        Step::Done(PromptView { vim_macro_recording: None, ..v })
    } else {
        pending_step(recorded(v, k), k)
    }
}

/// One key with macro replays nested at most `fuel` deep, while the
/// registers in `active` are being replayed: a replay of one of them is
/// skipped, so a macro never replays itself.
pub open spec fn cmd(v: PromptView, k: Seq<char>, active: Seq<char>, fuel: nat) -> Option<PromptView>
    decreases fuel, 0nat, 0nat,
{
    match step(v, k) {
        Step::Done(w) => Some(w),
        Step::Fail => None,
        Step::Replay(w, reg, keys) => if active.contains(reg) {
            Some(w)
        } else if fuel == 0 {
            None
        } else {
            run_keys(w, reg, keys, active.push(reg), (fuel - 1) as nat)
        },
    }
}

/// Replay `keys` one by one, stopping early once `reg` is being recorded.
pub open spec fn run_keys(v: PromptView, reg: char, keys: Seq<Seq<char>>, active: Seq<char>, fuel: nat) -> Option<PromptView>
    decreases fuel, 1nat, keys.len(),
{
    if keys.len() == 0 || v.vim_macro_recording == Some(reg) {
        Some(v)
    } else {
        match cmd(v, keys[0], active, fuel) {
            Some(w) => run_keys(w, reg, keys.drop_first(), active, fuel),
            None => None,
        }
    }
}

/// The key can be handled: for some replay depth, no step slices the text
/// off a character boundary.
pub open spec fn command_ok(v: PromptView, k: Seq<char>) -> bool {
    exists|f: nat| #[trigger] cmd(v, k, Seq::empty(), f) is Some
}

/// The state after the key.
pub open spec fn command_spec(v: PromptView, k: Seq<char>) -> PromptView {
    cmd(v, k, Seq::empty(), choose|f: nat| #[trigger] cmd(v, k, Seq::empty(), f) is Some).unwrap()
}


// ---------------------------------------------------------------------------
// Implementation
// ---------------------------------------------------------------------------

/// Whether `c` is one of `v`.
fn contains_char(v: &Vec<char>, c: char) -> (b: bool)
    ensures
        b == v@.contains(c),
{
    let mut i: usize = 0;
    while i < v.len()
        invariant
            i <= v.len(),
            forall|j: int| 0 <= j < i ==> v@[j] != c,
        decreases v.len() - i,
    {
        if v[i] == c {
            assert(v@[i as int] == c);
            return true;
        }
        i = i + 1;
    }
    false
}

/// Character indices of boundaries are ordered as the boundaries are.
pub proof fn lemma_index_order(s: Seq<char>, a: int, b: int)
    requires
        is_boundary(s, a),
        is_boundary(s, b),
        a <= b,
    ensures
        char_index(s, a) <= char_index(s, b),
{
    lemma_char_index(s, a);
    lemma_char_index(s, b);
    if char_index(s, a) > char_index(s, b) {
        crate::text::lemma_offset_mono(s, char_index(s, b), char_index(s, a));
    }
}

/// The key is a single ASCII character.
pub fn ascii_key_exec(k: &Vec<char>) -> (b: bool)
    ensures
        b == ascii_key(k@),
{
    k.len() == 1 && (k[0] as u32) < 0x80
}

fn copy_dot(a: &Option<DotRepeatAction>) -> (r: Option<DotRepeatAction>)
    ensures
        match (a, r) {
            (Some(x), Some(y)) => x@ == y@,
            (None, None) => true,
            _ => false,
        },
{
    match a {
        Some(DotRepeatAction::Insert { text, mode_after_insert }) => Some(
            DotRepeatAction::Insert {
                text: string_of(&chars_of(text.as_str())),
                mode_after_insert: *mode_after_insert,
            },
        ),
        Some(DotRepeatAction::DeleteChars { count }) => Some(DotRepeatAction::DeleteChars { count: *count }),
        Some(DotRepeatAction::Change { deleted, inserted }) => Some(
            DotRepeatAction::Change {
                deleted: string_of(&chars_of(deleted.as_str())),
                inserted: string_of(&chars_of(inserted.as_str())),
            },
        ),
        Some(DotRepeatAction::ReplaceChar { ch }) => Some(DotRepeatAction::ReplaceChar { ch: *ch }),
        None => None,
    }
}

impl PromptInputState {
    fn text_chars(&self) -> (cs: Vec<char>)
        ensures
            cs@ == self@.text,
            utf8_len(cs@) <= isize::MAX,
    {
        chars_of(self.text.as_str())
    }

    fn pending_is_idle(&self) -> (b: bool)
        ensures
            b == (self@.vim_pending == PendingView::Idle),
    {
        match self.vim_pending {
            VimPendingState::Idle => true,
            _ => false,
        }
    }

    /// Push a snapshot on the undo stack.
    fn push_snapshot_exec(&mut self, t: String, c: usize)
        ensures
            final(self)@ == (PromptView {
                undo_stack: push_snapshot(old(self)@.undo_stack, t@, c),
                ..old(self)@
            }),
    {
        let ghost u0 = self@.undo_stack;
        self.undo_stack.push((t, c));
        proof {
            assert(self@.undo_stack =~= u0.push((t@, c)));
        }
        if self.undo_stack.len() > UNDO_LIMIT {
            let ghost u1 = self@.undo_stack;
            self.undo_stack.remove(0);
            proof {
                assert(self@.undo_stack =~= u1.drop_first());
            }
        }
    }

    fn escape_key(&mut self)
        requires
            escape_spec(old(self)@) is Some,
        ensures
            final(self)@ == escape_spec(old(self)@).unwrap(),
    {
        if self.vim_mode == VimMode::Insert {
            let before = match &self.vim_insert_text_before {
                Some(b) => Some(chars_of(b.as_str())),
                None => None,
            };
            match before {
                Some(bc) => {
                    self.vim_insert_text_before = None;
                    let cs = self.text_chars();
                    let lt = byte_len(&cs);
                    let lb = byte_len(&bc);
                    if lt >= lb {
                        let e = if self.cursor <= lt {
                            self.cursor
                        } else {
                            lt
                        };
                        if lb <= e && check_boundary(&cs, lb) && check_boundary(&cs, e) {
                            let a = byte_to_index(&cs, lb);
                            let bi = byte_to_index(&cs, e);
                            proof {
                                lemma_index_order(cs@, lb as int, e as int);
                            }
                            let ins = slice_vec(&cs, a, bi);
                            if ins.len() > 0 {
                                self.vim_dot_action = Some(
                                    DotRepeatAction::Insert { text: string_of(&ins), mode_after_insert: false },
                                );
                            }
                        }
                    }
                },
                None => {},
            }
        }
        self.vim_mode = VimMode::Normal;
        self.vim_pending = VimPendingState::Idle;
        self.visual_anchor = None;
        self.vim_macro_recording = None;
        self.normalize();
    }

    fn command_mode_key(&mut self, k: &Vec<char>)
        ensures
            final(self)@ == command_mode_spec(old(self)@, k@),
    {
        let bc = chars_of(self.vim_command_buf.as_str());
        if str_is(k, "Backspace") {
            if bc.len() == 0 {
                self.vim_mode = VimMode::Normal;
            } else {
                let nb = slice_vec(&bc, 0, bc.len() - 1);
                self.vim_command_buf = string_of(&nb);
            }
        } else if str_is(k, "Enter") {
            let c = trim_chars(&bc);
            self.vim_command_buf = String::new();
            self.vim_mode = VimMode::Normal;
            let cmd = string_of(&c);
            self.execute_vim_cmdline(cmd.as_str());
        } else if ascii_key_exec(k) {
            let mut nb = bc;
            nb.push(k[0]);
            self.vim_command_buf = string_of(&nb);
        }
    }

    fn search_mode_key(&mut self, k: &Vec<char>)
        ensures
            final(self)@ == search_mode_spec(old(self)@, k@),
    {
        let bc = chars_of(self.vim_search_buf.as_str());
        if str_is(k, "Backspace") {
            if bc.len() == 0 {
                self.vim_mode = VimMode::Normal;
            } else {
                let nb = slice_vec(&bc, 0, bc.len() - 1);
                self.vim_search_buf = string_of(&nb);
            }
        } else if str_is(k, "Enter") {
            if bc.len() > 0 {
                self.vim_search_last = Some(string_of(&bc));
                let pat = string_of(&bc);
                self.search_forward_checked(pat.as_str(), 0);
            }
            self.vim_search_buf = String::new();
            self.vim_mode = VimMode::Normal;
        } else if ascii_key_exec(k) {
            let mut nb = bc;
            nb.push(k[0]);
            self.vim_search_buf = string_of(&nb);
        }
    }

    fn record_key(&mut self, k: &Vec<char>)
        ensures
            final(self)@ == recorded(old(self)@, k@),
    {
        match self.vim_macro_recording {
            Some(reg) => {
                let cur = match self.vim_macro_content.get(&reg) {
                    Some(ks) => Some(crate::prompt::copy_strings(ks)),
                    None => None,
                };
                match cur {
                    Some(ks) => {
                        let mut ks = ks;
                        let ghost d0 = ks.deep_view();
                        let ghost l0 = ks@;
                        let s = string_of(k);
                        ks.push(s);
                        proof {
                            assert(ks@ == l0.push(s));
                            assert(ks.deep_view() =~= d0.push(k@));
                        }
                        self.vim_macro_content.insert(reg, ks);
                    },
                    None => {},
                }
            },
            None => {},
        }
    }

    fn register_op_key(&mut self, reg: char, k: &Vec<char>)
        requires
            old(self)@.vim_pending == PendingView::RegisterOp(reg),
            register_op_spec(old(self)@, reg, k@) is Some,
        ensures
            final(self)@ == register_op_spec(old(self)@, reg, k@).unwrap(),
    {
        let cs = self.text_chars();
        if key1(k, 'y') || key1(k, 'd') {
            let i = byte_to_index(&cs, self.cursor);
            let s = line_start_index(&cs, i);
            let e = line_end_incl_index(&cs, i);
            let y = slice_vec(&cs, s, e);
            self.vim_pending = VimPendingState::Idle;
            if key1(k, 'y') {
                self.vim_registers.insert(reg, string_of(&y));
                self.yank_buf = string_of(&y);
            } else {
                self.push_undo();
                self.vim_registers.insert(reg, string_of(&y));
                self.yank_buf = string_of(&y);
                let t = cut_vec(&cs, s, e);
                self.text = string_of(&t);
                self.cursor = index_to_byte(&cs, s);
                self.normalize();
            }
            return;
        }
        let buf = match self.vim_registers.get(&reg) {
            Some(b) => Some(chars_of(b.as_str())),
            None => None,
        };
        self.vim_pending = VimPendingState::Idle;
        if key1(k, 'p') {
            match buf {
                Some(bc) => {
                    let len = byte_len(&cs);
                    let ip = if self.cursor < len {
                        let i = byte_to_index(&cs, self.cursor);
                        proof {
                            lemma_char_index(cs@, self.cursor as int);
                            lemma_offset_full(cs@);
                        }
                        i + 1
                    } else {
                        cs.len()
                    };
                    let ipb = index_to_byte(&cs, ip);
                    proof {
                        lemma_offset_bound(cs@, ip as int);
                    }
                    self.push_undo();
                    let t = splice_vec(&cs, ip, &bc);
                    self.text = string_of(&t);
                    let end = ipb + byte_len(&bc);
                    self.cursor = if end >= 1 {
                        end - 1
                    } else {
                        0
                    };
                    self.normalize();
                },
                None => {},
            }
        }
    }

    fn insert_at_cursor_key(&mut self, ins: &Vec<char>)
        requires
            is_boundary(old(self)@.text, old(self)@.cursor as int),
            utf8_len(ins@) <= isize::MAX,
        ensures
            final(self)@ == insert_at_cursor(old(self)@, ins@).unwrap(),
    {
        self.push_undo();
        let cs = self.text_chars();
        let i = byte_to_index(&cs, self.cursor);
        proof {
            lemma_char_index(cs@, self.cursor as int);
            lemma_offset_bound(cs@, i as int);
        }
        let t = splice_vec(&cs, i, ins);
        self.text = string_of(&t);
        self.cursor = self.cursor + byte_len(ins);
        self.normalize();
    }

    fn dot_key(&mut self)
        requires
            dot_spec(old(self)@) is Some,
        ensures
            final(self)@ == dot_spec(old(self)@).unwrap(),
    {
        let act = copy_dot(&self.vim_dot_action);
        match act {
            None => {},
            Some(DotRepeatAction::Insert { text, .. }) => {
                let ic = chars_of(text.as_str());
                self.insert_at_cursor_key(&ic);
            },
            Some(DotRepeatAction::Change { inserted, .. }) => {
                let ic = chars_of(inserted.as_str());
                self.insert_at_cursor_key(&ic);
            },
            Some(DotRepeatAction::DeleteChars { count }) => {
                let cs = self.text_chars();
                let len = byte_len(&cs);
                self.push_undo();
                if count > 0 && self.cursor < len {
                    let i = byte_to_index(&cs, self.cursor);
                    proof {
                        lemma_char_index(cs@, self.cursor as int);
                        lemma_offset_full(cs@);
                    }
                    let e = if count <= cs.len() - i {
                        i + count
                    } else {
                        cs.len()
                    };
                    let t = cut_vec(&cs, i, e);
                    self.text = string_of(&t);
                }
                self.normalize();
            },
            Some(DotRepeatAction::ReplaceChar { ch }) => {
                let cs = self.text_chars();
                if self.cursor < byte_len(&cs) {
                    let i = byte_to_index(&cs, self.cursor);
                    proof {
                        lemma_char_index(cs@, self.cursor as int);
                        lemma_offset_full(cs@);
                    }
                    self.push_undo();
                    let mut t = cs;
                    t.set(i, ch);
                    self.text = string_of(&t);
                    self.normalize();
                }
            },
        }
    }

    fn undo_key(&mut self)
        ensures
            final(self)@ == undo_spec(old(self)@),
    {
        if self.undo_stack.len() > 0 {
            let ghost u0 = self@.undo_stack;
            let ghost raw = self.undo_stack@;
            let last = self.undo_stack.pop();
            match last {
                Some((t, c)) => {
                    proof {
                        assert(self@.undo_stack =~= u0.drop_last());
                        assert((t@, c) == u0.last());
                    }
                    self.text = t;
                    self.cursor = c;
                    self.normalize();
                },
                None => {},
            }
        }
    }

    fn selection_key_op(&mut self, k: &Vec<char>, cs: &Vec<char>, s: usize, e: usize, cur: usize)
        requires
            cs@ == old(self)@.text,
            s <= e <= cs.len(),
            selection_key(k@),
        ensures
            final(self)@ == selection_op(old(self)@, k@, s as int, e as int, cur as int),
    {
        let y = slice_vec(cs, s, e);
        if key1(k, 'y') {
            self.yank_buf = string_of(&y);
            self.cursor = cur;
            self.vim_mode = VimMode::Normal;
            self.visual_anchor = None;
        } else if key1(k, 'c') {
            self.push_undo();
            self.yank_buf = string_of(&y);
            let t = cut_vec(cs, s, e);
            self.text = string_of(&t);
            self.cursor = cur;
            self.vim_mode = VimMode::Insert;
            self.visual_anchor = None;
            self.vim_insert_text_before = Some(string_of(&t));
            self.normalize();
        } else {
            self.push_undo();
            self.yank_buf = string_of(&y);
            let t = cut_vec(cs, s, e);
            self.text = string_of(&t);
            self.cursor = cur;
            self.vim_mode = VimMode::Normal;
            self.visual_anchor = None;
            self.vim_dot_action = Some(DotRepeatAction::DeleteChars { count: e - s });
            self.normalize();
        }
    }

    fn apply_key(&mut self, k: &Vec<char>, key: &str)
        requires
            k@ == key@,
            apply_spec(old(self)@, k@) is Some,
        ensures
            final(self)@ == apply_spec(old(self)@, k@).unwrap(),
    {
        let snapshot = self.text_chars();
        let snap_cursor = self.cursor;
        let was_normal = self.vim_mode == VimMode::Normal;
        let modified = apply_vim_key(
            &mut self.vim_mode,
            &mut self.text,
            &mut self.cursor,
            key,
            &mut self.yank_buf,
            &mut self.vim_pending,
            &mut self.last_find,
        );
        if modified {
            self.push_snapshot_exec(string_of(&snapshot), snap_cursor);
            if was_normal && (key1(k, 'x') || key1(k, 'X')) {
                self.vim_dot_action = Some(DotRepeatAction::DeleteChars { count: 1 });
            }
        }
        if was_normal && self.vim_mode == VimMode::Insert {
            self.vim_insert_text_before = Some(string_of(&self.text_chars()));
        }
        if self.pending_is_idle() && modified && was_normal {
            let nt = self.text_chars();
            if byte_len(&nt) == byte_len(&snapshot) && !vec_eq(&nt, &snapshot) {
                let j = byte_to_index(&nt, snap_cursor);
                if j < nt.len() {
                    let ch = nt[j];
                    let i0 = byte_to_index(&snapshot, snap_cursor);
                    let same = i0 < snapshot.len() && snapshot[i0] == ch;
                    if !same {
                        self.vim_dot_action = Some(DotRepeatAction::ReplaceChar { ch });
                    }
                }
            }
        }
        if (self.vim_mode == VimMode::Visual || self.vim_mode == VimMode::VisualBlock)
            && self.visual_anchor.is_none() {
            self.visual_anchor = Some(self.cursor);
        }
        self.normalize();
    }

    fn visual_key(&mut self, k: &Vec<char>, key: &str)
        requires
            k@ == key@,
            visual_spec(old(self)@, k@) is Some,
        ensures
            final(self)@ == visual_spec(old(self)@, k@).unwrap(),
    {
        let sel = key1(k, 'y') || key1(k, 'd') || key1(k, 'x') || key1(k, 'c');
        match self.visual_anchor {
            Some(a) => {
                let lo = if a <= self.cursor {
                    a
                } else {
                    self.cursor
                };
                let hi = if a <= self.cursor {
                    self.cursor
                } else {
                    a
                };
                if self.vim_mode == VimMode::VisualLine {
                    if sel {
                        let cs = self.text_chars();
                        let li = byte_to_index(&cs, lo);
                        let hj = byte_to_index(&cs, hi);
                        proof {
                            lemma_index_order(cs@, lo as int, hi as int);
                        }
                        let s = line_start_index(&cs, li);
                        let e = line_end_incl_index(&cs, hj);
                        let cur = index_to_byte(&cs, s);
                        self.selection_key_op(k, &cs, s, e, cur);
                    } else {
                        self.apply_key(k, key);
                    }
                } else if self.vim_mode == VimMode::VisualBlock || self.vim_mode == VimMode::Visual {
                    if sel {
                        let cs = self.text_chars();
                        let j = byte_to_index(&cs, hi);
                        let e = if j < cs.len() {
                            j + 1
                        } else {
                            cs.len()
                        };
                        let f = byte_to_index(&cs, lo);
                        proof {
                            lemma_index_order(cs@, lo as int, hi as int);
                        }
                        self.selection_key_op(k, &cs, f, e, lo);
                    } else {
                        self.apply_key(k, key);
                    }
                } else {
                    self.apply_key(k, key);
                }
            },
            None => {
                self.apply_key(k, key);
            },
        }
    }

    fn main_key(&mut self, k: &Vec<char>, key: &str)
        requires
            k@ == key@,
            main_spec(old(self)@, k@) is Some,
        ensures
            final(self)@ == main_spec(old(self)@, k@).unwrap(),
    {
        let ni = self.vim_mode == VimMode::Normal && self.pending_is_idle();
        if ni && key1(k, '.') {
            self.dot_key();
        } else if ni && key1(k, 'u') {
            self.undo_key();
        } else if ni && key1(k, 'v') {
            self.vim_mode = VimMode::Visual;
            self.visual_anchor = Some(self.cursor);
        } else if ni && key1(k, ':') {
            self.vim_mode = VimMode::Command;
            self.vim_command_buf = String::new();
        } else if ni && key1(k, '/') {
            self.vim_mode = VimMode::Search;
            self.vim_search_buf = String::new();
        } else if ni && key1(k, 'V') {
            let cs = self.text_chars();
            let i = byte_to_index(&cs, self.cursor);
            let ls = line_start_index(&cs, i);
            let b = index_to_byte(&cs, ls);
            self.vim_mode = VimMode::VisualLine;
            self.visual_anchor = Some(b);
        } else if ni && key1(k, '\x16') {
            self.vim_mode = VimMode::VisualBlock;
            self.visual_anchor = Some(self.cursor);
        } else if ni && (key1(k, 'n') || key1(k, 'N')) {
            let pat = match &self.vim_search_last {
                Some(p) => Some(string_of(&chars_of(p.as_str()))),
                None => None,
            };
            match pat {
                Some(p) => {
                    if key1(k, 'n') {
                        self.search_forward_checked(p.as_str(), 1);
                    } else {
                        self.search_backward_checked(p.as_str());
                    }
                },
                None => {},
            }
        } else {
            self.visual_key(k, key);
        }
    }

    #[verifier::spinoff_prover]
    #[verifier::rlimit(50)]
    fn pending_key(&mut self, k: &Vec<char>, key: &str) -> (r: Option<(char, Vec<String>)>)
        requires
            k@ == key@,
            !(pending_step(old(self)@, k@) is Fail),
        ensures
            match pending_step(old(self)@, k@) {
                Step::Done(w) => r is None && final(self)@ == w,
                Step::Replay(w, reg, keys) => (r matches Some(p) && p.0 == reg && p.1.deep_view()
                    == keys) && final(self)@ == w,
                Step::Fail => false,
            },
    {
        let p = crate::vim::copy_pending(&self.vim_pending);
        match p {
            VimPendingState::Register(c) => {
                if c == '\0' {
                    self.vim_pending = if ascii_key_exec(k) {
                        VimPendingState::RegisterOp(k[0])
                    } else {
                        VimPendingState::Idle
                    };
                } else {
                    self.main_key(k, key);
                }
                None
            },
            VimPendingState::RegisterOp(reg) => {
                self.register_op_key(reg, k);
                None
            },
            VimPendingState::Mark => {
                if ascii_key_exec(k) {
                    self.set_mark(k[0]);
                }
                self.vim_pending = VimPendingState::Idle;
                None
            },
            VimPendingState::JumpMark => {
                self.vim_pending = VimPendingState::Idle;
                if ascii_key_exec(k) {
                    self.jump_to_mark(k[0]);
                }
                None
            },
            VimPendingState::MacroRecord => {
                self.vim_pending = VimPendingState::Idle;
                if ascii_key_exec(k) {
                    self.start_macro_recording(k[0]);
                }
                None
            },
            VimPendingState::MacroReplay => {
                self.vim_pending = VimPendingState::Idle;
                if ascii_key_exec(k) {
                    let keys = self.replay_macro(k[0]);
                    Some((k[0], keys))
                } else {
                    None
                }
            },
            _ => {
                self.main_key(k, key);
                None
            },
        }
    }

    fn step_key(&mut self, k: &Vec<char>, key: &str) -> (r: Option<(char, Vec<String>)>)
        requires
            k@ == key@,
            !(step(old(self)@, k@) is Fail),
        ensures
            match step(old(self)@, k@) {
                Step::Done(w) => r is None && final(self)@ == w,
                Step::Replay(w, reg, keys) => (r matches Some(p) && p.0 == reg && p.1.deep_view()
                    == keys) && final(self)@ == w,
                Step::Fail => false,
            },
    {
        if str_is(k, "Escape") {
            self.escape_key();
            return None;
        }
        if self.vim_mode == VimMode::Command {
            self.command_mode_key(k);
            return None;
        }
        if self.vim_mode == VimMode::Search {
            self.search_mode_key(k);
            return None;
        }
        if self.vim_macro_recording.is_some() && key1(k, 'q') && self.vim_mode == VimMode::Normal
            && self.pending_is_idle() {
            self.vim_macro_recording = None;
            return None;
        }
        self.record_key(k);
        self.pending_key(k, key)
    }

    /// One key with macro replays nested at most `fuel` deep, skipping the
    /// replay of a register in `active`.
    fn command(&mut self, key: &str, active: &mut Vec<char>, Ghost(fuel): Ghost<nat>)
        requires
            cmd(old(self)@, key@, old(active)@, fuel) is Some,
        ensures
            final(self)@ == cmd(old(self)@, key@, old(active)@, fuel).unwrap(),
            final(active)@ == old(active)@,
        decreases fuel,
    {
        let k = chars_of(key);
        let r = self.step_key(&k, key);
        match r {
            None => {},
            Some((reg, keys)) => {
                if contains_char(active, reg) {
                    return;
                }
                let ghost f = (fuel - 1) as nat;
                let ghost a0 = active@;
                active.push(reg);
                proof {
                    assert(keys.deep_view().skip(0) =~= keys.deep_view());
                }
                let mut j: usize = 0;
                while j < keys.len() && self.vim_macro_recording != Some(reg)
                    invariant
                        fuel > 0,
                        f == fuel - 1,
                        j <= keys.len(),
                        active@ == a0.push(reg),
                        run_keys(self@, reg, keys.deep_view().skip(j as int), a0.push(reg), f) == cmd(
                            old(self)@,
                            key@,
                            a0,
                            fuel,
                        ),
                        cmd(old(self)@, key@, a0, fuel) is Some,
                    decreases keys.len() - j,
                {
                    let ghost ks = keys.deep_view().skip(j as int);
                    proof {
                        assert(ks[0] == keys[j as int]@);
                        assert(ks.drop_first() =~= keys.deep_view().skip(j as int + 1));
                    }
                    self.command(keys[j].as_str(), active, Ghost(f));
                    j = j + 1;
                }
                active.pop();
                proof {
                    assert(active@ =~= a0);
                }
            },
        }
    }

    /// Apply a vim command using the full state-machine key handler.
    pub fn vim_command(&mut self, key: &str)
        requires
            command_ok(old(self)@, key@),
        ensures
            final(self)@ == command_spec(old(self)@, key@),
    {
        let ghost f = choose|f: nat| #[trigger] cmd(self@, key@, Seq::empty(), f) is Some;
        let mut active: Vec<char> = Vec::new();
        self.command(key, &mut active, Ghost(f));
    }
}

} // verus!
