//! Properties of the prompt editor that relate several operations.
use vstd::prelude::*;
use crate::command::{apply_spec, cmd, command_ok, command_spec, escape_spec, run_keys, step, Step, undo_spec};
use crate::prompt::{backspace_spec, floor_boundary, history_down_spec, history_up_spec, input_height_spec, insert_char_spec, jump_to_mark_spec, lemma_floor_of_boundary, lemma_floor_props, normalized, paste_outcome, push_snapshot, push_undo_spec, InputMode, PromptView, PASTE_INLINE_LIMIT};
use crate::text::{byte_offset, char_index, cut, is_boundary, lemma_char_index, lemma_index_of_offset, lemma_len_single, lemma_len_splice, lemma_offset_bound, splice, utf8_len, utf8_width};
use crate::vim::{find_spec, g_spec, indent_spec, key_spec, normal_spec, operator_g_spec, operator_spec, replace_spec, KeyOut, PendingView, VimMode, VimOperator};
use crate::motions::{lemma_line_end_at, lemma_line_end_last, VimFindKind};
use crate::overlays::{entry_le, insert_sorted, seq_lt, sort_entries, HelpEntry};
use crate::prompt::{typeahead, TypeaheadSource};
use crate::settings::{apply_config, commit_edit_spec, lemma_pending_insert_lookup, next_tab_spec, pending_insert, pending_lookup, prev_tab_spec, text_value, toggle_spec, toggle_write, ConfigView, SettingsView};
use crate::history_match::{adjacent_run, greedy, lemma_best_run, lemma_greedy_shape, match_spec, MatchKind};
use crate::prompt::{find_from, occurs_at, starts_with};
use crate::text::{lowercase_str, lemma_offset_mono};
use crate::width::{flatten_runs, lemma_runs_partition, runs_by};
use crate::command::{macro_keys, recorded};
use crate::prompt::{suggestion_next_spec, suggestion_prev_spec};
use crate::tool_summary::{field_text, first_line, lemma_first_line_one_line, lemma_summary_one_line, lemma_first_line_of, lemma_summary_fits, one_line, summary_of, tool_summary, TOOL_SUMMARY_CHARS};
use crate::prompt::trim;
use crate::hooks::{back_spec, enter_spec, first_index, lemma_first_index, matchers_of, HooksMenuMode, HooksView, distinct_events, events_spec, known_events, present_known, push_new, unknown_events, HookEntry};

verus! {

/// Typing a character and then deleting it with backspace gives back the
/// text and the cursor.
pub proof fn law_insert_then_backspace(v: PromptView, c: char)
    requires
        v.mode != InputMode::Readonly,
        is_boundary(v.text, v.cursor as int),
        utf8_len(v.text) + 4 <= usize::MAX,
    ensures
        backspace_spec(insert_char_spec(v, c)).text == v.text,
        backspace_spec(insert_char_spec(v, c)).cursor == v.cursor,
{
    let s = v.text;
    let i = char_index(s, v.cursor as int);
    lemma_char_index(s, v.cursor as int);
    lemma_offset_bound(s, i);
    let t = splice(s, i, seq![c]);
    lemma_len_splice(s, i, seq![c]);
    lemma_len_single(c);
    crate::text::lemma_width_pos(c);
    let w = insert_char_spec(v, c);
    assert(w.text == t);
    assert(w.cursor == v.cursor + utf8_width(c));
    assert(byte_offset(t, i + 1) == w.cursor);
    lemma_index_of_offset(t, i + 1);
    assert(char_index(t, w.cursor as int) == i + 1);
    assert(cut(t, i, i + 1) =~= s);
    assert(byte_offset(t, i) == byte_offset(s, i));
}

/// Stepping up into the history from the draft and back down restores the
/// draft, with the cursor at its end, and leaves history browsing.
pub proof fn law_history_round_trip(v: PromptView)
    requires
        0 < v.history.len() <= usize::MAX,
        v.history_pos is None,
    ensures
        history_down_spec(history_up_spec(v)).text == v.text,
        history_down_spec(history_up_spec(v)).cursor == utf8_len(v.text) as usize,
        history_down_spec(history_up_spec(v)).history_pos is None,
{
    let u = history_up_spec(v);
    assert(u.history_pos == Some((v.history.len() - 1) as usize));
    assert(u.history_draft == v.text);
    assert(u.history == v.history);
    let d = history_down_spec(u);
    assert(d.text == u.history_draft);
}

/// Stepping down and back up from an older history entry shows that entry again.
pub proof fn law_history_down_up(v: PromptView, n: usize)
    requires
        v.history_pos == Some(n),
        n + 1 < v.history.len() <= usize::MAX,
    ensures
        history_up_spec(history_down_spec(v)).text == v.history[n as int],
        history_up_spec(history_down_spec(v)).history_pos == Some(n),
{
    let d = history_down_spec(v);
    assert(d.history_pos == Some((n + 1) as usize));
    assert(d.history == v.history);
    let u = history_up_spec(d);
    assert(u.history_pos == Some(n));
}

/// `normalize` leaves the cursor on a character boundary within the text,
/// keeps a cursor that already is one, and is idempotent.
pub proof fn law_normalize(v: PromptView)
    ensures
        is_boundary(normalized(v).text, normalized(v).cursor as int),
        normalized(v).cursor <= utf8_len(v.text),
        normalized(normalized(v)) == normalized(v),
        is_boundary(v.text, v.cursor as int) ==> normalized(v).cursor == v.cursor,
{
    lemma_floor_props(v.text, v.cursor as int);
    let w = normalized(v);
    assert(w.cursor == floor_boundary(v.text, v.cursor as int));
    lemma_floor_of_boundary(v.text, w.cursor as int);
    if is_boundary(v.text, v.cursor as int) {
        lemma_floor_of_boundary(v.text, v.cursor as int);
    }
}

/// Undo right after an undo snapshot gives back the text, and the cursor
/// when it was on a character boundary.
pub proof fn law_undo_restores_snapshot(v: PromptView)
    ensures
        undo_spec(push_undo_spec(v)).text == v.text,
        is_boundary(v.text, v.cursor as int) ==> undo_spec(push_undo_spec(v)).cursor == v.cursor,
{
    let w = push_undo_spec(v);
    let u = v.undo_stack.push((v.text, v.cursor));
    assert(w.undo_stack.last() == (v.text, v.cursor)) by {
        if u.len() > 100 {
            assert(u.drop_first().last() == u.last());
        }
    }
    if is_boundary(v.text, v.cursor as int) {
        lemma_floor_of_boundary(v.text, v.cursor as int);
    }
}

/// `u` undoes any key of the vim state machine that modified the text: the
/// text and cursor from before the key come back.
pub proof fn law_undo_after_modifying_key(v: PromptView, k: Seq<char>)
    requires
        apply_spec(v, k) is Some,
        key_spec(v.vim_mode, v.text, v.cursor as int, k, v.yank_buf, v.vim_pending, v.last_find).modified,
    ensures
        undo_spec(apply_spec(v, k).unwrap()).text == v.text,
        undo_spec(apply_spec(v, k).unwrap()).cursor == v.cursor,
{
    let w = apply_spec(v, k).unwrap();
    let u = v.undo_stack.push((v.text, v.cursor));
    assert(w.undo_stack == push_snapshot(v.undo_stack, v.text, v.cursor));
    assert(w.undo_stack.last() == (v.text, v.cursor)) by {
        if u.len() > 100 {
            assert(u.drop_first().last() == u.last());
        }
    }
    lemma_floor_of_boundary(v.text, v.cursor as int);
}

/// A register gives back what was last yanked into it, and other registers
/// are unaffected.
pub proof fn law_register_read_after_write(regs: Map<char, Seq<char>>, r: char, t: Seq<char>, other: char)
    requires
        other != r,
    ensures
        regs.insert(r, t).contains_key(r),
        regs.insert(r, t)[r] == t,
        regs.insert(r, t).contains_key(other) == regs.contains_key(other),
        regs.contains_key(other) ==> regs.insert(r, t)[other] == regs[other],
{
}

/// Jumping to a mark set on a character boundary returns the cursor there,
/// wherever it has moved since, as long as the text is the same.
pub proof fn law_mark_round_trip(v: PromptView, name: char, moved: usize)
    requires
        is_boundary(v.text, v.cursor as int),
    ensures
        jump_to_mark_spec(
            PromptView {
                cursor: moved,
                vim_marks: v.vim_marks.insert(name, (v.text, v.cursor)),
                ..v
            },
            name,
        ).cursor == v.cursor,
{
    lemma_floor_of_boundary(v.text, v.cursor as int);
}

/// Two long pastes number their placeholders consecutively.
pub proof fn law_paste_counter(content: Seq<char>, n: u32)
    requires
        utf8_len(content) > PASTE_INLINE_LIMIT,
        n + 2 <= u32::MAX,
    ensures
        paste_outcome(content, n).2 == n + 1,
        paste_outcome(content, paste_outcome(content, n).2).2 == n + 2,
        paste_outcome(content, n).1 == Some(content),
{
}

/// A short paste is inserted as it is and not counted.
pub proof fn law_short_paste(content: Seq<char>, n: u32)
    requires
        utf8_len(content) <= PASTE_INLINE_LIMIT,
    ensures
        paste_outcome(content, n) == (content, Option::<Seq<char>>::None, n),
{
}

/// The prompt is between 4 and 12 rows high, the row for pending images
/// included.
pub proof fn law_input_height(v: PromptView)
    ensures
        4 <= input_height_spec(v) <= 12,
{
}

/// `Escape` always ends in normal mode, with nothing pending, no selection
/// and no macro being recorded.
pub proof fn law_escape(v: PromptView)
    ensures
        command_ok(v, "Escape"@),
        command_spec(v, "Escape"@).vim_mode == VimMode::Normal,
        command_spec(v, "Escape"@).vim_pending == PendingView::Idle,
        command_spec(v, "Escape"@).visual_anchor is None,
        command_spec(v, "Escape"@).vim_macro_recording is None,
{
    assert(step(v, "Escape"@) == crate::command::opt_step(escape_spec(v)));
    assert(escape_spec(v) is Some);
    assert(cmd(v, "Escape"@, Seq::empty(), 0) is Some);
    law_command_fuel(v, "Escape"@, 0, 0);
}

proof fn lemma_cmd_fuel(v: PromptView, k: Seq<char>, a: Seq<char>, f: nat)
    ensures
        cmd(v, k, a, f) is Some ==> cmd(v, k, a, f + 1) == cmd(v, k, a, f),
    decreases f, 0nat, 0nat,
{
    match step(v, k) {
        Step::Replay(w, reg, keys) => {
            if f > 0 && !a.contains(reg) {
                lemma_run_fuel(w, reg, keys, a.push(reg), (f - 1) as nat);
            }
        },
        _ => {},
    }
}

proof fn lemma_run_fuel(v: PromptView, reg: char, keys: Seq<Seq<char>>, a: Seq<char>, f: nat)
    ensures
        run_keys(v, reg, keys, a, f) is Some ==> run_keys(v, reg, keys, a, f + 1) == run_keys(v, reg, keys, a, f),
    decreases f, 1nat, keys.len(),
{
    if keys.len() > 0 && v.vim_macro_recording != Some(reg) {
        lemma_cmd_fuel(v, keys[0], a, f);
        match cmd(v, keys[0], a, f) {
            Some(w) => {
                lemma_run_fuel(w, reg, keys.drop_first(), a, f);
            },
            None => {},
        }
    }
}

/// A key's outcome does not depend on the bound on macro replay depth: any
/// bound under which the key can be handled gives the state `vim_command`
/// produces.
pub proof fn law_command_fuel(v: PromptView, k: Seq<char>, f: nat, g: nat)
    requires
        cmd(v, k, Seq::empty(), f) is Some,
        f <= g,
    ensures
        cmd(v, k, Seq::empty(), g) == cmd(v, k, Seq::empty(), f),
        command_ok(v, k),
        command_spec(v, k) == cmd(v, k, Seq::empty(), f).unwrap(),
    decreases g - f,
{
    if f < g {
        lemma_cmd_fuel(v, k, Seq::empty(), f);
        law_command_fuel(v, k, f + 1, g);
    }
    let h = choose|h: nat| #[trigger] cmd(v, k, Seq::empty(), h) is Some;
    assert(cmd(v, k, Seq::empty(), h) is Some);
    if h <= f {
        law_command_fuel_up(v, k, h, f);
    } else {
        law_command_fuel_up(v, k, f, h);
    }
}

proof fn law_command_fuel_up(v: PromptView, k: Seq<char>, f: nat, g: nat)
    requires
        cmd(v, k, Seq::empty(), f) is Some,
        f <= g,
    ensures
        cmd(v, k, Seq::empty(), g) == cmd(v, k, Seq::empty(), f),
    decreases g - f,
{
    if f < g {
        lemma_cmd_fuel(v, k, Seq::empty(), f);
        law_command_fuel_up(v, k, f + 1, g);
    }
}

/// A macro that replays itself: replaying register `r` while it is already
/// being replayed does nothing but clear what was pending, so the text and
/// the cursor stay as they were.
pub proof fn law_self_replay_skipped(v: PromptView, r: char, active: Seq<char>, f: nat)
    requires
        v.vim_mode != VimMode::Command,
        v.vim_mode != VimMode::Search,
        v.vim_pending == PendingView::MacroReplay,
        v.vim_macro_recording is None,
        active.contains(r),
    ensures
        cmd(v, seq![r], active, f) is Some,
        cmd(v, seq![r], active, f).unwrap().text == v.text,
        cmd(v, seq![r], active, f).unwrap().cursor == v.cursor,
        cmd(v, seq![r], active, f).unwrap().vim_pending == PendingView::Idle,
{
    assert(seq![r] != "Escape"@) by {
        assert("Escape"@.len() != 1) by {
            reveal_strlit("Escape");
        }
    }
}

// ---------------------------------------------------------------------------
// Help entries
// ---------------------------------------------------------------------------

/// Each entry sorts no later than the next one.
pub open spec fn sorted_entries(s: Seq<HelpEntry>) -> bool {
    forall|i: int, j: int| 0 <= i && j == i + 1 && j < s.len() ==> entry_le(#[trigger] s[i], #[trigger] s[j])
}

proof fn lemma_seq_lt_asym(a: Seq<char>, b: Seq<char>)
    ensures
        seq_lt(a, b) ==> !seq_lt(b, a),
    decreases a.len(),
{
    if a.len() > 0 && b.len() > 0 && a[0] == b[0] {
        lemma_seq_lt_asym(a.drop_first(), b.drop_first());
    }
}

proof fn lemma_seq_lt_total(a: Seq<char>, b: Seq<char>)
    ensures
        a != b ==> seq_lt(a, b) || seq_lt(b, a),
    decreases a.len(),
{
    if a.len() > 0 && b.len() > 0 && a[0] == b[0] {
        lemma_seq_lt_total(a.drop_first(), b.drop_first());
        if a != b {
            assert(a =~= seq![a[0]] + a.drop_first());
            assert(b =~= seq![b[0]] + b.drop_first());
        }
    } else if a.len() == 0 && b.len() == 0 {
        assert(a =~= b);
    }
}

proof fn lemma_entry_le_total(a: HelpEntry, b: HelpEntry)
    ensures
        entry_le(a, b) || entry_le(b, a),
{
    lemma_seq_lt_total(a.category@, b.category@);
    lemma_seq_lt_asym(a.name@, b.name@);
    lemma_seq_lt_asym(b.name@, a.name@);
}

proof fn lemma_insert_sorted(s: Seq<HelpEntry>, e: HelpEntry)
    requires
        sorted_entries(s),
    ensures
        sorted_entries(insert_sorted(s, e)),
        insert_sorted(s, e).to_multiset() == s.to_multiset().insert(e),
        insert_sorted(s, e).len() == s.len() + 1,
        insert_sorted(s, e).last() == e || (s.len() > 0 && insert_sorted(s, e).last() == s.last()),
    decreases s.len(),
{
    broadcast use vstd::seq_lib::to_multiset_build;
    if s.len() == 0 || entry_le(s.last(), e) {
        let r = s.push(e);
        assert forall|i: int, j: int| 0 <= i && j == i + 1 && j < r.len() implies entry_le(
            #[trigger] r[i],
            #[trigger] r[j],
        ) by {
            if j < s.len() {
                assert(r[i] == s[i] && r[j] == s[j]);
            }
        }
    } else {
        let d = s.drop_last();
        let l = s.last();
        assert forall|i: int, j: int| 0 <= i && j == i + 1 && j < d.len() implies entry_le(
            #[trigger] d[i],
            #[trigger] d[j],
        ) by {
            assert(d[i] == s[i] && d[j] == s[j]);
        }
        lemma_insert_sorted(d, e);
        let r = insert_sorted(d, e);
        lemma_entry_le_total(l, e);
        if d.len() > 0 {
            assert(entry_le(s[d.len() - 1], s[d.len() as int]));
        }
        assert(entry_le(r.last(), l));
        let q = r.push(l);
        assert forall|i: int, j: int| 0 <= i && j == i + 1 && j < q.len() implies entry_le(
            #[trigger] q[i],
            #[trigger] q[j],
        ) by {
            if j < r.len() {
                assert(q[i] == r[i] && q[j] == r[j]);
            } else {
                assert(q[i] == r.last());
            }
        }
        assert(s == d.push(l));
        assert(q.to_multiset() =~= s.to_multiset().insert(e));
    }
}

/// The help entries come out sorted by category and then name, and are a
/// rearrangement of the entries given.
pub proof fn law_help_entries_sorted(s: Seq<HelpEntry>)
    ensures
        sorted_entries(sort_entries(s)),
        sort_entries(s).to_multiset() == s.to_multiset(),
        sort_entries(s).len() == s.len(),
    decreases s.len(),
{
    broadcast use vstd::seq_lib::group_to_multiset_ensures;
    if s.len() == 0 {
    } else {
        law_help_entries_sorted(s.drop_last());
        lemma_insert_sorted(sort_entries(s.drop_last()), s.last());
        assert(s == s.drop_last().push(s.last()));
    }
}

// ---------------------------------------------------------------------------
// Typeahead
// ---------------------------------------------------------------------------

/// Only input starting with `/` gets suggestions, and every suggestion is a
/// slash command: `/` followed by a command name from the table whose
/// lowercased form starts with the lowercased text typed after the `/`.
pub proof fn law_typeahead_shape(input: Seq<char>, cmds: Seq<(Seq<char>, Seq<char>)>)
    ensures
        (input.len() == 0 || input[0] != '/') ==> typeahead(input, cmds).len() == 0,
        typeahead(input, cmds).len() <= cmds.len(),
        forall|i: int| 0 <= i < typeahead(input, cmds).len() ==> {
            let sg = #[trigger] typeahead(input, cmds)[i];
            &&& sg.source == TypeaheadSource::SlashCommand
            &&& sg.text.len() > 0
            &&& sg.text[0] == '/'
            &&& exists|j: int| 0 <= j < cmds.len() && sg.text == seq!['/'] + cmds[j].0 && sg.description == cmds[j].1
            &&& starts_with(lowercase_str(sg.text.drop_first()), lowercase_str(input.drop_first()))
        },
    decreases cmds.len(),
{
    if !(input.len() == 0 || input[0] != '/' || cmds.len() == 0) {
        let d = cmds.drop_last();
        law_typeahead_shape(input, d);
        let rest = typeahead(input, d);
        let t = typeahead(input, cmds);
        assert forall|i: int| 0 <= i < t.len() implies {
            let sg = #[trigger] t[i];
            &&& sg.source == TypeaheadSource::SlashCommand
            &&& sg.text.len() > 0
            &&& sg.text[0] == '/'
            &&& exists|j: int| 0 <= j < cmds.len() && sg.text == seq!['/'] + cmds[j].0 && sg.description == cmds[j].1
            &&& starts_with(lowercase_str(sg.text.drop_first()), lowercase_str(input.drop_first()))
        } by {
            if i < rest.len() {
                assert(t[i] == rest[i]);
                let sg = rest[i];
                let j = choose|j: int| 0 <= j < d.len() && sg.text == seq!['/'] + d[j].0 && sg.description == d[j].1;
                assert(d[j] == cmds[j]);
            } else {
                let j = cmds.len() - 1;
                assert(cmds[j] == cmds.last());
                assert((seq!['/'] + cmds[j].0)[0] == '/');
                assert((seq!['/'] + cmds[j].0).drop_first() =~= cmds[j].0);
            }
        }
    }
}


// ---------------------------------------------------------------------------
// Hook events
// ---------------------------------------------------------------------------

/// No value occurs twice.
pub open spec fn no_dups(s: Seq<Seq<char>>) -> bool {
    forall|i: int, j: int| 0 <= i < j < s.len() ==> #[trigger] s[i] != #[trigger] s[j]
}

proof fn lemma_push_new(s: Seq<Seq<char>>, x: Seq<char>)
    ensures
        no_dups(s) ==> no_dups(push_new(s, x)),
        forall|y: Seq<char>| #[trigger] push_new(s, x).contains(y) <==> (s.contains(y) || y == x),
{
    let r = push_new(s, x);
    if !s.contains(x) {
        assert forall|y: Seq<char>| #[trigger] r.contains(y) <==> (s.contains(y) || y == x) by {
            if r.contains(y) {
                let i = choose|i: int| 0 <= i < r.len() && r[i] == y;
                if i < s.len() {
                    assert(s[i] == y);
                }
            }
            if s.contains(y) {
                let i = choose|i: int| 0 <= i < s.len() && s[i] == y;
                assert(r[i] == y);
            }
            if y == x {
                assert(r[s.len() as int] == y);
            }
        }
        if no_dups(s) {
            assert forall|i: int, j: int| 0 <= i < j < r.len() implies #[trigger] r[i] != #[trigger] r[j] by {
                if j == s.len() {
                    assert(r[i] == s[i]);
                    if s[i] == x {
                        assert(s.contains(x));
                    }
                } else {
                    assert(r[i] == s[i] && r[j] == s[j]);
                }
            }
        }
    }
}

proof fn lemma_distinct_events(hooks: Seq<HookEntry>)
    ensures
        no_dups(distinct_events(hooks)),
        forall|y: Seq<char>| #[trigger] distinct_events(hooks).contains(y) <==> exists|i: int|
            0 <= i < hooks.len() && hooks[i].event@ == y,
    decreases hooks.len(),
{
    if hooks.len() > 0 {
        let d = hooks.drop_last();
        lemma_distinct_events(d);
        lemma_push_new(distinct_events(d), hooks.last().event@);
        assert forall|y: Seq<char>| #[trigger] distinct_events(hooks).contains(y) <==> exists|i: int|
            0 <= i < hooks.len() && hooks[i].event@ == y by {
            if exists|i: int| 0 <= i < hooks.len() && hooks[i].event@ == y {
                let i = choose|i: int| 0 <= i < hooks.len() && hooks[i].event@ == y;
                if i < d.len() {
                    assert(d[i] == hooks[i]);
                }
            }
            if distinct_events(d).contains(y) {
                let i = choose|i: int| 0 <= i < d.len() && d[i].event@ == y;
                assert(hooks[i] == d[i]);
            }
        }
    }
}

proof fn lemma_present_known(known: Seq<Seq<char>>, d: Seq<Seq<char>>)
    ensures
        forall|y: Seq<char>| #[trigger] present_known(known, d).contains(y) <==> (known.contains(y) && d.contains(y)),
        no_dups(known) ==> no_dups(present_known(known, d)),
    decreases known.len(),
{
    if known.len() > 0 {
        let k = known.drop_last();
        lemma_present_known(k, d);
        let r = present_known(k, d);
        let p = present_known(known, d);
        assert forall|y: Seq<char>| #[trigger] p.contains(y) <==> (known.contains(y) && d.contains(y)) by {
            if p.contains(y) {
                let i = choose|i: int| 0 <= i < p.len() && p[i] == y;
                if i < r.len() {
                    assert(r[i] == y);
                    assert(r.contains(y));
                    let j = choose|j: int| 0 <= j < k.len() && k[j] == y;
                    assert(known[j] == y);
                } else {
                    assert(known[known.len() - 1] == y);
                }
            }
            if known.contains(y) && d.contains(y) {
                let j = choose|j: int| 0 <= j < known.len() && known[j] == y;
                if j < k.len() {
                    assert(k[j] == y);
                    assert(k.contains(y));
                    assert(r.contains(y));
                    let i = choose|i: int| 0 <= i < r.len() && r[i] == y;
                    assert(p[i] == y);
                } else {
                    assert(p[r.len() as int] == y);
                }
            }
        }
        if no_dups(known) {
            assert(no_dups(k)) by {
                assert forall|i: int, j: int| 0 <= i < j < k.len() implies #[trigger] k[i] != #[trigger] k[j] by {
                    assert(known[i] == k[i] && known[j] == k[j]);
                }
            }
            if d.contains(known.last()) {
                assert forall|i: int, j: int| 0 <= i < j < p.len() implies #[trigger] p[i] != #[trigger] p[j] by {
                    if j == r.len() {
                        assert(p[i] == r[i]);
                        if r[i] == known.last() {
                            assert(r.contains(known.last()));
                            let m = choose|m: int| 0 <= m < k.len() && k[m] == known.last();
                            assert(known[m] == known[known.len() - 1]);
                        }
                    } else {
                        assert(p[i] == r[i] && p[j] == r[j]);
                    }
                }
            }
        }
    }
}

proof fn lemma_unknown_events(d: Seq<Seq<char>>)
    ensures
        forall|y: Seq<char>| #[trigger] unknown_events(d).contains(y) <==> (d.contains(y) && !known_events().contains(y)),
        no_dups(d) ==> no_dups(unknown_events(d)),
    decreases d.len(),
{
    if d.len() > 0 {
        let e = d.drop_last();
        lemma_unknown_events(e);
        let r = unknown_events(e);
        let u = unknown_events(d);
        assert forall|y: Seq<char>| #[trigger] u.contains(y) <==> (d.contains(y) && !known_events().contains(y)) by {
            if u.contains(y) {
                let i = choose|i: int| 0 <= i < u.len() && u[i] == y;
                if i < r.len() {
                    assert(r[i] == y);
                    assert(r.contains(y));
                    let j = choose|j: int| 0 <= j < e.len() && e[j] == y;
                    assert(d[j] == y);
                } else {
                    assert(d[d.len() - 1] == y);
                }
            }
            if d.contains(y) && !known_events().contains(y) {
                let j = choose|j: int| 0 <= j < d.len() && d[j] == y;
                if j < e.len() {
                    assert(e[j] == y);
                    assert(e.contains(y));
                    assert(r.contains(y));
                    let i = choose|i: int| 0 <= i < r.len() && r[i] == y;
                    assert(u[i] == y);
                } else {
                    assert(u[r.len() as int] == y);
                }
            }
        }
        if no_dups(d) {
            assert(no_dups(e)) by {
                assert forall|i: int, j: int| 0 <= i < j < e.len() implies #[trigger] e[i] != #[trigger] e[j] by {
                    assert(d[i] == e[i] && d[j] == e[j]);
                }
            }
            if !known_events().contains(d.last()) {
                assert forall|i: int, j: int| 0 <= i < j < u.len() implies #[trigger] u[i] != #[trigger] u[j] by {
                    if j == r.len() {
                        assert(u[i] == r[i]);
                        if r[i] == d.last() {
                            assert(r.contains(d.last()));
                            let m = choose|m: int| 0 <= m < e.len() && e[m] == d.last();
                            assert(d[m] == d[d.len() - 1]);
                        }
                    } else {
                        assert(u[i] == r[i] && u[j] == r[j]);
                    }
                }
            }
        }
    }
}

proof fn lemma_known_events_distinct()
    ensures
        no_dups(known_events()),
{
    reveal_strlit("PreToolUse");
    reveal_strlit("PostToolUse");
    reveal_strlit("PreSession");
    reveal_strlit("PostSession");
    reveal_strlit("Stop");
    let k = known_events();
    assert forall|i: int, j: int| 0 <= i < j < k.len() implies #[trigger] k[i] != #[trigger] k[j] by {
        if i == 0 && j == 2 {
            assert(k[i][3] != k[j][3]);
        } else if i == 1 && j == 3 {
            assert(k[i][4] != k[j][4]);
        } else {
            assert(k[i].len() != k[j].len());
        }
    }
}

/// The event list of the hooks menu names every event of the hooks exactly
/// once, and nothing else.
pub proof fn law_hook_events(hooks: Seq<HookEntry>)
    ensures
        no_dups(events_spec(hooks)),
        forall|y: Seq<char>| #[trigger] events_spec(hooks).contains(y) <==> exists|i: int|
            0 <= i < hooks.len() && hooks[i].event@ == y,
{
    let d = distinct_events(hooks);
    lemma_distinct_events(hooks);
    lemma_known_events_distinct();
    lemma_present_known(known_events(), d);
    lemma_unknown_events(d);
    let a = present_known(known_events(), d);
    let b = unknown_events(d);
    let r = events_spec(hooks);
    assert(r == a + b);
    assert forall|y: Seq<char>| #[trigger] r.contains(y) <==> d.contains(y) by {
        if r.contains(y) {
            let i = choose|i: int| 0 <= i < r.len() && r[i] == y;
            if i < a.len() {
                assert(a[i] == y);
                assert(a.contains(y));
            } else {
                assert(b[i - a.len()] == y);
                assert(b.contains(y));
            }
        }
        if d.contains(y) {
            if known_events().contains(y) {
                assert(a.contains(y));
                let i = choose|i: int| 0 <= i < a.len() && a[i] == y;
                assert(r[i] == y);
            } else {
                assert(b.contains(y));
                let i = choose|i: int| 0 <= i < b.len() && b[i] == y;
                assert(r[a.len() + i] == y);
            }
        }
    }
    assert forall|i: int, j: int| 0 <= i < j < r.len() implies #[trigger] r[i] != #[trigger] r[j] by {
        if j < a.len() {
            assert(r[i] == a[i] && r[j] == a[j]);
        } else if i >= a.len() {
            assert(r[i] == b[i - a.len()] && r[j] == b[j - a.len()]);
        } else {
            assert(r[i] == a[i] && r[j] == b[j - a.len()]);
            if a[i] == b[j - a.len()] {
                assert(a.contains(a[i]));
                assert(b.contains(a[i]));
            }
        }
    }
}

/// Settings screen: the previous tab of the next tab, and the next tab of
/// the previous tab, are the tab one started on.
pub proof fn law_settings_tab_round_trip(v: SettingsView)
    ensures
        prev_tab_spec(next_tab_spec(v)).active_tab == v.active_tab,
        next_tab_spec(prev_tab_spec(v)).active_tab == v.active_tab,
{
}

/// Settings screen: toggling the selected setting twice leaves the screen as
/// it was, and the two writes it asks for restore the stored value.
pub proof fn law_settings_toggle_twice(v: SettingsView)
    ensures
        toggle_spec(toggle_spec(v)) == v,
        match (toggle_write(v), toggle_write(toggle_spec(v))) {
            (Some((a, x)), Some((b, y))) => a == b && y == !x,
            (None, None) => true,
            _ => false,
        },
{
}

/// Pending changes: after a field is set, it reads the value set, and every
/// other field reads as before.
pub proof fn law_pending_read_after_write(p: Seq<(Seq<char>, Seq<char>)>, k: Seq<char>, val: Seq<char>, other: Seq<char>)
    requires
        other != k,
    ensures
        pending_lookup(pending_insert(p, k, val), k) == Some(val),
        pending_lookup(pending_insert(p, k, val), other) == pending_lookup(p, other),
{
    lemma_pending_insert_lookup(p, k, val, other);
}

/// Committing an edit of the model and applying the pending changes sets the
/// model to the edited text (none when it is empty), whatever was pending.
pub proof fn law_commit_then_apply_model(v: SettingsView, c: ConfigView)
    requires
        v.edit_field == Some("model"@),
    ensures
        apply_config(commit_edit_spec(v).pending, c).model == text_value(v.edit_value),
{
    lemma_pending_insert_lookup(v.pending, "model"@, v.edit_value, "max_tokens"@);
}

/// History search: the positions a match highlights are strictly
/// increasing, and a subsequence match highlights one position per
/// character of the query.
pub proof fn law_match_positions_ascending(query: Seq<char>, target: Seq<char>)
    ensures
        match match_spec(query, target) {
            Some(m) => {
                &&& forall|a: int, b: int| 0 <= a < b < m.positions.len() ==> m.positions[a] < m.positions[b]
                &&& m.kind == MatchKind::Subsequence ==> m.positions.len() == m.query_len
            },
            None => true,
        },
{
    if query.len() > 0 {
        let q = lowercase_str(query);
        let t = lowercase_str(target);
        if find_from(t, q, 0) is None {
            let g = greedy(q, t, t.len() as int);
            lemma_greedy_shape(q, t, t.len() as int);
            if g.len() >= q.len() {
                let m = match_spec(query, target).unwrap();
                assert forall|a: int, b: int| 0 <= a < b < m.positions.len() implies m.positions[a] < m.positions[b] by {
                    lemma_offset_mono(t, g[a], g[b]);
                }
            }
        }
    }
}

/// Runs of text (the shimmer's lit and dim parts, the highlighted and plain
/// parts of a search result): they spell out the text, none is empty, and
/// neighbouring runs differ in whether they are marked.
pub proof fn law_runs_partition(s: Seq<char>, lit: spec_fn(int) -> bool)
    ensures
        flatten_runs(runs_by(s, lit, s.len() as int)) == s,
        forall|k: int| 0 <= k < runs_by(s, lit, s.len() as int).len()
            ==> #[trigger] runs_by(s, lit, s.len() as int)[k].0.len() > 0,
        forall|k: int| 0 < k < runs_by(s, lit, s.len() as int).len()
            ==> runs_by(s, lit, s.len() as int)[k - 1].1 != #[trigger] runs_by(s, lit, s.len() as int)[k].1,
{
    lemma_runs_partition(s, lit, s.len() as int);
    assert(s.take(s.len() as int) =~= s);
}

/// The state after each of `ks`, in order, is recorded.
pub open spec fn record_all(v: PromptView, ks: Seq<Seq<char>>) -> PromptView
    decreases ks.len(),
{
    if ks.len() == 0 {
        v
    } else {
        recorded(record_all(v, ks.drop_last()), ks.last())
    }
}

proof fn lemma_record_all(v: PromptView, r: char, ks: Seq<Seq<char>>)
    requires
        v.vim_macro_recording == Some(r),
        v.vim_macro_content.contains_key(r),
    ensures
        record_all(v, ks) == (PromptView {
            vim_macro_content: v.vim_macro_content.insert(r, v.vim_macro_content[r] + ks),
            ..v
        }),
    decreases ks.len(),
{
    let c = v.vim_macro_content;
    if ks.len() == 0 {
        assert(c[r] + ks =~= c[r]);
        assert(c.insert(r, c[r] + ks) =~= c);
    } else {
        lemma_record_all(v, r, ks.drop_last());
        let w = record_all(v, ks.drop_last());
        assert(w.vim_macro_content == c.insert(r, c[r] + ks.drop_last()));
        assert(w.vim_macro_content[r] == c[r] + ks.drop_last());
        assert((c[r] + ks.drop_last()).push(ks.last()) =~= c[r] + ks);
        assert(w.vim_macro_content.insert(r, w.vim_macro_content[r].push(ks.last())) =~= c.insert(r, c[r] + ks));
        assert(record_all(v, ks) == recorded(w, ks.last()));
    }
}

/// Macros: after recording starts in `r`, the keys `ks` are recorded and
/// recording stops, replaying `r` gives exactly `ks`; a register that was
/// never recorded into replays nothing.
pub proof fn law_macro_record_replay(v: PromptView, r: char, ks: Seq<Seq<char>>, other: char)
    requires
        other != r,
        !v.vim_macro_content.contains_key(other),
    ensures
        ({
            let started = PromptView {
                vim_macro_recording: Some(r),
                vim_macro_content: v.vim_macro_content.insert(r, Seq::empty()),
                ..v
            };
            let stopped = PromptView { vim_macro_recording: None, ..record_all(started, ks) };
            &&& macro_keys(stopped, r) == ks
            &&& macro_keys(stopped, other) == Seq::<Seq<char>>::empty()
        }),
{
    let started = PromptView {
        vim_macro_recording: Some(r),
        vim_macro_content: v.vim_macro_content.insert(r, Seq::empty()),
        ..v
    };
    lemma_record_all(started, r, ks);
    assert(Seq::<Seq<char>>::empty() + ks =~= ks);
}

/// Suggestions: stepping to the next suggestion and back returns to the one
/// selected, and the suggestions stay as they were.
pub proof fn law_suggestion_next_prev(v: PromptView, i: usize)
    requires
        0 < v.suggestions.len() <= usize::MAX,
        v.suggestion_index == Some(i),
        i < v.suggestions.len(),
    ensures
        suggestion_prev_spec(suggestion_next_spec(v)).suggestion_index == Some(i),
        suggestion_prev_spec(suggestion_next_spec(v)).suggestions == v.suggestions,
{
    let n = v.suggestions.len() as int;
    let w = suggestion_next_spec(v);
    if i + 1 < n {
        assert((i + 1) % n == i + 1) by (nonlinear_arith)
            requires
                0 <= i + 1 < n,
        ;
        assert(w.suggestion_index == Some((i + 1) as usize));
        assert(w.suggestions.len() > 0);
        assert(suggestion_prev_spec(w).suggestion_index == Some(i));
    } else {
        assert((i + 1) % n == 0) by (nonlinear_arith)
            requires
                i + 1 == n,
                n > 0,
        ;
        assert(w.suggestion_index == Some(0usize));
        assert(w.suggestions.len() == n);
        assert(suggestion_prev_spec(w).suggestion_index == Some(i));
    }
}

pub open spec fn reports_change(o: KeyOut, s: Seq<char>) -> bool {
    o.text != s ==> o.modified
}

proof fn lemma_normal_reports(mode: VimMode, s: Seq<char>, i: int, cur: int, k: Seq<char>, y: Seq<char>, lf: Option<(VimFindKind, char)>, n: usize)
    ensures
        reports_change(normal_spec(mode, s, i, cur, k, y, lf, n), s),
{
}

proof fn lemma_g_reports(mode: VimMode, s: Seq<char>, i: int, cur: int, k: Seq<char>, y: Seq<char>, lf: Option<(VimFindKind, char)>, c: usize)
    ensures
        reports_change(g_spec(mode, s, i, cur, k, y, lf, c), s),
{
}

proof fn lemma_operator_reports(mode: VimMode, s: Seq<char>, i: int, cur: int, k: Seq<char>, y: Seq<char>, lf: Option<(VimFindKind, char)>, op: VimOperator, c: usize, after: PendingView)
    ensures
        reports_change(operator_spec(mode, s, i, cur, k, y, lf, op, c, after), s),
{
}

proof fn lemma_operator_g_reports(mode: VimMode, s: Seq<char>, i: int, cur: int, k: Seq<char>, y: Seq<char>, lf: Option<(VimFindKind, char)>, op: VimOperator, c: usize)
    ensures
        reports_change(operator_g_spec(mode, s, i, cur, k, y, lf, op, c), s),
{
}

proof fn lemma_find_reports(mode: VimMode, s: Seq<char>, i: int, cur: int, k: Seq<char>, y: Seq<char>, lf: Option<(VimFindKind, char)>, kind: VimFindKind, c: usize)
    ensures
        reports_change(find_spec(mode, s, i, cur, k, y, lf, kind, c), s),
{
}

proof fn lemma_replace_reports(mode: VimMode, s: Seq<char>, i: int, cur: int, k: Seq<char>, y: Seq<char>, lf: Option<(VimFindKind, char)>, c: usize)
    requires
        0 <= i <= s.len(),
    ensures
        reports_change(replace_spec(mode, s, i, cur, k, y, lf, c), s),
{
    if i == s.len() {
        assert(crate::vim::replace_run(s, i, i, 'a') =~= s);
        assert(forall|ch: char| crate::vim::replace_run(s, i, i, ch) =~= s);
    }
}

proof fn lemma_indent_reports(mode: VimMode, s: Seq<char>, i: int, cur: int, k: Seq<char>, y: Seq<char>, lf: Option<(VimFindKind, char)>, dir: char, c: usize)
    ensures
        reports_change(indent_spec(mode, s, i, cur, k, y, lf, dir, c), s),
{
}

/// `apply_vim_key` reports every change of the text: when a key leaves a
/// text other than the one before it, the key counts as modifying.
pub proof fn law_key_reports_changes(
    mode: VimMode,
    s: Seq<char>,
    cur: int,
    k: Seq<char>,
    y: Seq<char>,
    p: PendingView,
    lf: Option<(VimFindKind, char)>,
)
    requires
        is_boundary(s, cur),
    ensures
        key_spec(mode, s, cur, k, y, p, lf).text != s ==> key_spec(mode, s, cur, k, y, p, lf).modified,
{
    let i = char_index(s, cur);
    lemma_char_index(s, cur);
    if k != "Escape"@ {
        match p {
            PendingView::Idle => {
                lemma_normal_reports(mode, s, i, cur, k, y, lf, 1);
            },
            PendingView::Count(d) => {
                lemma_normal_reports(mode, s, i, cur, k, y, lf, crate::vim::count_or_one(d) as usize);
            },
            PendingView::G(c) => {
                lemma_g_reports(mode, s, i, cur, k, y, lf, c);
            },
            PendingView::Operator(op, c) => {
                lemma_operator_reports(mode, s, i, cur, k, y, lf, op, c, PendingView::Idle);
            },
            PendingView::OperatorCount(op, c, d) => {
                lemma_operator_reports(
                    mode, s, i, cur, k, y, lf, op,
                    crate::vim::effective_count(c, crate::vim::count_or_one(d)),
                    PendingView::Operator(op, crate::vim::effective_count(c, crate::vim::count_or_one(d))),
                );
            },
            PendingView::OperatorG(op, c) => {
                lemma_operator_g_reports(mode, s, i, cur, k, y, lf, op, c);
            },
            PendingView::Find(kind, c) => {
                lemma_find_reports(mode, s, i, cur, k, y, lf, kind, c);
            },
            PendingView::Replace(c) => {
                lemma_replace_reports(mode, s, i, cur, k, y, lf, c);
            },
            PendingView::Indent(dir, c) => {
                lemma_indent_reports(mode, s, i, cur, k, y, lf, dir, c);
            },
            _ => {},
        }
    }
}

/// The summary of an agent call never runs over a line: it is the first line
/// of the task (or of the description when the task is empty), trimmed and
/// cut; the same holds of a shell call's command.
pub proof fn law_agent_summary_one_line(f: Seq<(Seq<char>, Seq<char>)>)
    ensures
        one_line(tool_summary("Agent"@, f)),
        one_line(tool_summary("Bash"@, f)),
        one_line(tool_summary("PowerShell"@, f)),
{
    let task = field_text(f, "task"@);
    let src = if task.len() == 0 { field_text(f, "description"@) } else { task };
    lemma_first_line_one_line(src);
    lemma_summary_one_line(first_line(src));
    let cmd_text = field_text(f, "command"@);
    lemma_first_line_one_line(cmd_text);
    lemma_summary_one_line(first_line(cmd_text));
    reveal_strlit("Agent");
    reveal_strlit("Bash");
    reveal_strlit("PowerShell");
    reveal_strlit("Read");
    reveal_strlit("Edit");
    reveal_strlit("Write");
    reveal_strlit("Glob");
    reveal_strlit("Grep");
    reveal_strlit("WebFetch");
    reveal_strlit("WebSearch");
    assert("Agent"@[0] != "Bash"@[0]);
    assert("Agent"@[0] != "PowerShell"@[0]);
    assert("Agent"@ != "Read"@);
    assert("Agent"@ != "Edit"@);
    assert("Agent"@ != "Write"@);
    assert("Agent"@ != "Glob"@);
    assert("Agent"@ != "Grep"@);
    assert("Agent"@ != "WebFetch"@);
    assert("Agent"@ != "WebSearch"@);
    assert(tool_summary("Agent"@, f) == summary_of(first_line(src)));
}

/// The longest run that a subsequence match reports is the longest run of
/// adjacent matched characters, wherever it lies among the matched indices:
/// no run is longer, and one run has exactly that length.
pub proof fn law_match_longest_run(query: Seq<char>, target: Seq<char>)
    requires
        match_spec(query, target) matches Some(mv) && mv.kind == MatchKind::Subsequence,
    ensures
        ({
            let m = greedy(lowercase_str(query), lowercase_str(target), lowercase_str(target).len() as int);
            let best = match_spec(query, target).unwrap().max_run;
            &&& forall|a: int, b: int| #[trigger] adjacent_run(m, a, b) ==> b - a + 1 <= best
            &&& exists|a: int, b: int| #[trigger] adjacent_run(m, a, b) && b - a + 1 == best
        }),
{
    let q = lowercase_str(query);
    let t = lowercase_str(target);
    let m = greedy(q, t, t.len() as int);
    if q.len() == 0 {
        assert(t.subrange(0, 0) =~= q);
        assert(occurs_at(t, q, 0));
    }
    assert(m.len() >= 1);
    lemma_best_run(m, m.len() as int);
}

/// Going back from the matcher screen returns to the event list with the
/// entered event selected.
pub proof fn law_back_reselects_event(v: HooksView, e: Seq<char>)
    requires
        v.mode == HooksMenuMode::SelectMatcher,
        v.selected_event == Some(e),
        v.events.contains(e),
        v.events.len() <= usize::MAX,
    ensures
        back_spec(v).mode == HooksMenuMode::SelectEvent,
        back_spec(v).selected < back_spec(v).events.len(),
        back_spec(v).events[back_spec(v).selected as int] == e,
{
    lemma_first_index(v.events, e);
}

/// Going back from the hook screen returns to the matcher list with the
/// entered matcher selected.
pub proof fn law_back_reselects_matcher(v: HooksView, mt: Seq<char>)
    requires
        v.mode == HooksMenuMode::SelectHook,
        v.selected_matcher == Some(mt),
        matchers_of(v).contains(mt),
        matchers_of(v).len() <= usize::MAX,
    ensures
        back_spec(v).mode == HooksMenuMode::SelectMatcher,
        back_spec(v).selected < matchers_of(back_spec(v)).len(),
        matchers_of(back_spec(v))[back_spec(v).selected as int] == mt,
{
    lemma_first_index(matchers_of(v), mt);
    assert(matchers_of(back_spec(v)) == matchers_of(v));
}

/// Entering an event and going back selects that event again, when the
/// events are distinct (as the menu builds them).
pub proof fn law_enter_back_event(v: HooksView)
    requires
        v.mode == HooksMenuMode::SelectEvent,
        v.selected < v.events.len(),
        no_dups(v.events),
    ensures
        back_spec(enter_spec(v)).mode == HooksMenuMode::SelectEvent,
        back_spec(enter_spec(v)).selected == v.selected,
        back_spec(enter_spec(v)).selected_event is None,
{
    let e = v.events[v.selected as int];
    assert(v.events.contains(e));
    lemma_first_index(v.events, e);
    let fi = first_index(v.events, e);
    if fi < v.selected {
        assert(v.events[fi] != v.events[v.selected as int]);
    }
}

/// `J` joins the cursor's line with the next one: the line feed between them
/// becomes one space, or goes away when the next line already starts with a
/// space.
pub proof fn law_join_lines(
    mode: VimMode,
    a: Seq<char>,
    b: Seq<char>,
    i: int,
    y: Seq<char>,
    lf: Option<(VimFindKind, char)>,
)
    requires
        forall|k: int| 0 <= k < a.len() ==> a[k] != '\n',
        0 <= i <= a.len(),
    ensures
        ({
            let s = a + seq!['\n'] + b;
            let r = key_spec(mode, s, byte_offset(s, i) as int, seq!['J'], y, PendingView::Idle, lf);
            &&& (b.len() == 0 || b[0] != ' ') ==> r.text == a + seq![' '] + b
            &&& (b.len() > 0 && b[0] == ' ') ==> r.text == a + b
            &&& r.modified
            &&& r.cursor == byte_offset(s, i)
        }),
{
    let s = a + seq!['\n'] + b;
    let n = a.len() as int;
    assert(s[n] == '\n');
    assert forall|k: int| i <= k < n implies s[k] != '\n' by {
        assert(s[k] == a[k]);
    }
    lemma_line_end_at(s, i, n);
    lemma_index_of_offset(s, i);
    reveal_strlit("Escape");
    assert(seq!['J'] != "Escape"@) by {
        assert(seq!['J'].len() != "Escape"@.len());
    }
    let s1 = cut(s, n, n + 1);
    assert(s1 =~= a + b);
    if b.len() > 0 && b[0] == ' ' {
        assert(s1[n] == b[0]);
    } else {
        if b.len() > 0 {
            assert(s1[n] == b[0]);
        }
        assert(splice(s1, n, seq![' ']) =~= a + seq![' '] + b);
    }
}

/// An agent call whose task (or, with no task, whose description) starts
/// with a line `a` that fits is summarised as `a` trimmed: what follows the
/// first line feed is left out.
pub proof fn law_agent_summary_first_line(f: Seq<(Seq<char>, Seq<char>)>, a: Seq<char>, rest: Seq<char>)
    requires
        one_line(a),
        a.len() == 0 || a.last() != '\r',
        trim(a).len() <= TOOL_SUMMARY_CHARS,
        ({
            let task = field_text(f, "task"@);
            let desc = field_text(f, "description"@);
            ||| task == a + seq!['\n'] + rest
            ||| task == a && a.len() > 0
            ||| task.len() == 0 && (desc == a || desc == a + seq!['\n'] + rest)
        }),
    ensures
        tool_summary("Agent"@, f) == trim(a),
{
    let task = field_text(f, "task"@);
    let src = if task.len() == 0 { field_text(f, "description"@) } else { task };
    lemma_first_line_of(a, rest);
    assert((a + seq!['\n'] + rest).len() > 0);
    assert(first_line(src) == a);
    lemma_summary_fits(a);
    reveal_strlit("Agent");
    reveal_strlit("Bash");
    reveal_strlit("PowerShell");
    reveal_strlit("Read");
    reveal_strlit("Edit");
    reveal_strlit("Write");
    reveal_strlit("Glob");
    reveal_strlit("Grep");
    reveal_strlit("WebFetch");
    reveal_strlit("WebSearch");
    assert("Agent"@[0] != "Bash"@[0]);
    assert("Agent"@[0] != "PowerShell"@[0]);
    assert("Agent"@ != "Read"@);
    assert("Agent"@ != "Edit"@);
    assert("Agent"@ != "Write"@);
    assert("Agent"@ != "Glob"@);
    assert("Agent"@ != "Grep"@);
    assert("Agent"@ != "WebFetch"@);
    assert("Agent"@ != "WebSearch"@);
    assert(tool_summary("Agent"@, f) == summary_of(first_line(src)));
}

/// Every command of the table whose lowercased name starts with the
/// lowercased text typed after `/` is suggested.
pub proof fn law_typeahead_complete(input: Seq<char>, cmds: Seq<(Seq<char>, Seq<char>)>, j: int)
    requires
        input.len() > 0,
        input[0] == '/',
        0 <= j < cmds.len(),
        starts_with(lowercase_str(cmds[j].0), lowercase_str(input.drop_first())),
    ensures
        exists|i: int|
            0 <= i < typeahead(input, cmds).len() && #[trigger] typeahead(input, cmds)[i].text == seq!['/'] + cmds[j].0
                && typeahead(input, cmds)[i].description == cmds[j].1,
    decreases cmds.len(),
{
    let d = cmds.drop_last();
    let t = typeahead(input, cmds);
    if j == cmds.len() - 1 {
        assert(cmds.last() == cmds[j]);
        let i = t.len() - 1;
        assert(t[i].text == seq!['/'] + cmds[j].0);
    } else {
        assert(d[j] == cmds[j]);
        law_typeahead_complete(input, d, j);
        let rest = typeahead(input, d);
        let i = choose|i: int| 0 <= i < rest.len() && #[trigger] rest[i].text == seq!['/'] + d[j].0 && rest[i].description == d[j].1;
        assert(t[i] == rest[i]);
    }
}

/// `J` on the last line changes nothing.
pub proof fn law_join_last_line(
    mode: VimMode,
    s: Seq<char>,
    i: int,
    y: Seq<char>,
    lf: Option<(VimFindKind, char)>,
)
    requires
        0 <= i <= s.len(),
        forall|k: int| i <= k < s.len() ==> s[k] != '\n',
    ensures
        ({
            let r = key_spec(mode, s, byte_offset(s, i) as int, seq!['J'], y, PendingView::Idle, lf);
            &&& r.text == s
            &&& r.cursor == byte_offset(s, i)
            &&& !r.modified
        }),
{
    lemma_line_end_last(s, i);
    lemma_index_of_offset(s, i);
    reveal_strlit("Escape");
    assert(seq!['J'] != "Escape"@) by {
        assert(seq!['J'].len() != "Escape"@.len());
    }
}

} // verus!
