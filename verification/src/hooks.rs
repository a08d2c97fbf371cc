//! The read-only hooks browser: hook events, then the matchers of an event,
//! then the hooks of a matcher, then one hook's details.
use vstd::prelude::*;
use crate::prompt::{opt_view, string_views};
use crate::text::{chars_of, concat_vec, str_is, string_of, vec_eq};
use crate::json::{get, items, members, str_of, json_array, json_get, json_object, json_str_of, opt_str, opt_text, pairs_view, texts_view};

verus! {

// ---------------------------------------------------------------------------
// Data model
// ---------------------------------------------------------------------------

/// A single configured hook.
#[derive(Debug, Clone)]
pub struct HookEntry {
    /// e.g. "PreToolUse", "PostToolUse", "PreSession", "PostSession", "Stop"
    pub event: String,
    /// Glob / regex matcher pattern, e.g. "Bash", "*", "Write"
    pub matcher: String,
    /// Hook type: "command", "prompt", "agent", "http"
    pub hook_type: String,
    /// The command, prompt text, agent name or URL of the hook.
    pub target: String,
}

/// The icon that starts a hook's summary, by hook type.
pub open spec fn hook_icon(t: Seq<char>) -> Seq<char> {
    if t == "command"@ {
        "\u{f120}"@
    } else if t == "prompt"@ {
        "\u{f075}"@
    } else if t == "agent"@ {
        "\u{f013}"@
    } else if t == "http"@ {
        "\u{f0c1}"@
    } else {
        "\u{2022}"@
    }
}

impl HookEntry {
    /// Short one-line description of the hook: its type's icon and its target.
    pub fn summary(&self) -> (r: String)
        ensures
            r@ == hook_icon(self.hook_type@) + seq![' '] + self.target@,
    {
        let t = chars_of(self.hook_type.as_str());
        let icon = if str_is(&t, "command") {
            "\u{f120}"
        } else if str_is(&t, "prompt") {
            "\u{f075}"
        } else if str_is(&t, "agent") {
            "\u{f013}"
        } else if str_is(&t, "http") {
            "\u{f0c1}"
        } else {
            "\u{2022}"
        };
        let mut head = chars_of(icon);
        head.push(' ');
        string_of(&concat_vec(&head, &chars_of(self.target.as_str())))
    }
}

/// The target of a hook of type `t`: its `command`, `prompt`, `agent` or
/// `url` field by type (`command` for an unknown type), empty when absent.
pub open spec fn hook_target(
    t: Seq<char>,
    command: Option<Seq<char>>,
    prompt: Option<Seq<char>>,
    agent: Option<Seq<char>>,
    url: Option<Seq<char>>,
) -> Seq<char> {
    or_empty(
        if t == "prompt"@ {
            prompt
        } else if t == "agent"@ {
            agent
        } else if t == "http"@ {
            url
        } else {
            command
        },
    )
}

fn opt_chars(o: Option<&str>) -> (r: Vec<char>)
    ensures
        r@ == or_empty(match o {
            Some(s) => Some(s@),
            None => None,
        }),
{
    match o {
        Some(s) => chars_of(s),
        None => Vec::new(),
    }
}

pub open spec fn opt_str_view(o: Option<&str>) -> Option<Seq<char>> {
    match o {
        Some(s) => Some(s@),
        None => None,
    }
}

/// A hook read from the settings: the matcher defaults to `*` and the type
/// to `command`; the target is the field that the type names; a hook whose
/// target is empty is skipped (`None`).
pub fn hook_from_fields(
    event: &str,
    matcher: Option<&str>,
    hook_type: Option<&str>,
    command: Option<&str>,
    prompt: Option<&str>,
    agent: Option<&str>,
    url: Option<&str>,
) -> (r: Option<HookEntry>)
    ensures
        ({
            let t = match hook_type {
                Some(h) => h@,
                None => "command"@,
            };
            let target = hook_target(
                t,
                opt_str_view(command),
                opt_str_view(prompt),
                opt_str_view(agent),
                opt_str_view(url),
            );
            match r {
                Some(h) => target.len() > 0 && h.event@ == event@ && h.matcher@ == (match matcher {
                    Some(m) => m@,
                    None => "*"@,
                }) && h.hook_type@ == t && h.target@ == target,
                None => target.len() == 0,
            }
        }),
{
    let t = match hook_type {
        Some(h) => chars_of(h),
        None => chars_of("command"),
    };
    let target = if str_is(&t, "prompt") {
        opt_chars(prompt)
    } else if str_is(&t, "agent") {
        opt_chars(agent)
    } else if str_is(&t, "http") {
        opt_chars(url)
    } else {
        opt_chars(command)
    };
    if target.len() == 0 {
        return None;
    }
    let m = match matcher {
        Some(m) => chars_of(m),
        None => chars_of("*"),
    };
    Some(
        HookEntry {
            event: string_of(&chars_of(event)),
            matcher: string_of(&m),
            hook_type: string_of(&t),
            target: string_of(&target),
        },
    )
}

/// The screen of the menu.
#[derive(Debug, Clone, Copy, PartialEq, Eq, Structural)]
pub enum HooksMenuMode {
    /// Screen 1: list of distinct event names.
    SelectEvent,
    /// Screen 2: matchers for `selected_event`.
    SelectMatcher,
    /// Screen 3: hooks for `selected_event` + `selected_matcher`.
    SelectHook,
    /// Screen 4: detail view for a single hook.
    ViewHook,
}

pub struct HooksConfigMenuState {
    pub visible: bool,
    pub mode: HooksMenuMode,
    pub hooks: Vec<HookEntry>,
    /// All distinct event names (populated from `hooks`).
    pub events: Vec<String>,
    /// Selected index within the current list (reused across screens).
    pub selected: usize,
    pub scroll_offset: usize,
    /// Drilled-down selection breadcrumb.
    pub selected_event: Option<String>,
    pub selected_matcher: Option<String>,
}

/// The menu state with its strings as character sequences.
pub ghost struct HooksView {
    pub visible: bool,
    pub mode: HooksMenuMode,
    pub hooks: Seq<HookEntry>,
    pub events: Seq<Seq<char>>,
    pub selected: usize,
    pub scroll_offset: usize,
    pub selected_event: Option<Seq<char>>,
    pub selected_matcher: Option<Seq<char>>,
}

impl View for HooksConfigMenuState {
    type V = HooksView;

    open spec fn view(&self) -> HooksView {
        HooksView {
            visible: self.visible,
            mode: self.mode,
            hooks: self.hooks@,
            events: string_views(self.events@),
            selected: self.selected,
            scroll_offset: self.scroll_offset,
            selected_event: opt_view(self.selected_event),
            selected_matcher: opt_view(self.selected_matcher),
        }
    }
}

// ---------------------------------------------------------------------------
// Lists of the screens
// ---------------------------------------------------------------------------

/// `s` with `x` appended unless it already occurs.
pub open spec fn push_new(s: Seq<Seq<char>>, x: Seq<char>) -> Seq<Seq<char>> {
    if s.contains(x) {
        s
    } else {
        s.push(x)
    }
}

/// The distinct events of `hooks`, in order of first appearance.
pub open spec fn distinct_events(hooks: Seq<HookEntry>) -> Seq<Seq<char>>
    decreases hooks.len(),
{
    if hooks.len() == 0 {
        Seq::empty()
    } else {
        push_new(distinct_events(hooks.drop_last()), hooks.last().event@)
    }
}

/// The well-known events, in their canonical order.
pub open spec fn known_events() -> Seq<Seq<char>> {
    seq!["PreToolUse"@, "PostToolUse"@, "PreSession"@, "PostSession"@, "Stop"@]
}

/// The entries of `known` that occur in `d`, in the order of `known`.
pub open spec fn present_known(known: Seq<Seq<char>>, d: Seq<Seq<char>>) -> Seq<Seq<char>>
    decreases known.len(),
{
    if known.len() == 0 {
        Seq::empty()
    } else {
        let r = present_known(known.drop_last(), d);
        if d.contains(known.last()) {
            r.push(known.last())
        } else {
            r
        }
    }
}

/// The entries of `d` that are not well-known events, in order.
pub open spec fn unknown_events(d: Seq<Seq<char>>) -> Seq<Seq<char>>
    decreases d.len(),
{
    if d.len() == 0 {
        Seq::empty()
    } else {
        let r = unknown_events(d.drop_last());
        if known_events().contains(d.last()) {
            r
        } else {
            r.push(d.last())
        }
    }
}

/// The event list: the distinct events sorted stably by canonical position,
/// that is the well-known ones present in canonical order, then the others in
/// order of first appearance.
pub open spec fn events_spec(hooks: Seq<HookEntry>) -> Seq<Seq<char>> {
    let d = distinct_events(hooks);
    present_known(known_events(), d) + unknown_events(d)
}

/// The distinct matchers of the hooks of event `ev`, in order of first appearance.
pub open spec fn event_matchers(hooks: Seq<HookEntry>, ev: Seq<char>) -> Seq<Seq<char>>
    decreases hooks.len(),
{
    if hooks.len() == 0 {
        Seq::empty()
    } else {
        let r = event_matchers(hooks.drop_last(), ev);
        if hooks.last().event@ == ev {
            push_new(r, hooks.last().matcher@)
        } else {
            r
        }
    }
}

/// The hooks of event `ev` and matcher `mt`, in order.
pub open spec fn selection(hooks: Seq<HookEntry>, ev: Seq<char>, mt: Seq<char>) -> Seq<HookEntry>
    decreases hooks.len(),
{
    if hooks.len() == 0 {
        Seq::empty()
    } else {
        let r = selection(hooks.drop_last(), ev, mt);
        if hooks.last().event@ == ev && hooks.last().matcher@ == mt {
            r.push(hooks.last())
        } else {
            r
        }
    }
}

/// The matchers of the selected event (none without one).
pub open spec fn matchers_of(v: HooksView) -> Seq<Seq<char>> {
    match v.selected_event {
        Some(e) => event_matchers(v.hooks, e),
        None => Seq::empty(),
    }
}

pub open spec fn or_empty(o: Option<Seq<char>>) -> Seq<char> {
    match o {
        Some(s) => s,
        None => Seq::empty(),
    }
}

/// The hooks of the selected event and matcher (an unset one counts as empty).
pub open spec fn hooks_of(v: HooksView) -> Seq<HookEntry> {
    selection(v.hooks, or_empty(v.selected_event), or_empty(v.selected_matcher))
}

/// Number of hooks of event `ev`.
pub open spec fn event_count(hooks: Seq<HookEntry>, ev: Seq<char>) -> nat
    decreases hooks.len(),
{
    if hooks.len() == 0 {
        0
    } else {
        event_count(hooks.drop_last(), ev) + if hooks.last().event@ == ev {
            1nat
        } else {
            0nat
        }
    }
}

/// Index of the first occurrence of `x` in `s`, or `-1`.
pub open spec fn first_index(s: Seq<Seq<char>>, x: Seq<char>) -> int
    decreases s.len(),
{
    if s.len() == 0 {
        -1
    } else if s[0] == x {
        0
    } else {
        let r = first_index(s.drop_first(), x);
        if r < 0 {
            -1
        } else {
            r + 1
        }
    }
}

/// `first_index` finds the first occurrence, and only misses an absent value.
pub proof fn lemma_first_index(s: Seq<Seq<char>>, x: Seq<char>)
    ensures
        s.contains(x) ==> {
            &&& 0 <= first_index(s, x) < s.len()
            &&& s[first_index(s, x)] == x
            &&& forall|k: int| 0 <= k < first_index(s, x) ==> s[k] != x
        },
        !s.contains(x) ==> first_index(s, x) == -1,
    decreases s.len(),
{
    if s.len() > 0 {
        let d = s.drop_first();
        lemma_first_index(d, x);
        if s[0] != x {
            if s.contains(x) {
                let j = choose|j: int| 0 <= j < s.len() && s[j] == x;
                assert(d[j - 1] == x);
                assert(d.contains(x));
                assert forall|k: int| 0 <= k < first_index(s, x) implies s[k] != x by {
                    if k > 0 {
                        assert(s[k] == d[k - 1]);
                    }
                }
            } else {
                if d.contains(x) {
                    let j = choose|j: int| 0 <= j < d.len() && d[j] == x;
                    assert(s[j + 1] == x);
                }
            }
        } else {
            assert(s.contains(x)) by {
                assert(s[0] == x);
            }
        }
    }
}

/// Where the selection returns to when leaving a screen: the position of the
/// item that was chosen, or 0.
pub open spec fn position_or_zero(s: Seq<Seq<char>>, x: Option<Seq<char>>) -> usize {
    match x {
        Some(v) => if first_index(s, v) >= 0 {
            first_index(s, v) as usize
        } else {
            0
        },
        None => 0,
    }
}

/// Number of entries on the current screen (none on the detail screen).
pub open spec fn screen_len(v: HooksView) -> nat {
    match v.mode {
        HooksMenuMode::SelectEvent => v.events.len(),
        HooksMenuMode::SelectMatcher => matchers_of(v).len(),
        HooksMenuMode::SelectHook => hooks_of(v).len(),
        HooksMenuMode::ViewHook => 0,
    }
}

/// `enter`: go one screen deeper on the selected item, starting its list at the top.
pub open spec fn enter_spec(v: HooksView) -> HooksView {
    match v.mode {
        HooksMenuMode::SelectEvent => if v.selected < v.events.len() {
            HooksView {
                selected_event: Some(v.events[v.selected as int]),
                mode: HooksMenuMode::SelectMatcher,
                selected: 0,
                scroll_offset: 0,
                ..v
            }
        } else {
            v
        },
        HooksMenuMode::SelectMatcher => if v.selected < matchers_of(v).len() {
            HooksView {
                selected_matcher: Some(matchers_of(v)[v.selected as int]),
                mode: HooksMenuMode::SelectHook,
                selected: 0,
                scroll_offset: 0,
                ..v
            }
        } else {
            v
        },
        HooksMenuMode::SelectHook => if v.selected < hooks_of(v).len() {
            HooksView { mode: HooksMenuMode::ViewHook, scroll_offset: 0, ..v }
        } else {
            v
        },
        HooksMenuMode::ViewHook => v,
    }
}

/// `back`: go one screen up, reselecting the item that was entered; from the
/// event list, close the menu.
pub open spec fn back_spec(v: HooksView) -> HooksView {
    match v.mode {
        HooksMenuMode::SelectEvent => HooksView { visible: false, ..v },
        HooksMenuMode::SelectMatcher => HooksView {
            mode: HooksMenuMode::SelectEvent,
            selected: position_or_zero(v.events, v.selected_event),
            selected_event: None,
            scroll_offset: 0,
            ..v
        },
        HooksMenuMode::SelectHook => HooksView {
            mode: HooksMenuMode::SelectMatcher,
            selected: position_or_zero(matchers_of(v), v.selected_matcher),
            selected_matcher: None,
            scroll_offset: 0,
            ..v
        },
        HooksMenuMode::ViewHook => HooksView { mode: HooksMenuMode::SelectHook, scroll_offset: 0, ..v },
    }
}

// ---------------------------------------------------------------------------
// Executable list helpers
// ---------------------------------------------------------------------------

/// Whether `x` occurs among the strings `v`.
fn contains_str(v: &Vec<String>, x: &Vec<char>) -> (r: bool)
    ensures
        r == string_views(v@).contains(x@),
{
    let mut i: usize = 0;
    while i < v.len()
        invariant
            i <= v.len(),
            forall|j: int| 0 <= j < i ==> string_views(v@)[j] != x@,
        decreases v.len() - i,
    {
        if vec_eq(&chars_of(v[i].as_str()), x) {
            assert(string_views(v@)[i as int] == x@);
            return true;
        }
        i = i + 1;
    }
    false
}

/// `v` with `x` appended unless it already occurs.
fn push_new_exec(v: &mut Vec<String>, x: &Vec<char>)
    ensures
        string_views(final(v)@) == push_new(string_views(old(v)@), x@),
{
    if !contains_str(v, x) {
        let ghost v0 = v@;
        v.push(string_of(x));
        assert(string_views(v@) =~= string_views(v0).push(x@));
    }
}

fn distinct_events_exec(hooks: &Vec<HookEntry>) -> (r: Vec<String>)
    ensures
        string_views(r@) == distinct_events(hooks@),
{
    let mut r: Vec<String> = Vec::new();
    let mut i: usize = 0;
    assert(string_views(r@) =~= Seq::<Seq<char>>::empty());
    while i < hooks.len()
        invariant
            i <= hooks.len(),
            string_views(r@) == distinct_events(hooks@.take(i as int)),
        decreases hooks.len() - i,
    {
        proof {
            assert(hooks@.take(i as int + 1).drop_last() =~= hooks@.take(i as int));
        }
        push_new_exec(&mut r, &chars_of(hooks[i].event.as_str()));
        i = i + 1;
    }
    assert(hooks@.take(hooks.len() as int) =~= hooks@);
    r
}

fn build_events(hooks: &Vec<HookEntry>) -> (r: Vec<String>)
    ensures
        string_views(r@) == events_spec(hooks@),
{
    let d = distinct_events_exec(hooks);
    let known = vec!["PreToolUse", "PostToolUse", "PreSession", "PostSession", "Stop"];
    let ghost kv = known@.map_values(|s: &str| s@);
    assert(kv =~= known_events());
    let mut r: Vec<String> = Vec::new();
    let mut i: usize = 0;
    assert(string_views(r@) =~= Seq::<Seq<char>>::empty());
    while i < known.len()
        invariant
            i <= known.len(),
            kv == known@.map_values(|s: &str| s@),
            string_views(r@) == present_known(kv.take(i as int), string_views(d@)),
        decreases known.len() - i,
    {
        proof {
            assert(kv.take(i as int + 1).drop_last() =~= kv.take(i as int));
        }
        let k = chars_of(known[i]);
        if contains_str(&d, &k) {
            let ghost r0 = r@;
            r.push(string_of(&k));
            assert(string_views(r@) =~= string_views(r0).push(k@));
        }
        i = i + 1;
    }
    assert(kv.take(known.len() as int) =~= kv);
    let ghost prefix = string_views(r@);
    let mut j: usize = 0;
    assert(string_views(r@) =~= prefix + unknown_events(string_views(d@).take(0)));
    while j < d.len()
        invariant
            j <= d.len(),
            kv == known_events(),
            kv == known@.map_values(|s: &str| s@),
            string_views(r@) == prefix + unknown_events(string_views(d@).take(j as int)),
        decreases d.len() - j,
    {
        let ghost dv = string_views(d@);
        proof {
            assert(dv.take(j as int + 1).drop_last() =~= dv.take(j as int));
            assert(dv.take(j as int + 1).last() == d@[j as int]@);
        }
        let e = chars_of(d[j].as_str());
        let mut is_known = false;
        let mut m: usize = 0;
        while m < known.len()
            invariant
                m <= known.len(),
                kv == known@.map_values(|s: &str| s@),
                is_known == kv.take(m as int).contains(e@),
            decreases known.len() - m,
        {
            proof {
                assert(kv.take(m as int + 1) =~= kv.take(m as int).push(kv[m as int]));
            }
            let eq = str_is(&e, known[m]);
            proof {
                let t0 = kv.take(m as int);
                let t1 = kv.take(m as int + 1);
                assert(kv[m as int] == known@[m as int]@);
                if t1.contains(e@) {
                    let w = choose|w: int| 0 <= w < t1.len() && t1[w] == e@;
                    if w < m {
                        assert(t0[w] == e@);
                    }
                }
                if t0.contains(e@) {
                    let w = choose|w: int| 0 <= w < t0.len() && t0[w] == e@;
                    assert(t1[w] == e@);
                }
                if eq {
                    assert(t1[m as int] == e@);
                }
            }
            is_known = is_known || eq;
            m = m + 1;
        }
        assert(kv.take(known.len() as int) =~= kv);
        if !is_known {
            let ghost r0 = r@;
            r.push(string_of(&e));
            assert(string_views(r@) =~= string_views(r0).push(e@));
        }
        j = j + 1;
    }
    assert(string_views(d@).take(d.len() as int) =~= string_views(d@));
    r
}

impl HooksConfigMenuState {
    pub fn new() -> (r: Self)
        ensures
            !r.visible,
            r.mode == HooksMenuMode::SelectEvent,
            r.hooks@.len() == 0,
            r.events@.len() == 0,
            r.selected == 0,
            r.scroll_offset == 0,
            r.selected_event is None,
            r.selected_matcher is None,
    {
        HooksConfigMenuState {
            visible: false,
            mode: HooksMenuMode::SelectEvent,
            hooks: Vec::new(),
            events: Vec::new(),
            selected: 0,
            scroll_offset: 0,
            selected_event: None,
            selected_matcher: None,
        }
    }

    /// Open the menu at the event list on the configured `hooks`.
    pub fn open_with_hooks(&mut self, hooks: Vec<HookEntry>)
        ensures
            final(self)@ == (HooksView {
                visible: true,
                mode: HooksMenuMode::SelectEvent,
                hooks: hooks@,
                events: events_spec(hooks@),
                selected: 0,
                scroll_offset: 0,
                selected_event: None,
                selected_matcher: None,
            }),
    {
        self.mode = HooksMenuMode::SelectEvent;
        self.selected = 0;
        self.scroll_offset = 0;
        self.selected_event = None;
        self.selected_matcher = None;
        self.events = build_events(&hooks);
        self.hooks = hooks;
        self.visible = true;
    }

    /// Open the menu at the event list on the hooks configured in the
    /// settings text (see `settings_hooks`; none without a settings file).
    pub fn open_with_settings(&mut self, settings_json: Option<&str>)
        ensures
            hook_views(final(self)@.hooks) == settings_hooks(opt_str(settings_json)),
            final(self)@ == (HooksView {
                visible: true,
                mode: HooksMenuMode::SelectEvent,
                hooks: final(self)@.hooks,
                events: events_spec(final(self)@.hooks),
                selected: 0,
                scroll_offset: 0,
                selected_event: None,
                selected_matcher: None,
            }),
    {
        let hooks = hooks_from_settings(settings_json);
        self.open_with_hooks(hooks);
    }

    pub fn close(&mut self)
        ensures
            final(self)@ == (HooksView { visible: false, ..old(self)@ }),
    {
        self.visible = false;
    }

    /// The distinct matchers of the selected event, in order of first appearance.
    pub fn matchers_for_event(&self) -> (r: Vec<String>)
        ensures
            string_views(r@) == matchers_of(self@),
    {
        let ev = match &self.selected_event {
            Some(e) => chars_of(e.as_str()),
            None => {
                let r: Vec<String> = Vec::new();
                assert(string_views(r@) =~= Seq::<Seq<char>>::empty());
                return r;
            },
        };
        let mut r: Vec<String> = Vec::new();
        let mut i: usize = 0;
        assert(string_views(r@) =~= Seq::<Seq<char>>::empty());
        while i < self.hooks.len()
            invariant
                i <= self.hooks.len(),
                string_views(r@) == event_matchers(self.hooks@.take(i as int), ev@),
            decreases self.hooks.len() - i,
        {
            proof {
                assert(self.hooks@.take(i as int + 1).drop_last() =~= self.hooks@.take(i as int));
            }
            if vec_eq(&chars_of(self.hooks[i].event.as_str()), &ev) {
                push_new_exec(&mut r, &chars_of(self.hooks[i].matcher.as_str()));
            }
            i = i + 1;
        }
        assert(self.hooks@.take(self.hooks.len() as int) =~= self.hooks@);
        r
    }

    /// Number of hooks of the selected event and matcher.
    fn selection_len(&self) -> (n: usize)
        ensures
            n == hooks_of(self@).len(),
    {
        let ev = match &self.selected_event {
            Some(e) => chars_of(e.as_str()),
            None => Vec::new(),
        };
        let mt = match &self.selected_matcher {
            Some(m) => chars_of(m.as_str()),
            None => Vec::new(),
        };
        let mut n: usize = 0;
        let mut i: usize = 0;
        while i < self.hooks.len()
            invariant
                i <= self.hooks.len(),
                ev@ == or_empty(self@.selected_event),
                mt@ == or_empty(self@.selected_matcher),
                n == selection(self.hooks@.take(i as int), ev@, mt@).len(),
                n <= i,
            decreases self.hooks.len() - i,
        {
            proof {
                assert(self.hooks@.take(i as int + 1).drop_last() =~= self.hooks@.take(i as int));
            }
            if vec_eq(&chars_of(self.hooks[i].event.as_str()), &ev) && vec_eq(
                &chars_of(self.hooks[i].matcher.as_str()),
                &mt,
            ) {
                n = n + 1;
            }
            i = i + 1;
        }
        assert(self.hooks@.take(self.hooks.len() as int) =~= self.hooks@);
        n
    }

    /// The hooks of the selected event and matcher, in order.
    pub fn hooks_for_selection(&self) -> (r: Vec<&HookEntry>)
        ensures
            r@.map_values(|h: &HookEntry| *h) == hooks_of(self@),
    {
        let ev = match &self.selected_event {
            Some(e) => chars_of(e.as_str()),
            None => Vec::new(),
        };
        let mt = match &self.selected_matcher {
            Some(m) => chars_of(m.as_str()),
            None => Vec::new(),
        };
        let mut r: Vec<&HookEntry> = Vec::new();
        let mut i: usize = 0;
        while i < self.hooks.len()
            invariant
                i <= self.hooks.len(),
                ev@ == or_empty(self@.selected_event),
                mt@ == or_empty(self@.selected_matcher),
                r@.map_values(|h: &HookEntry| *h) == selection(self.hooks@.take(i as int), ev@, mt@),
            decreases self.hooks.len() - i,
        {
            proof {
                assert(self.hooks@.take(i as int + 1).drop_last() =~= self.hooks@.take(i as int));
            }
            let h = &self.hooks[i];
            if vec_eq(&chars_of(h.event.as_str()), &ev) && vec_eq(&chars_of(h.matcher.as_str()), &mt) {
                let ghost r0 = r@;
                r.push(h);
                assert(r@.map_values(|h: &HookEntry| *h) =~= r0.map_values(|h: &HookEntry| *h).push(*h));
            }
            i = i + 1;
        }
        assert(self.hooks@.take(self.hooks.len() as int) =~= self.hooks@);
        r
    }

    /// Number of hooks of `event`.
    pub fn hook_count_for_event(&self, event: &str) -> (n: usize)
        ensures
            n == event_count(self@.hooks, event@),
    {
        let ev = chars_of(event);
        let mut n: usize = 0;
        let mut i: usize = 0;
        while i < self.hooks.len()
            invariant
                i <= self.hooks.len(),
                ev@ == event@,
                n == event_count(self.hooks@.take(i as int), ev@),
                n <= i,
            decreases self.hooks.len() - i,
        {
            proof {
                assert(self.hooks@.take(i as int + 1).drop_last() =~= self.hooks@.take(i as int));
            }
            if vec_eq(&chars_of(self.hooks[i].event.as_str()), &ev) {
                n = n + 1;
            }
            i = i + 1;
        }
        assert(self.hooks@.take(self.hooks.len() as int) =~= self.hooks@);
        n
    }

    /// Number of hooks of `event` and `matcher`.
    pub fn hook_count_for_matcher(&self, event: &str, matcher: &str) -> (n: usize)
        ensures
            n == selection(self@.hooks, event@, matcher@).len(),
    {
        let ev = chars_of(event);
        let mt = chars_of(matcher);
        let mut n: usize = 0;
        let mut i: usize = 0;
        while i < self.hooks.len()
            invariant
                i <= self.hooks.len(),
                ev@ == event@,
                mt@ == matcher@,
                n == selection(self.hooks@.take(i as int), ev@, mt@).len(),
                n <= i,
            decreases self.hooks.len() - i,
        {
            proof {
                assert(self.hooks@.take(i as int + 1).drop_last() =~= self.hooks@.take(i as int));
            }
            if vec_eq(&chars_of(self.hooks[i].event.as_str()), &ev) && vec_eq(
                &chars_of(self.hooks[i].matcher.as_str()),
                &mt,
            ) {
                n = n + 1;
            }
            i = i + 1;
        }
        assert(self.hooks@.take(self.hooks.len() as int) =~= self.hooks@);
        n
    }

    /// Navigate into the selected item (Enter key).
    pub fn enter(&mut self)
        ensures
            final(self)@ == enter_spec(old(self)@),
    {
        match self.mode {
            HooksMenuMode::SelectEvent => {
                if self.selected < self.events.len() {
                    self.selected_event = Some(string_of(&chars_of(self.events[self.selected].as_str())));
                    self.mode = HooksMenuMode::SelectMatcher;
                    self.selected = 0;
                    self.scroll_offset = 0;
                }
            },
            HooksMenuMode::SelectMatcher => {
                let matchers = self.matchers_for_event();
                if self.selected < matchers.len() {
                    self.selected_matcher = Some(string_of(&chars_of(matchers[self.selected].as_str())));
                    self.mode = HooksMenuMode::SelectHook;
                    self.selected = 0;
                    self.scroll_offset = 0;
                }
            },
            HooksMenuMode::SelectHook => {
                if self.selected < self.selection_len() {
                    self.mode = HooksMenuMode::ViewHook;
                    self.scroll_offset = 0;
                }
            },
            HooksMenuMode::ViewHook => {},
        }
    }

    /// Navigate back one level (Esc key).
    pub fn back(&mut self)
        ensures
            final(self)@ == back_spec(old(self)@),
    {
        match self.mode {
            HooksMenuMode::SelectEvent => {
                self.close();
            },
            HooksMenuMode::SelectMatcher => {
                let pos = position_of(&self.events, &self.selected_event);
                self.mode = HooksMenuMode::SelectEvent;
                self.selected = pos;
                self.selected_event = None;
                self.scroll_offset = 0;
            },
            HooksMenuMode::SelectHook => {
                let matchers = self.matchers_for_event();
                let pos = position_of(&matchers, &self.selected_matcher);
                self.mode = HooksMenuMode::SelectMatcher;
                self.selected = pos;
                self.selected_matcher = None;
                self.scroll_offset = 0;
            },
            HooksMenuMode::ViewHook => {
                self.mode = HooksMenuMode::SelectHook;
                self.scroll_offset = 0;
            },
        }
    }

    pub fn select_prev(&mut self)
        ensures
            final(self)@ == (HooksView {
                selected: if old(self).selected > 0 {
                    (old(self).selected - 1) as usize
                } else {
                    0
                },
                ..old(self)@
            }),
    {
        if self.selected > 0 {
            self.selected = self.selected - 1;
        }
    }

    /// Select the next item of the current screen (stopping at the last).
    pub fn select_next(&mut self)
        ensures
            final(self)@ == (HooksView {
                selected: if old(self).selected + 1 < screen_len(old(self)@) {
                    (old(self).selected + 1) as usize
                } else {
                    old(self).selected
                },
                ..old(self)@
            }),
    {
        let max = match self.mode {
            HooksMenuMode::SelectEvent => self.events.len(),
            HooksMenuMode::SelectMatcher => self.matchers_for_event().len(),
            HooksMenuMode::SelectHook => self.selection_len(),
            HooksMenuMode::ViewHook => 0,
        };
        if max > 0 && self.selected < max - 1 {
            self.selected = self.selected + 1;
        }
    }

    pub fn scroll_up(&mut self)
        ensures
            final(self)@ == (HooksView {
                scroll_offset: if old(self).scroll_offset > 0 {
                    (old(self).scroll_offset - 1) as usize
                } else {
                    0
                },
                ..old(self)@
            }),
    {
        if self.scroll_offset > 0 {
            self.scroll_offset = self.scroll_offset - 1;
        }
    }

    /// Scroll down while the next offset stays below `max`.
    pub fn scroll_down(&mut self, max: usize)
        ensures
            final(self)@ == (HooksView {
                scroll_offset: if old(self).scroll_offset + 1 < max {
                    (old(self).scroll_offset + 1) as usize
                } else {
                    old(self).scroll_offset
                },
                ..old(self)@
            }),
    {
        if max > 0 && self.scroll_offset < max - 1 {
            self.scroll_offset = self.scroll_offset + 1;
        }
    }
}

/// Index of the first occurrence of `x` in `v`, or 0.
fn position_of(v: &Vec<String>, x: &Option<String>) -> (r: usize)
    ensures
        r == position_or_zero(string_views(v@), opt_view(*x)),
{
    match x {
        None => 0,
        Some(s) => {
            let xc = chars_of(s.as_str());
            assert(*x == Some(*s));
            let ghost sv = string_views(v@);
            let mut i: usize = 0;
            proof {
                assert(sv.skip(0) =~= sv);
            }
            while i < v.len()
                invariant
                    i <= v.len(),
                    sv == string_views(v@),
                    opt_view(*x) == Some(xc@),
                    forall|j: int| 0 <= j < i ==> sv[j] != xc@,
                    first_index(sv, xc@) == (if first_index(sv.skip(i as int), xc@) < 0 {
                        -1
                    } else {
                        first_index(sv.skip(i as int), xc@) + i
                    }),
                decreases v.len() - i,
            {
                proof {
                    assert(sv.skip(i as int).drop_first() =~= sv.skip(i as int + 1));
                    assert(sv.skip(i as int)[0] == sv[i as int]);
                }
                if vec_eq(&chars_of(v[i].as_str()), &xc) {
                    proof {
                        assert(sv[i as int] == v@[i as int]@);
                        assert(sv.skip(i as int)[0] == xc@);
                        assert(first_index(sv.skip(i as int), xc@) == 0);
                    }
                    return i;
                }
                i = i + 1;
            }
            0
        },
    }
}

impl Default for HooksConfigMenuState {
    fn default() -> (r: Self)
        ensures
            !r.visible,
            r.mode == HooksMenuMode::SelectEvent,
            r.hooks@.len() == 0,
            r.events@.len() == 0,
    {
        HooksConfigMenuState::new()
    }
}

// ---------------------------------------------------------------------------
// Hooks of the settings file
// ---------------------------------------------------------------------------

/// A hook with its strings as character sequences.
pub ghost struct HookView {
    pub event: Seq<char>,
    pub matcher: Seq<char>,
    pub hook_type: Seq<char>,
    pub target: Seq<char>,
}

pub open spec fn hook_view(h: HookEntry) -> HookView {
    HookView { event: h.event@, matcher: h.matcher@, hook_type: h.hook_type@, target: h.target@ }
}

pub open spec fn hook_views(hs: Seq<HookEntry>) -> Seq<HookView> {
    hs.map_values(|h: HookEntry| hook_view(h))
}

/// The hook that the JSON text `hook` describes for `event` and `matcher`:
/// its `type` (`command` when absent) and the target field of that type, and
/// none when that target is missing or empty.
pub open spec fn hook_of(event: Seq<char>, matcher: Option<Seq<char>>, hook: Seq<char>) -> Option<HookView> {
    let t = match json_str_of(json_get(Some(hook), "type"@)) {
        Some(x) => x,
        None => "command"@,
    };
    let target = hook_target(
        t,
        json_str_of(json_get(Some(hook), "command"@)),
        json_str_of(json_get(Some(hook), "prompt"@)),
        json_str_of(json_get(Some(hook), "agent"@)),
        json_str_of(json_get(Some(hook), "url"@)),
    );
    if target.len() > 0 {
        Some(HookView {
            event,
            matcher: match matcher {
                Some(m) => m,
                None => "*"@,
            },
            hook_type: t,
            target,
        })
    } else {
        None
    }
}

/// The hooks of the first `n` hook texts of one entry.
pub open spec fn hooks_in_list(event: Seq<char>, matcher: Option<Seq<char>>, hs: Seq<Seq<char>>, n: int) -> Seq<HookView>
    decreases n,
{
    if n <= 0 {
        Seq::empty()
    } else {
        let acc = hooks_in_list(event, matcher, hs, n - 1);
        match hook_of(event, matcher, hs[n - 1]) {
            Some(h) => acc.push(h),
            None => acc,
        }
    }
}

/// The hooks of one entry of an event: its `hooks` array under its `matcher`.
pub open spec fn hooks_in_entry(event: Seq<char>, entry: Seq<char>) -> Seq<HookView> {
    let matcher = json_str_of(json_get(Some(entry), "matcher"@));
    match json_get(Some(entry), "hooks"@) {
        Some(t) => match json_array(t) {
            Some(hs) => hooks_in_list(event, matcher, hs, hs.len() as int),
            None => Seq::empty(),
        },
        None => Seq::empty(),
    }
}

/// The hooks of the first `n` entries of an event.
pub open spec fn hooks_in_entries(event: Seq<char>, es: Seq<Seq<char>>, n: int) -> Seq<HookView>
    decreases n,
{
    if n <= 0 {
        Seq::empty()
    } else {
        hooks_in_entries(event, es, n - 1) + hooks_in_entry(event, es[n - 1])
    }
}

/// The hooks of the first `n` events (name and JSON text of its entries).
pub open spec fn hooks_in_events(evs: Seq<(Seq<char>, Seq<char>)>, n: int) -> Seq<HookView>
    decreases n,
{
    if n <= 0 {
        Seq::empty()
    } else {
        hooks_in_events(evs, n - 1) + match json_array(evs[n - 1].1) {
            Some(es) => hooks_in_entries(evs[n - 1].0, es, es.len() as int),
            None => Seq::empty(),
        }
    }
}

/// The hooks configured in the settings text `json`: for each event of its
/// `hooks` object that holds an array, for each entry, for each hook of the
/// entry's `hooks` array, the hook it describes; none without such an object.
pub open spec fn settings_hooks(json: Option<Seq<char>>) -> Seq<HookView> {
    match json_get(json, "hooks"@) {
        Some(t) => match json_object(t) {
            Some(evs) => hooks_in_events(evs, evs.len() as int),
            None => Seq::empty(),
        },
        None => Seq::empty(),
    }
}

fn as_str_opt(o: &Option<String>) -> (r: Option<&str>)
    ensures
        opt_str(r) == opt_text(*o),
{
    match o {
        Some(s) => Some(s.as_str()),
        None => None,
    }
}

fn hook_from_json(event: &str, matcher: Option<&str>, hook: &str) -> (r: Option<HookEntry>)
    ensures
        match r {
            Some(h) => hook_of(event@, opt_str(matcher), hook@) == Some(hook_view(h)),
            None => hook_of(event@, opt_str(matcher), hook@) is None,
        },
{
    let t = str_of(as_str_opt(&get(Some(hook), "type")));
    let c = str_of(as_str_opt(&get(Some(hook), "command")));
    let p = str_of(as_str_opt(&get(Some(hook), "prompt")));
    let a = str_of(as_str_opt(&get(Some(hook), "agent")));
    let u = str_of(as_str_opt(&get(Some(hook), "url")));
    proof {
        reveal_strlit("command");
    }
    hook_from_fields(event, matcher, as_str_opt(&t), as_str_opt(&c), as_str_opt(&p), as_str_opt(&a), as_str_opt(&u))
}

fn hooks_of_entry(event: &str, entry: &str, out: &mut Vec<HookEntry>)
    ensures
        hook_views(final(out)@) == hook_views(old(out)@) + hooks_in_entry(event@, entry@),
{
    let m = str_of(as_str_opt(&get(Some(entry), "matcher")));
    let hs_text = get(Some(entry), "hooks");
    let hs = match &hs_text {
        Some(t) => items(t.as_str()),
        None => None,
    };
    match hs {
        Some(hs) => {
            let ghost hv = texts_view(hs@);
            let ghost base = hook_views(out@);
            let mut i: usize = 0;
            while i < hs.len()
                invariant
                    i <= hs.len(),
                    hv == texts_view(hs@),
                    hook_views(out@) == base + hooks_in_list(event@, opt_text(m), hv, i as int),
                decreases hs.len() - i,
            {
                let ghost o0 = out@;
                match hook_from_json(event, as_str_opt(&m), hs[i].as_str()) {
                    Some(h) => {
                        out.push(h);
                        proof {
                            assert(hook_views(out@) =~= hook_views(o0).push(hook_view(h)));
                        }
                    },
                    None => {},
                }
                i = i + 1;
                proof {
                    assert(hv[i - 1] == hs@[i - 1]@);
                }
            }
            proof {
                assert(hv.len() == hs.len());
            }
        },
        None => {
            assert(hook_views(out@) =~= hook_views(out@) + Seq::<HookView>::empty());
        },
    }
}

/// The hooks configured in the settings text `json` (see `settings_hooks`),
/// in order.
pub fn hooks_from_settings(json: Option<&str>) -> (r: Vec<HookEntry>)
    ensures
        hook_views(r@) == settings_hooks(opt_str(json)),
{
    let mut out: Vec<HookEntry> = Vec::new();
    let hooks_text = get(json, "hooks");
    let evs = match &hooks_text {
        Some(t) => members(t.as_str()),
        None => None,
    };
    match evs {
        Some(evs) => {
            let ghost ev = pairs_view(evs@);
            let mut i: usize = 0;
            proof {
                assert(hook_views(out@) =~= Seq::<HookView>::empty());
            }
            while i < evs.len()
                invariant
                    i <= evs.len(),
                    ev == pairs_view(evs@),
                    hook_views(out@) == hooks_in_events(ev, i as int),
                decreases evs.len() - i,
            {
                let ghost before = hook_views(out@);
                let es = items(evs[i].1.as_str());
                match es {
                    Some(es) => {
                        let ghost esv = texts_view(es@);
                        let mut j: usize = 0;
                        while j < es.len()
                            invariant
                                j <= es.len(),
                                esv == texts_view(es@),
                                i < evs.len(),
                                hook_views(out@) == before + hooks_in_entries(evs@[i as int].0@, esv, j as int),
                            decreases es.len() - j,
                        {
                            let ghost o1 = hook_views(out@);
                            hooks_of_entry(evs[i].0.as_str(), es[j].as_str(), &mut out);
                            j = j + 1;
                            proof {
                                assert(esv[j - 1] == es@[j - 1]@);
                                assert(before + hooks_in_entries(evs@[i as int].0@, esv, j as int)
                                    =~= before + hooks_in_entries(evs@[i as int].0@, esv, j - 1)
                                        + hooks_in_entry(evs@[i as int].0@, esv[j - 1]));
                            }
                        }
                        proof {
                            assert(ev[i as int] == (evs@[i as int].0@, evs@[i as int].1@));
                            assert(esv.len() == es.len());
                        }
                    },
                    None => {
                        proof {
                            assert(ev[i as int] == (evs@[i as int].0@, evs@[i as int].1@));
                            assert(before + Seq::<HookView>::empty() =~= before);
                        }
                    },
                }
                i = i + 1;
            }
        },
        None => {},
    }
    out
}

} // verus!
