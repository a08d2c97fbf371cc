# pokedex_tui

The editor state machines and text logic of a terminal chat interface,
written in Verus: each public function states its behaviour in `requires` /
`ensures` over mathematical models (`Seq<char>` for strings, views of the
state structs), and Verus proves the code against them.

Layout:

- `src/` — the verified library.
  - `text`, `numbers`, `json`: UTF-8 byte offsets of character sequences,
    character classes, decimal numerals, and reading JSON text with
    serde_json one layer at a time.
  - `motions`, `vim`, `vim_basic`, `command`: vim motions, the key-by-key vim
    state machine, and the prompt's full vim command handling (registers,
    marks, macros, undo, visual mode, search, `:` commands).
  - `prompt`, `charmap`, `prompt_display`: the prompt input state (typing,
    history, pastes, suggestions, undo snapshots, search, layout height) and
    the rows the prompt box shows.
  - `hooks`, `panels`, `overlays`, `settings`, `history_match`,
    `tool_summary`, `transcript`, `width`: the menus, dialogs and overlays,
    and the text shown in them.
  - `laws`: properties that relate several operations.
- `tests/` — tests of the library on concrete values.
- `app/` — drawing with ratatui, and reading files, the clock and the
  environment; it hands plain values to the library.
