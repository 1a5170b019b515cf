# yazelix_zellij_popup

A Zellij plugin (`yzpp`) that toggles configured floating TUI popups: one key
opens the popup's pane, focuses it from another pane, and closes or hides it
while it is focused. Popups are configured as KDL blocks in the plugin
configuration (`popup`, `popups`, `popup_defaults`); generated callers may send a
whole request as JSON on the pipe `transient_popup`.

The library is written in Verus and verified:

- `src/popup_contract/` — popup specs, the configuration reader, pipe requests,
  pane choice, launch planning, and `laws.rs`, the properties that hold of them
  as a whole (every accepted request can be launched, each configured id is
  listed once, a toggle acts on the popup's own pane, and more).
- `src/plugin.rs` — the plugin's decisions: active tab, live panes, what to do
  for a request, and what to answer on the pipe.
- `src/lib.rs` — where a popup is placed in the tab.
- `src/text.rs` — string operations with specifications over `Seq<char>`.
- `src/kdl_source.rs`, `src/json_source.rs` — the `kdl` and `serde_json` parsers,
  reached through trusted wrappers that hand back plain values.

`app/main.rs` is the plugin itself: it talks to Zellij and carries out what the
library decides. `tests/` exercises the library with the real outside crates.
