# writing_unicorns

The editing core of a small code editor, written in Verus. The functions in
`src/` carry contracts that Verus proves, except a small set of trusted
wrappers (marked `#[verifier::external_body]`) around calls into `ropey`,
`regex`, `serde_json`, `toml` and a few `std` functions (paths, character
classes, lower-casing, string length); their contracts state what those
crates document, and everything built on them is proved against those
contracts.

- `src/editor/` — the text buffer (a `ropey::Rope` with snapshot undo/redo),
  cursors and selections, typing with several cursors, key commands on whole
  lines, clipboard and mouse gestures, find/replace (plain or `regex`),
  bracket matching, folding, indentation detection, hover markdown, and the
  per-line token cache of the highlighter.
- `src/lsp/` — the `Content-Length` framing of server messages and their
  JSON bodies (parsed by `serde_json`), responses read from a JSON value
  model, and rename edits applied to file texts.
- `src/dap/`, `src/lsp/client.rs` — breakpoints, adapter messages read from
  JSON, and the decisions of a debug-adapter session; the state a
  language-server client keeps.
- `src/extension/`, `src/plugin/` — extension manifests, version ordering,
  workspace members read from Cargo.toml, install plans and progress, the
  extensions panel's state, and which plugin answers for what.
- `src/git/`, `src/runner.rs`, `src/tabs.rs`, `src/nav_history.rs`,
  `src/filetree.rs`, `src/workbench.rs`, `src/workspace_search.rs` — status
  classification, run configurations, tabs, navigation history, the file
  tree, the window-level commands and definition search.
- `tests/` — tests on concrete values, run against the compiled library.
- `app/` — a command-line front end that does the file and directory I/O
  and hands the library what it read.
