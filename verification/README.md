# lazyjust

A terminal UI for [`just`](https://github.com/casey/just): it discovers the
justfiles under a directory, lists their recipes with a fuzzy filter, and runs
each recipe in a shell on its own pseudo-terminal, with live output,
scrollback, per-run logs and a theme picker.

## Layout

- `src/` is the library, written in Verus. Its functions carry `requires` /
  `ensures` contracts that Verus proves, except the few trusted wrappers
  around outside code described below:
  - `app/` — the application state (`App`), the list view, the fuzzy filter,
    the reducer (`reduce`, one step from state and action to the next state
    and an effect for the event loop), spawning decisions, and the laws that
    relate several reducer steps (`app/laws.rs`).
  - `discovery/` — which directories to walk, which files are justfiles, and
    decoding `just --dump --dump-format=json` into recipes.
  - `input/` — the keymap of every mode and the bytes a key sends to a shell.
  - `session/` — shell quoting, the line typed into a session's shell, the
    completion marker scanner, and the session manager's decisions.
  - `theme/`, `config/`, `cli.rs`, `error.rs` — theme colours, settings and
    their merge, the command line, error texts.
  - `ui/` — the texts and geometry the screen is drawn from: list lines,
    hints, help text, headers, pane widths, scrollbar thumb, path display.
- `app/` is the program around the library: argument parsing, reading the
  config and theme files, walking the file system, running `just`, the PTYs,
  the terminal event loop and drawing with ratatui.
- `tests/` exercises the library's public functions.

The outside crates the library calls are reached through a few trusted
wrappers, marked `#[verifier::external_body]`: fuzzy scoring with `nucleo`,
JSON reading with `serde_json`, editing the config file with `toml_edit`,
and `std::path` / `String` helpers. Their contracts are assumed, not proved;
each states in its doc comment what is assumed of it.
