# YShell

YShell is an SSH terminal and SFTP client. This crate holds its core as a
library whose behaviour is specified with `requires`/`ensures` contracts and
proved with Verus, plus a thin program around it.

## Layout

- `src/` — the verified library:
  - `config/` — Quick Connect parsing, configuration-directory discovery, the
    configuration document (sessions, folders, profiles, inheritance, batch
    edits, schema migration plans) and the store's file layout.
  - `session/` — session and tab registry, command dispatch, task
    supervision and split-pane workspace layouts.
  - `ssh/` — connection configuration and validation, the deterministic fake
    transport and the staged real-transport scaffold.
  - `sftp/` — directory listings, the in-memory backend and the transfer
    queue state machine.
  - `terminal/` — the terminal grid, escape-sequence parser, input model and
    search.
  - `logging.rs` — tracing start-up, log path templates, redaction and
    transcript lines.
  - `runtime/` — session runtimes and the application runtime behind the UI.
  - `text.rs` — verified string helpers shared by the modules.
- `app/` — the program: command-line entry point, TOML (de)serialisation of
  the configuration, file-backed store, log files and process environment.
- `tests/` — tests of the library's public API.
