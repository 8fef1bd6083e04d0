# termaup

Clients for the ClickUp project-management API: a command-line client and a
terminal UI, built around a library whose logic is verified with Verus.

## Layout

- `src/` — the verified library.
  - `models`, `json`: the API's data (workspaces, spaces, folders, lists,
    tasks, comments) and JSON values.
  - `client`, `rate_limiter`, `pagination`: how responses become results or
    errors, rate-limit bookkeeping, page collection and task query parameters.
  - `filters`, `filter_config`, `filter_panel`: task filters, their saved form
    and the filter panel.
  - `app`, `input`, `event`: the terminal UI's state, what each key, click and
    loaded piece of data does to it, and which loads it asks for.
  - `markdown`, `detail_view`, `ui_text`, `comment_text`, `comment_input`: what the screens
    show (rendered markdown, the task detail lines, rows, dates, mentions).
  - `cli_view`, `task_view`, `output`, `log_view`, `logging`, `redact`: what
    the command-line client prints, log sessions and redaction of exports.
  - `config`, `auth`, `commands`, `theme`, `custom_field`, `mentions`, `text`.
- `tests/` — tests of the library.
- `app/` — the programs: HTTP, files, keyring, terminal drawing and the event
  loop. The binary runs the terminal UI when its name ends in `-tui`, the
  command-line client otherwise.
