# dawn_launcher

A desktop launcher: classifications (tabs) hold launchable items (files,
folders, web addresses); the launcher lists, searches, opens, renames,
moves, copies and deletes them, converts their targets between absolute
and relative paths, and keeps its settings in a SQLite file.

## Layout

- `src/` — the verified library (Verus).
  - `models.rs` — classifications, items and their extra data, with views.
  - `db.rs` — the store: every query and change on the classification, item
    and setting tables, specified over `DbState`.
  - `ordering.rs`, `pattern.rs` — listing orders and SQL `LIKE` matching.
  - `paths.rs` — relative/absolute target conversion (uses `pathdiff`).
  - `launch.rs` — items from dropped paths, opening items, list rows.
  - `data_url.rs`, `decimal.rs`, `text.rs` — data URLs and Base64, decimal
    text, character-level string helpers.
  - `menus.rs` — the context menus and the commands their entries stand for.
  - `controller.rs` — the window's behaviour: `Controller::handle` takes an
    event and returns the effects, specified by the relation `step`.
  - `native.rs` — shell integration (neutral answers on this platform).
  - `laws.rs` — properties that span several operations.
- `tests/` — tests of the library.
- `app/` — the program: SQLite persistence (`rusqlite`, `serde_json`), a
  text front end that runs the window loop, and the machine-facing parts:
  it carries out the controller's effects, among them handing a target to
  the system to open (`Effect::Open`) and finding icons (`Effect::AskIcons`,
  answered with `Event::IconsFound`).

## Platform

The library is specified for Unix builds. The path facts it relies on
(an absolute path starts with `/`; `Path::join` with an absolute path
gives that path; `Path::canonicalize` returns an absolute path) hold there
and not on Windows, where canonical paths take the `\\?\C:\...` form.
The native layer (`src/native.rs`) gives the answers of a platform without
shell integration: no icons, no shortcut files; opening a target and
finding icons are the program's part.
