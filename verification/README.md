# stasis

An update firewall for desktop machines: it scans which self-update
mechanisms are installed, freezes them with recipes (disable a service or a
scheduled task, set a policy value, stub or block an updater, edit a JSON
setting, add a firewall rule), journals every change with the record that
undoes it, and thaws them again.

## Layout

- `src/` is the library, verified with Verus. Each module states its
  behaviour in `requires`/`ensures` over spec functions and views, and the
  public `law_*` proof functions state what holds across calls (a revert
  cancels its apply, thawing clears the outstanding changes, a later recipe
  overrides an earlier one with the same id, the scan report is honest).
  - `action`, `recipe`, `journal`: the data model, validation, the catalog
    merge and the journal's outstanding changes.
  - `engine`, `files`, `system`, `json`: planning, and the steps and undo
    records of each kind of change, with a small model of the file system.
  - `inventory`: classification of machine facts into the scan report.
  - `session`, `cli`: the decisions and console text of a freeze or thaw run.
  - `util`, `text`: `%VAR%` expansion, the clock, and string helpers.
- `tests/` runs the library on concrete values.
- `app/` is the command-line program around the library: arguments, files,
  JSON and TOML encodings, and the Windows backend.
