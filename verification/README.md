# neatnik

A housekeeping tool for log, working and temporary files: jobs of ordered
stages archive aged files, relocate them to storage and delete them,
under a per-job lock, with a dry-run mode and a safety brake on deletion.

## Layout

- `src/` — the verified library (Verus). It holds every decision of the
  tool, each with its contract:
  - `config` — the configuration model and its validation; the
    suggestion for a misspelt field;
  - `scan` — selection of files by glob patterns, basis dates read from
    file names, the per-entry decision of a directory walk, and the rule
    that tells files in use;
  - `archive` — archive and bundle names, period keys, grouping by period,
    and the plans of new and existing archives;
  - `relocate` — destinations and the resolution of clashes;
  - `delete` — the safety brake and the plan of a delete stage;
  - `pipeline` — the bookkeeping of a job's summary;
  - `job` — a job run as a state machine that asks for each outside step;
  - `cli`, `i18n`, `lock`, `clock`, `error`, `notify` — the front end's
    decisions and texts, lock file names, clocks, errors, notifications;
  - `path`, `text`, `datetime`, `pattern` — the path model, character
    helpers, and the calls into `chrono`, `chrono-tz`, `regex` and `glob`.
- `app/` — the command line around the library: argument parsing, the YAML
  file, directory walks, archive writing, file moves and removals, locks and
  logging. It carries out the actions that a `job::JobRun` asks for.
- `tests/` — tests of the library.
