# logdump

A crash-dump monitor and log collector for Windows services and processes,
with its decision logic verified by Verus.

The monitor runs ProcDump against a configured target from a scheduled task,
picks the 32- or 64-bit ProcDump binary from the target's PE headers, guards
free disk space, waits for each new dump to settle, records what happened in
a health file and announces new dumps by e-mail and webhook. The collector
gathers application logs, installer artifacts, system health snapshots and
the monitor's own state into zipped run folders.

## Layout

- `src/` — the verified library. Its functions have contracts over
  mathematical models (`Seq`, `Map`, spec functions); where a result comes
  from an outside crate (serde_json, chrono, base64, lettre), the contract
  goes through a small trusted wrapper whose doc comment says what it claims
  of that call. The laws that hold across functions are public proof
  functions named `law_*`.
  - `procdump`, `bitness`, `pe` — the ProcDump command line, presets, PE
    header reading and binary selection.
  - `monitor`, `stability`, `diskguard`, `retention`, `health`, `logger`,
    `notify` — the monitor's cycle decisions, the notification queue and the
    messages it sends.
  - `task`, `cli`, `config`, `paths`, `services` — the scheduled task XML and
    query parsing, the command line, the settings.
  - `collect` — run folders, tool command lines and the discovery rules of
    the collection workflows.
  - `gui` — what the settings window shows and saves: form fields, status
    rows, the target list, the messages of a collection run.
  - `text`, `num`, `order`, `winpath` — strings, decimal numbers, stable
    ordering and Windows path components.
- `app/` — the program around the library: the verbs, the monitor loop,
  processes, files, the registry, DPAPI, SMTP and HTTP.
- `tests/` — tests of the library on concrete values.
