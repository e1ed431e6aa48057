# Pulse

Pulse watches the processes of a machine, keeps their history in SQLite,
flags statistical anomalies, predicts memory leaks and explains what it
finds in plain English.

This crate holds its verified core (`src/`), proved with Verus:

- `text` — decimal rendering, fixed-point rendering with round-half-to-even,
  the value an integer takes as an IEEE double, padding and ASCII case.
- `ui` — colour codes, value formatting (memory sizes, durations,
  severities, timestamps) and the lines of the terminal widgets.
- `alerts` — the per-category cooldown that decides whether an alert goes
  out, with its laws, and the text of the notification commands.
- `collector` — top-N selection by memory, lookup by name and by PID.
- `analytics` — severity labels, trend kinds, prediction reasons, risk
  rating.
- `cli`, `cli_core`, `config`, `daemon`, `logging`, `storage` — PID file
  reading and writing, PID/name arguments, explanations, the bounded
  history, configuration checks, the cleanup schedule, log levels and the
  retention cutoff.

`app/` is the program around it: the `pulse` command line (and, when
installed as `pulse-daemon`, the collector daemon), with the system,
database, file and notification access and the floating-point statistics.
