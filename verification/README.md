# caffeinate

Keeps Windows awake from the system tray (`caffeinate-tray`) or around a
command (`caffeinate`), through `SetThreadExecutionState`.

The library in `src/` holds every decision both programs make, each with a
contract proved by Verus:

- `state`: the tray's state machine (two switches, a span, a countdown) and
  the texts of its menu row and tooltip, with the laws the interface promises
  (a second switch does not restart the clock, a new span does, expiry resets
  everything once, and so on).
- `time`: instants and durations as nanosecond counts.
- `i18n`: the English and Chinese string sets and how each composes texts.
- `ipc`: the message the CLI sends the tray: building it with a truncated
  UTF-16 label, checking it, showing its label, and framing it as bytes.
- `leases`: the CLI holds the tray shows, one per process.
- `cli`: the command line: durations, options, the label of a hold, and
  the exit status each way a run can end maps to.
- `program`: what a menu click or a timer tick does in the tray's loop.
- `power`, `util`, `utf16`, `text`: the execution-state flags, NUL-terminated
  UTF-16 for Win32, and the text building the rest relies on.

`app/` is the Win32 side: the message loop, the tray icon and menu, the
`WM_COPYDATA` window, the power call, the process handles, and the CLI's
process spawning. It hands the library plain values and carries out what the
library answers.
