# terminaline

A terminal system inspector for macOS, built as a verified library and a thin
program around it.

- `src/` is the library, verified with Verus. It reads the text that the
  system tools print (`vm_stat`, `top`, `sysctl`, `netstat`, `ifconfig`,
  `lsof`, `ps`, `launchctl`, `system_profiler`, `ioreg`, `pmset`, `diskutil`,
  ...) into records, formats sizes, arranges directory listings, keeps the
  navigation state of the interface (what each key does), decides what each
  refresh reads again, keeps the bounded histories behind the sparklines, and
  computes what the tabs show (list windows, summaries, the address-space map).
  Each public function states its result in its contract; the properties that
  span several calls are stated and proved as proof functions.
- `app/` is the program: it runs the tools, reads the system through `sysinfo`
  and `proc-maps`, draws with `ratatui`, reads keys with `crossterm`, and hands
  everything in between to the library.
- `tests/` runs the library on sample tool output.
