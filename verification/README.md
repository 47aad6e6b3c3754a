# codex_tz_launcher

A desktop launcher that starts the Codex client with its own time zone (the
`TZ` of the child process), without changing the system's zone.

- `src/` is the verified library (Verus): the settings rule that turns a zone
  name or a fixed UTC offset into a `TZ` value, the exchange with the client's
  remote-debugging endpoint (request, bounded header reading, header and body
  checks), the launch itself as a state machine (which outside step comes
  next, with laws on its order: nothing is stored or started for a client that
  already runs, the client starts only after the settings were stored), the
  decisions of the waiting loops and their reports, the skin
  tool's state and port, the public-IP reply checks and the fallback from one IP service to the next, the Windows package and
  manifest choice, the macOS process-list check, and the command names.
- `app/` is the plain-Rust back end around it: files, processes, sockets,
  Win32 and macOS tools, and the serde form of the settings file.
- `tests/` runs the library on concrete values.
