# aether — verified core of the Veil desktop client

The desktop client drives a WARP tunnel engine: it keeps the user's
settings, walks a connection through its phases (provisioning, scanning,
verifying, connecting), streams events and log lines to the window, and
switches the operating system's traffic capture (system proxy, TUN) on
and off around a running tunnel.

Everything that decides something lives in `src/` and is verified with
Verus; every public function states its result in its contract, except
`guilog::now_ms`, whose result is the system clock's reading (the mapping
of a reading to a record stamp is `guilog::millis_or_zero`, which does).

| module      | what it holds |
|-------------|---------------|
| `text`      | character-level string helpers (trim, split, join, lower-casing) |
| `net`       | IPv4/IPv6 and socket-address parsing and canonical printing |
| `error`     | the library's error type |
| `events`    | the bounded FIFO of GUI events |
| `guilog`    | the bounded log buffer with severity filtering |
| `phase`     | the connection state machine and its snapshot |
| `api`       | transports, team names, identity paths, scan requests, tunnel specs |
| `settings`  | the GUI settings and the validation of every field |
| `commands`  | the settings path, team credentials, scan request and tunnel spec a form produces |
| `session`   | what a scan, a verification and a tunnel run report, and how their outcomes read |
| `cli`       | the `--check` dry run: argument reading and the plan lines |
| `mode`      | traffic modes and the manager that owns their undo state |
| `proxy`     | system-proxy commands per OS and the guard that undoes them |
| `tun`       | TUN configuration, packet headers, route and elevation commands, the TUN guard |
| `autostart` | start-at-login entries per OS |

`app/` is the program around the library: the command line, files,
environment variables, running OS commands, the process-wide event and
log feeds, and cancellation. `tests/` exercises the library from outside.
