# bigfred_commons

Shared runtime pieces for BigFred OS daemons and for the clients that talk to
them, written in Verus. The library decides; the host reads and writes.

- `datadir` — `$DATA_DIR` / `$BIGFRED_DATA_DIR` → `/data`, and the paths under it
- `config` — live snapshots, JSON file loading, watching with debounce
- `ipc` — length-prefixed frames, singleton bind, peer authentication, command
  routing, sessions and the client cap
- `client` — errors with stable codes, the OAuth drop-in and token exchange, PIN
  check, reverse proxy, and the two dcc-bus sockets
- `fspath`, `text`, `textmap`, `json`, `io` — the plain values they work on

`src/` is verified: every function there states what it returns, and laws that
span functions (`lemma_…`) are proved next to them. Calls into other crates stand
behind small functions whose doc comments say what is taken on trust.

`app/` is ordinary Rust around it: environment, files, sockets, threads, inotify,
HTTP and WebSockets. Where a process depends on several outside steps, `src/`
holds it as a run (`BindRun`, `ConnRun`, `EnsureDropin`, `PulseRun`, …) that says
what to do next, and `app/` does that and tells how it went.

## IPC is always a singleton

A control socket has one live listener. The path is probed with `connect(2)`
first. A live peer is `BindError::AlreadyRunning`, and its inode is not touched;
only a leftover that nobody answers on is unlinked, then bound.
`lemma_live_socket_never_stolen` states this of every run.
