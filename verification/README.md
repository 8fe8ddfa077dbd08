# Bao

Bao supervises coding sessions: each session runs a harness (such as `pi`)
in a pseudo-terminal inside a working copy (the user's directory, a git
worktree, or a bubblewrap or Seatbelt sandbox), keeps an event log of its
output and lifecycle, and serves clients over a framed JSON protocol — RPCs
on a control channel, a daemon-wide watch channel, and a live attach channel
per session.

## Layout

- `src/` — the verified library (Verus). The session model and lifecycle,
  the alert signal, value types, the wire vocabulary and framing, the event
  log's line format and reader, the alias and workspace registries, session
  resolution and ordering, sandbox planning and confinement argv, and every
  decision the daemon and the client make. Contracts state each function's
  result; laws (`law_*` proof functions) state what holds across calls.
- `app/` — the runtime around it: sockets (tokio), files, the
  pseudo-terminal (portable-pty), the screen emulator (vt100), JSON
  (serde copies of the library's wire types), the PID file, and `git`.
  What to answer, store, spawn and stream is decided by the library; the
  app's own choices are those of its loops over sockets and channels (when
  a connection ends, when a lagging watcher is sent every session again).
- `tests/` — tests of the library's public functions.
