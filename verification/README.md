# wslg_clipboard

Clipboard mirroring between a Sway (Wayland) session under WSLg and the Windows
clipboard. A broker on Linux watches the Sway selection through
`ext-data-control` and talks to an agent on Windows over a pipe; each side
publishes what the other copied.

## Layout

- `src/` is the verified library (Verus):
  - `protocol.rs`: the framed wire protocol, its encoder, reader and streaming
    decoder, with round-trip laws; `le.rs` holds the little-endian helpers.
  - `text.rs`: UTF-8 validation, newline normalization and UTF-16 conversion.
  - `state.rs`: what each side last held and which writes are pending, so that
    a text is never mirrored back to where it came from.
  - `broker.rs`: the queued selections of both sides and the rules that decide
    which one is delivered; `session.rs`: the broker as a state machine that
    turns events into actions.
  - `wayland.rs`, `selection.rs`: which offer is read and in which MIME type,
    the read of the newest selection, and the sources serving pastes.
  - `agent.rs`: the agent's frames and answers; `pipe.rs`: what a read or
    write of a non-blocking pipe means; `status.rs`: the status file.
- `app/` is the programs around it: the event loop, the Wayland objects, the
  agent process and the Win32 calls.
- `tests/` exercises the library.
