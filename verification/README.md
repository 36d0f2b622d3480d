# blink

Host-side logic of Blink, a runtime of hardware-isolated sandboxes for AI
agents, written in Verus.

- `src/` is the verified library: the BLIN V-Hub codec and session state
  machine, the attach output buffer with its cursors and seq framing, the
  WebSocket attach loop as a state machine, the job store, request checks of
  the HTTP API, the parsers of the runtime settings (network, image
  registries, attach buffer), agent result extraction and the spawn/PTY
  helpers. Calls into `serde_json`, `uuid`, `chrono` and `std::path` stand
  behind small trusted wrappers whose contracts say what the library relies on.
- `tests/` runs the library on concrete values.
- `app/` is the program around it: the command line, the HTTP server, the
  sockets, and the calls into the sandbox runtime (BoxLite).
