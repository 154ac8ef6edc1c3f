# omnilauncher

The backend logic of OmniLauncher, a desktop launcher for local GGUF models
served by `llama-server`, written in Verus and proved against its contracts.

- `src/` — the verified library: the GGUF header parser, the launch-argument
  builder and its VRAM rules, hardware-profile rules, the registry scan and
  reconciliation, settings persistence decisions, HuggingFace answer
  interpretation (search hits, cursors, rate limits, downloads, sign-in),
  proxy routing, the table of running servers, download ids, and the
  calendar arithmetic behind RFC 3339 timestamps.
- `tests/` — tests of the library on concrete values.
- `app/` — the service around it: SQLite access, HTTP with the Hub, the
  reverse proxy, child processes, the keychain and the live hardware monitor.
