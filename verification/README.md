# zeroclaw (verified core)

The decision logic of the zeroclaw agent runtime, written in Verus and proved
against its contracts:

- `src/text.rs` — a character-sequence model of the string operations used
  everywhere else (trimming, splitting, ASCII case folding, search, number rendering).
- `src/shell` — shell profiles, the validator pipeline and the shell engine's
  step-by-step run protocol.
- `src/tools` — the shell and skill tools, tool results and schemas, and the MCP
  server's allowlist policy and JSON-RPC dispatch.
- `src/channels` — runtime slash commands and the Telegram control hub.
- `src/gateway` — gateway chat slash commands, per-session routes and the
  WebSocket chat protocol.
- `src/agent` — session records and transcripts, compaction phases, turn
  diagnostics and the tool router.
- `src/context` — the memoized dynamic-context block.

`app/` holds the host side: files, processes, sockets, HTTP and serde.
`tests/` exercises the library through its public API.
