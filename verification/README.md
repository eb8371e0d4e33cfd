# ironmind

An offline agent that bridges a local LLM to any MCP tool server, with
conversations stored in an S3-compatible bucket (R2). This crate is the verified
core: the agent loop, the MCP protocol, authentication, and how conversations are
laid out and changed before they are stored are proved against their contracts.

A few decisions stay in the unverified program around it (`app/`): giving up when
a storage request fails; reading the storage service's "no such key" answer as a missing
object; whether the web server answers with the local model
(`IRONMIND_INFERENCE=1`) or with an echo; and everything that depends on loading and running the model.

## Layout

- `src/agent.rs` — the agent loop as a state machine (`AgentRun`): start, model
  reply, tool result; laws on rounds, order of tool calls and termination.
- `src/mcp.rs` — MCP over JSON-RPC: request bodies, reading `tools/list` and
  `tools/call` results, server errors.
- `src/json.rs` — the JSON model (`Json` and its view `JsonValue`).
- `src/model.rs` — conversations, messages, tool-call records, title derivation.
- `src/store.rs` — storage keys, blob externalization of large tool results,
  the per-user conversation index (upsert, removal, newest-first order).
- `src/auth.rs` — bearer tokens: parsing, bcrypt checking against the stored hash,
  issuing.
- `src/r2.rs`, `src/web.rs`, `src/config.rs`, `src/text.rs`, `src/time.rs`,
  `src/hash.rs` — settings, chat API helpers and small building blocks.
- `app/` — the program around it: CLI, model loading, HTTP server, R2 client,
  MCP transport, serialisation.
- `tests/` — tests of the library on concrete values.
