# foundry-acp

An Agent Communication Protocol (ACP v0.2.3) server for Foundry Local, with its
protocol logic verified by Verus.

Each local model is an ACP agent with a deterministic id (the UUID v5 of its
alias). Clients search agents, start stateless runs, hold multi-turn
conversations on threads, and stream results with replacement semantics.

## Layout

- `src/` — the verified library.
  - `acp_types.rs`, `json.rs`, `ids.rs`, `error.rs`, `text.rs`, `paging.rs`:
    the protocol's data, JSON documents, identifiers (through `uuid` and
    `chrono`), errors, text and paging helpers.
  - `state.rs`: the server state (agents, threads, runs) and its value
    `StoreV`, with the well-formedness invariant (unique ids).
  - `agents.rs`, `threads.rs`, `runs.rs`, `inference.rs`: every protocol
    operation, each with a contract stated over `StoreV`.
  - `health.rs`, `metrics.rs`, `config.rs`, `persistence.rs`, `embedding.rs`:
    the health report, metric labels, configuration, what the SQLite store
    holds, and the embedding client's requests and replies.
  - `laws.rs`: properties across operations (a read after a write, what a
    refused request leaves, conversation continuity, ordering of searches,
    stability of metric labels).
- `tests/` — tests of the library on concrete values.
- `app/` — the program around the library: the HTTP server (axum), SSE
  streaming, SQLite persistence (rusqlite), Prometheus metrics, the command
  line, and model inference through the Foundry Local SDK.
