# mcp-session-memory

Policy-controlled access to agent session context: typed session state,
scoped memory recall, replay snapshots and resumable human-in-the-loop
workflows, served as MCP tools.

- `src/` is the library, verified with Verus:
  - `types.rs`, `error.rs`: the records (sessions, memory entries, events,
    snapshots) and their errors, with the values contracts speak of;
  - `store.rs`: the `SessionStore` and `MemoryStore` traits, whose contracts
    say what each operation does to the stored maps, the version history
    and the event log;
  - `memory_store.rs`: the in-memory stores, proved against those contracts;
  - `server.rs`: the eleven tools, each with the effect it has on the stores;
  - `laws.rs`: properties that span several operations;
  - `external.rs`, `text.rs`: the calls into serde_json, uuid, chrono and
    `str::to_lowercase`, and verified string helpers.
- `app/` is the program: stdio MCP transport (rmcp), logging, JSON rendering
  of the tool results and demo seed data.
- `tests/` exercise the stores and the tools on concrete values.
