# sabmemory

A memory store for AI agents, served over the Model Context Protocol: atomic
memories with full-text search under a token budget, links between memories,
version chains, soft deletion (obsolete / forgotten / auto-expiry), a
knowledge graph of entities and typed relationships, projects, documents,
code artifacts and a user profile gathered from memories. Everything lives in
one SQLite file.

The library in `src/` is written in Verus: its functions carry `requires` /
`ensures` contracts that Verus proves, and the calls it makes into rusqlite,
chrono, serde_json and std go through small trusted wrappers whose contracts
say what the called code does.

The store keeps, as ghost state, the log of every changing statement it has
handed to SQLite (`Database::log`). The connection and the log are private
to the store; the only code that runs a changing statement is the trusted
call that binds its values, runs it and adds it, with those values, to the
log. The contracts of the operations that
change the database say exactly which statements, with which bound values,
each of them appends to that log, on success and on each error; the id a
creation uses for its new row is the rowid SQLite reported for its insert
(`inserted_rowid`), whatever that rowid is. Those that
read say which query, with which values, was handed to SQLite and how the
rows it answered are decoded: a record returned for an id is the one decoded
from SQLite's answer for that id, and a "not found" comes only where that
answer holds no readable record.

What depends on the clock is decided by functions that take the time as an
argument (`query_memories_at`); those that read the clock say only that
some time was used.

Layout:

- `src/text.rs` — token estimates, truncation, decimal rendering, FTS5 query
  construction.
- `src/search.rs` — the decisions of a search: filters, the token-budgeted
  choice of primary results, the expansion to linked memories, and the laws
  they obey.
- `src/memory.rs`, `src/entity.rs`, `src/project.rs`, `src/profile.rs` — the
  store's operations.
- `src/records.rs`, `src/columns.rs` — decoding result rows into records.
- `src/statements.rs` — SQL text built at run time.
- `src/dashboard.rs`, `src/graph.rs` — the dashboard's read-only queries.
- `src/migrate.rs` — import from a forgetful-ai database: how each source
  row becomes one insert; what supersedes a memory is set in a second pass,
  once every memory is there.
- `src/tools.rs` — the catalog of MCP tools.
- `src/sql.rs`, `src/store.rs` — the SQLite connection and the trusted calls.
- `app/` — the executable: command line, the MCP server (rmcp), the web
  dashboard's JSON API (axum), and the serde forms of the records.
