# onetcli

The verified core of a desktop database client for PostgreSQL, written in
Verus. The functions under `src/` carry contracts that Verus proves, except
the small wrappers marked `#[verifier::external_body]`, whose contracts
state what the outside function (std, `sqlparser`, `semver`, `http`,
`serde_json`) is documented to do and are trusted rather than proved.

## Layout

- `src/text.rs` — strings as character sequences: trimming, UTF-8 lengths,
  decimal numbers, `u64` parsing, cutting at character boundaries.
- `src/sql_split.rs`, `src/streaming_parser.rs` — the SQL statement splitter
  (strings, comments, dollar quotes, `BEGIN … END` blocks, `DELIMITER`) and
  the streaming reader built on it; statements come out the same however the
  input is cut into lines.
- `src/models.rs` — stored connections and workspaces.
- `src/settings.rs` — update endpoints, LLM providers, open modes, menus.
- `src/db_types.rs` — tree nodes and their (stable) ordering, catalog
  records, requests and builders.
- `src/sessions.rs`, `src/state.rs` — the session registry (reuse, release,
  expiry, statistics), the registered configurations, and what a tree
  node's object view lists.
- `src/execution.rs` — the decisions of running a script statement by
  statement, in or out of a transaction, and of running it with a progress
  record per statement (by bytes as it is read, or by statement count once
  all statements are read).
- `src/explain.rs` — EXPLAIN for the SQL editor (parsing with `sqlparser`).
- `src/filter.rs` — the visual WHERE-clause builder.
- `src/form.rs` — the connection form's fields, validation, and the
  configuration it makes.
- `src/llm.rs` — which LLM client a provider configuration asks for.
- `src/cells.rs` — how result cells are shown.
- `src/update.rs` — version checks (`semver`), downloads, byte sizes.
- `src/editor.rs` — file names of saved queries, the database selection.
- `src/postgres.rs` — what a PostgreSQL connection is opened with.
- `src/home.rs` — the home page's workspace filter and connection search.
- `app/main.rs`, `app/connections.rs` — a command-line front end: file
  I/O, environment, JSON (serde) and applying updates.
- `tests/` — scenario tests.
