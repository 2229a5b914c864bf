# dash_ord

An indexer for Dash inscriptions: ordinal-style envelopes in transaction
inputs, DAR-20 tokens (deploy, mint, transfer), DashMap block claims and
DashDomain (`.dash`) names, served over an HTTP API.

## Layout

- `src/` is the library, verified with Verus:
  - `text.rs`, `amount.rs`: decimal digits, and DAR-20 amounts as base
    units (parse and format, with the round trip proved);
  - `script.rs`, `json.rs`: the `scriptSig` push parser, the `ord` envelope,
    and the JSON fields read from inscription content;
  - `parser.rs`: inscriptions out of transactions, and DAR-20, DashMap and
    DashDomain operations out of inscriptions;
  - `ledger.rs`: the DAR-20 rules and balance arithmetic, and where a spent
    output moves;
  - `sync.rs`: the indexing loop as a state machine;
  - `store.rs`, `api.rs`, `models.rs`, `rpc.rs`: the decisions behind the
    store's queries, the API's listings and the node's replies, and the
    records they carry.
- `app/` is the program around it: the node client (reqwest), the SQLite
  store (sqlx), the API server (axum) and the command line (clap).
- `tests/` runs the library on concrete values.
