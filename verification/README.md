# expense_tracker_api

An expense tracker service with wallet login, role-based access, an audit
log, monthly reports, and a hybrid flow that records on-chain expense
transactions after checking them. The rules of the service are a library
verified with Verus; a thin binary serves them over HTTP.

## Layout

- `src/` — the verified library.
  - `model.rs` — roles, statuses, errors, claims, settings, request and
    response shapes.
  - `state.rs` — the in-memory state, its invariant, and the sweep of
    expired records.
  - `session.rs` — login challenges, login by signature, refresh-token
    rotation with reuse detection, logout, revocation, admission of access
    tokens; with the laws that tie them together.
  - `ledger.rs` — categories, idempotent expense creation, one-way status
    decisions, listings, search, history and the audit log.
  - `reports.rs` — the monthly report: period resolution in a time zone,
    totals by category and by day (which add up to the total), largest
    expenses.
  - `onchain.rs`, `commit.rs` — reading a fetched Solana transaction,
    decoding instruction data, and the checks of a hybrid commit.
  - `persisted.rs` — the decisions of the Postgres-backed paths: given the
    rows read, what a request answers and what is written (idempotent
    creation, one-way status decisions, owner checks, replayed commits,
    audit metadata).
  - `program.rs` — the on-chain program's instructions and their checks,
    with the admin authority of the program configuration.
  - `authz.rs`, `config.rs`, `text.rs`, `ranking.rs`, `table.rs` — roles,
    settings, text helpers, stable ranking, keyed tables.
  - `primitives.rs` — the calls into outside crates, each with the contract
    the library relies on.
- `tests/` — tests of the library.
- `app/` — the HTTP binary: routes, JSON forms, token signing, Postgres and
  Solana RPC access.
