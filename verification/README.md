# Usage Billing

Turns exact usage windows into immutable billing-period snapshots and delivers their quantities
through a replaceable billing provider. What is decided and computed is a Verus library; the
PostgreSQL plugin around it is ordinary Rust.

## Layout

- `src/` is the library.
  - `tables.rs` is the stored state as mathematics: accounts, periods and finished commands by key,
    and for every operation what it leaves and what it answers.
  - `store.rs` and `store/` hold the rows of one transaction and carry the operations out on them,
    each proved against `tables.rs`.
  - `authorize.rs`, `snapshot.rs` and `reconcile.rs` are the conversations with other plugins, split
    into steps: each takes the reply to the step before and says what to ask next, or ends. A close
    begins with what is kept of its request, so that a repeated request is answered as it was.
  - `requests.rs` and `config.rs` say what is accepted; `error.rs` says how failures
    are reported and `lifecycle.rs` when the plugin is ready; `tools.rs` is a read-only catalog for an agent.
  - `decimal.rs`, `digest.rs`, `instant.rs`, `text.rs` and `order.rs` are numbers of any size, stable
    ids, instants, bounded text and its order.
  - `laws.rs` and `laws/` state what holds of every event and of every history.
- `tests/` runs the library.
- `app/` reads and writes rows, asks the other plugins, and puts values on the wire.

## The rows of a transaction

An operation needs some rows, not all of them. `laws/slices.rs` names for each operation the rows
that have to be read, and proves that the answer and the written rows are then those of the
operation on everything that is stored. `app/postgres.rs` reads those rows.

Ids are listed in the order of their code points; the schema keeps them under the `C` collation.

## What is trusted

The contracts of a few outside functions are believed, not proved. Each stands in a small function
marked `#[verifier::external_body]` with a comment on what is claimed: whole-number arithmetic of
`num_bigint` (`decimal.rs`), SHA-256 of `sha2` (`digest.rs`), RFC 3339 of `time` (`instant.rs`), the
schema names of `lenso_postgres_kit` (`schema.rs`), the assertion keys of `lenso_auth_sdk`
(`config.rs`), and JSON texts of `serde_json` (`tools.rs`).

## Limits

Whole-number usage and explicit windows. No tax, discounts, proration, credit notes, invoices,
payment collection or scheduling. Delivery across a network is not claimed to happen exactly once.
