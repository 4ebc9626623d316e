# tickflow

A client library for the TickFlow market-data API (quotes, klines,
instruments, universes, exchanges, order-book depth and financial
statements), whose core is verified with Verus.

- `src/` is the verified library: symbol validation and regions, periods
  and other wire codes, request planning (chunking identifiers into
  batches, query strings and bodies), the merging of keyed answers, the
  symbol-to-name store behind the instrument-name cache, the checks of
  answers, and the conversion of payloads into typed tables. Calls into
  `url`, `chrono`/`chrono-tz` and `reqwest`'s header validation stand
  behind small trusted wrappers whose contracts name or state what those
  crates compute. `src/laws.rs` holds the properties that relate several
  operations.
- `tests/` exercises the library on concrete values.
- `app/` is the asynchronous HTTP client around the library: `reqwest`
  transport, `tokio`/`futures` concurrency, `serde` wire types (with prices
  as `f64`), and the conversion of tables into polars `DataFrame`s.

Prices travel through the library as the bit patterns of their `f64`
values (`f64::to_bits`); the library moves them without computing on them.
