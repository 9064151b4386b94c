# recon_core

Parser support and deterministic leak detectors for Microsoft Partner Center
license-based reconciliation exports (direct CSP, NCE, 2026 schema), written in Verus.
Every function of the library carries a contract. Verus proves each one, except the small
trusted wrappers (marked `#[verifier::external_body]`) that call `rust_decimal`, `chrono`
and std's formatting: their contracts are taken on trust, stated from those crates'
sources, and everything built on them is proved against those contracts.

## Layout

- `src/` — the verified library.
  - `dec.rs`: exact decimals (sign, 96-bit magnitude, scale), with the arithmetic,
    parsing, rounding and display of `rust_decimal` behind small trusted wrappers;
    `date.rs`: calendar dates, with `chrono`'s parser and display behind two.
  - `text.rs`, `numeric.rs`: cell-level text handling (Excel guards, scientific notation,
    date layouts, percentages in prose).
  - `types.rs`: the typed row (`ReconRow`), charge types, `ReferenceId`, billing terms.
  - `error.rs`: per-cell errors and the fatal stream errors.
  - `parser.rs`: header binding by normalised name, and `RowStream`, which turns one CSV
    record at a time into a row, a skipped repeated header, or a fatal error.
  - `detectors/est.rs`: the Extended Service Terms detector: classification of a line,
    per-subscription rollup, noise gate, totals and ranking, with the laws they obey.
  - `report.rs`: the payload for the user interface (exact money strings, the findings
    table and its order, warnings) and `Analysis`, which follows an analysis row by row.
- `app/` — ordinary Rust around the library: reading files (gzip including multi-member,
  CSV), decoding the JSON form of `ReferenceId`, serialisation, and the WebAssembly
  bindings.
- `tests/` — tests run against the compiled library, reading a synthetic two-member gzip
  export built in the tests themselves.
