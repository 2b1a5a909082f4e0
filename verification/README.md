# fold_ingestion

The verified core of an ingestion pipeline that turns files, folders and
Apple app exports into JSON records, asks a language model for a schema,
and prepares the records and mappers that become database mutations.

- `src/` is the library, written in Verus: its public functions carry
  contracts over plain models (`Seq`, `Map`, the `JsonV` view of
  `json::Json`), and the laws of the library are public proof functions
  whose names start with `law_`. Calls into outside crates (SHA-256,
  regular expressions, JSON parsing, clocks, HTTP error details) go
  through small trusted wrappers, each with a doc comment saying what is
  assumed. Compact JSON text, string escaping included, is written and
  proved in `src/json.rs`.
- `tests/` runs the library with the outside crates linked.
- `app/` is the ordinary Rust around it: AppleScript, files, HTTP, and
  the `serde_json` forms of the library's records.

Verify with `verus` on `src/lib.rs` (crate type `lib`).
