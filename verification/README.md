# wtr

Look up Rust crate documentation from docs.rs in the terminal: `wtr jiff::Timestamp`,
with `--methods`, `--traits`, `--full` or `--search <term>`. The tool fetches a crate's
rustdoc JSON (zstd-compressed), caches it on disk, and renders signatures, doc
summaries, methods and trait implementations.

The logic is a library written in Verus, with each public function's behaviour stated
in `requires` / `ensures` and proved.

## Layout

- `src/` — the verified library.
  - `model.rs`: the rustdoc data the library reads (items, types, generics, paths).
  - `strings.rs`: string helpers with exact contracts (join, trim, compare, find, decimals).
  - `render.rs`: every renderer, each equal to a spec function that says what the text is.
  - `lookup.rs`: lookup by path, through the module tree and re-exports, associated
    items, methods, trait implementations, and search.
  - `fetch.rs`: the crate model, format-version checks, cache layout, the freshness of
    the `latest` record, the docs.rs address, the fetch decision step, and zstd
    decompression.
  - `query.rs`: parsing `crate::path::to::Item`.
  - `cli.rs`: which version to look up, the header, and the assembled output.
  - `workspace.rs`: the version the current workspace depends on, from `cargo metadata`.
- `app/` — the program around the library: argument parsing, HTTP, files, JSON
  parsing into the library's model, and terminal output.
- `tests/` — tests of the library on hand-built crates.

## Trusted items

Three calls are believed rather than proved: `rustdoc_types::FORMAT_VERSION`,
`zstd::stream::decode_all` (its result named `zstd_decoded`), and `str::to_lowercase`
(its result named `lowercase`). Each is a small wrapper with a doc comment saying what
its contract claims.

## Limitations

- Rustdoc JSON exists only for crates published to docs.rs after 2025-05-23.
- Supported format versions are 39 to 57; others are refused with an error naming the
  bound that was crossed.
