# codeatlas_core

The analysis core of Code Atlas, a tool that turns a Rust or TypeScript
repository into a navigable architecture graph of packages, modules, files
and their dependencies. The library is written in Verus: its functions carry
contracts, and Verus proves them.

## Layout

- `src/graph` — the graph model: node and edge types, the identity scheme
  (normalized paths, materialized keys, edge identities), the overlay
  (manual edges, suppressions, metadata) and the two-layer `ArchGraph`
  over petgraph's `StableGraph`.
- `src/config` — the `.codeatlas.yaml` schema, its validation and ignore
  patterns (through globset).
- `src/workspace` — the workspace model and the decisions of discovery,
  with `document.rs` holding JSON and YAML documents as plain values
  (parsed with serde_json and serde_yaml) whose fields the manifest readers
  take:
  assembling what `cargo metadata` reports, planning JS workspace globs,
  choosing the package manager and the Cargo manifest, stripping comments
  from `tsconfig.json`, and combining the Cargo and JS outcomes.
- `src/detector` — the Rust and TypeScript detectors: compatibility
  assessments, package topology, module and file nodes, parsing sources
  with tree-sitter and reading what its queries match (`syntax.rs`),
  following `mod` declarations file by file as a step function that asks
  for reads and probes and is handed back what was found
  (`module_walk.rs`), `use`/`import` resolution and the findings they
  report.
- `src/profile.rs` — the graph profile detected from a workspace and its
  fingerprint.
- `src/health`, `src/scan` — the compatibility report, graph health, and the
  scan pipeline from detector output to streamed phases, the merged graph
  with its overlay, and the final report.
- `src/lib.rs` — `AnalysisHost` and `Analysis`.
- `src/text.rs`, `src/paths.rs` — string and path helpers.
- `app/` — the I/O around the library: reading files, running
  `cargo metadata`, walking directories, probing for files, and running
  scans with cancellation.
- `tests/` — tests of the library on concrete values.

## Platform

The contracts on paths (components, parents, file names, extensions,
joining) describe paths as Unix-like platforms form them: `/` is the only
separator and there are no drive prefixes.
