# workspace_analyzer

Semantic analysis of Rust workspaces — symbols, call references, cross-crate
resolution, architecture-layer checks — as a library whose behaviour is stated
in Verus contracts and proved.

## Layout

- `src/` — the verified library.
  - `text`, `table`, `syntax`, `paths`: character-level string operations, an
    insertion-ordered name table, the syntax-tree model with parsing through
    tree-sitter's Rust grammar, and file/module paths.
  - `extract`, `workspace`, `analysis`: reading functions, types, imports,
    dependencies and call references off syntax trees; cross-crate detection;
    the function registry and reference resolution; whole-workspace analysis.
  - `global_index`, `cache`, `indexing`, `resolution`: the cross-crate symbol
    index, its gzip-compressed on-disk cache (through `flate2`), what parsed
    crates contribute to it, framework dispatch knowledge, edit
    distance and syntax-based resolution.
  - `architecture`, `config`: layer rules, violations and summaries; the
    configuration and its defaults.
  - `framework_patterns`: async-framework patterns, their validation and
    matching (regular expressions through the `regex` crate).
  - `incremental`, `pool`, `graph`, `hybrid`, `embeddings`, `mcp_protocol`:
    the decisions of incremental updates, the connection pool, the graph
    writer, the hybrid analyzer, the embedding stage and the tool server.
- `tests/` — tests of the library through its public interface.
- `app/` — what touches the outside world: configuration files, walking the
  workspace and reading its files, the graph database client, the on-disk index
  cache, JSON-RPC over stdio, and floating-point scores.
