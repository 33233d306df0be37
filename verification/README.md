# memory_stream

A Markdown knowledge-card engine, verified with Verus.

- `src/` is the library, every function of it proved against its contract:
  - `ms_ast`, `md_parser`, `ast_core`: parsing Markdown into a syntax tree (on
    pulldown-cmark's event stream), tables of contents, documents and their
    front matter;
  - `renderer`: sanitised HTML from the tree;
  - `graph`, `slug`, `text`, `pattern`: the knowledge graph, heading slugs, text
    helpers and regular-expression matches;
  - `ms_io`, `compress`, `draft`: storage records, export layout, image limits
    and local drafts;
  - `admin`: the desktop client's decisions — configuration, vault layout and
    healing, synchronisation plans, wikilink renaming, the vault watcher, the
    WebSocket client, the `ms://` protocol, secrets and the HTTP gateway.
- `app/` is the file-system, clock and JSON side around the library.
- `tests/` runs the library on concrete values.

Each module states its laws as public proof functions named `law_*`.
