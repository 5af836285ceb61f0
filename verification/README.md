# apalabrar

The core of a local-first academic document editor, written in Verus.
The library's public functions carry contracts that Verus proves; the
calls into `loro`, `quick-xml` and a few std functions go through small
trusted wrappers whose contracts are believed, not proved, and each of
which says in its doc comment what it claims of the outside code.

## Layout

- `src/doc_model` — the document: a `loro` CRDT document holding the
  body text, its bold/italic marks, the kind of each block, and the
  comment, suggestion, citation and footnote records. `store.rs` holds
  the plain-value model of the CRDT contents and the trusted wrappers
  over `loro`; `document.rs` the edit operations and their effects;
  `laws.rs` the properties that span several operations.
- `src/editor_core` — the editing surface a host calls: byte-offset
  edits checked against UTF-8 boundaries, the find engine, the edit-op
  dispatcher with its render deltas, and the registry of open documents.
- `src/citation` — the CSL 1.0.2 engine: style and locale parsing from
  XML events (`quick-xml` behind a trusted wrapper), the rendering of
  layouts, groups, choose branches, names, dates, labels and macros into
  a token IR, and its serialisation to HTML or plain text.
- `src/ai_bridge`, `src/text` — small shared pieces.
- `app/` — the host side that Verus does not see: the process-wide
  registry, the JSON forms of the library's types, the `.docx` reader
  and writer, and the wasm-bindgen exports.
- `tests/` — the library's tests.
