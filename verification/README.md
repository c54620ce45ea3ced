# must_syntax

Structural validation of a concrete syntax tree. The grammar deliberately
parses a superset of the language, so that broken code keeps the user's
intent in the tree; this library walks that tree and reports every form the
language refuses or reserves, each as a diagnostic with the range it covers
and, where one exists, a quick fix.

Every check is verified with Verus: each function's contract says exactly
which diagnostics it appends, as a spec function over the tree.

## Layout

- `src/tree.rs` — the tree as a table of nodes and tokens, its
  well-formedness, and the generic lookups (children by kind or class,
  tokens, ranges).
- `src/kind.rs` — the node and token kinds and their classes.
- `src/ast.rs` — the typed view: which child plays which part (a body, an
  annotation, a value, an impl head, ...).
- `src/error.rs` — diagnostics, fixes and edits, with their views.
- `src/capability.rs` — the capability vocabulary.
- `src/items.rs`, `src/members.rs`, `src/binders.rs`, `src/exprs.rs`,
  `src/records.rs` — the checks, by subject.
- `src/validation.rs` — the pass over the whole tree, in tree order.
- `src/provenance.rs` — which rule a reported diagnostic comes from.
- `app/lib.rs` — copies a `rowan` tree into the library's table and hands
  diagnostics back with `text_size` ranges.
- `tests/checks.rs` — one test per rule on small trees, and the bare-angle
  generics tests.
- `tests/parse_trees.rs` — validation of printed parser trees.
