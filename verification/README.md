# transf_orm_cli

An ORM schema converter. It reads a Prisma schema (`.prisma`) and produces the
pivot IR, an ORM-neutral description of tables, columns, keys, indexes,
relations, views and enums, printed as canonical JSON.

The library is written in Verus and verified:

- `src/pivot/` — the pivot IR types and their mathematical models.
- `src/importer/prisma/` — the Prisma importer: a lexer (`lexer.rs`), a parser
  into a raw syntax tree (`parser.rs`, `ast.rs`), value mappings
  (`mappers.rs`), table building (`scalar_table.rs`), relation resolution
  (`relations.rs`, `resolver.rs`) and `parse_schema` (`mod.rs`). Every step
  has an exact specification; `laws.rs` proves properties that hold for every
  schema (one column per scalar field, foreign keys on the owning table,
  implicit many-to-many relations on both sides, unknown attributes kept in
  the metadata, relations that only point at declared models).
- `src/registry.rs` — the known ORMs, detection by file extension and lookup
  by name, with their laws.
- `src/json.rs`, `src/text.rs` — JSON values and string helpers.

`app/` holds the command-line program (`transf-orm convert <path>`), file
reading and the serde-based canonical JSON output.
