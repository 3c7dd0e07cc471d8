# pbps_pg

The PostgreSQL dialect of a schema tool: the statements a change becomes, the
declarations that are refused before anything connects, what a change costs,
what a rename or a drop would leave behind, and the schema that a catalog's
rows describe. The library is written in Verus, and every function's contract
is proved.

## Layout

- `src/text.rs`, `order.rs`, `entries.rs`: texts, their order, and lists of
  entries that are kept in an order.
- `src/model.rs`: names, types, tables, modules and changes.
- `src/error.rs`, `sql.rs`, `lexer.rs`: refusals, quoting, and the engine's
  own lexical rules.
- `src/emit.rs`, `definition.rs`, `validate.rs`: the statements of a change,
  and what a table or a module must satisfy first.
- `src/estimate.rs`, `impact.rs`, `drop_impact.rs`, `modules.rs`, `pins.rs`:
  what a plan costs, reaches, leaves behind and rebuilds, and what it is
  pinned against.
- `src/introspect.rs`, `granted.rs`: the schema, the roles and the warnings in
  a catalog's rows.
- `src/laws.rs`, `grouping.rs`, `pulled.rs`, `recorded.rs`, `reordered.rs`: what
  holds across these, stated and proved.
- `app/`: the reads themselves. It sends the library's queries and hands the
  rows back.
- `tests/`: the library on concrete values.

## What is handed in

The type catalogue, the declaration format and the decoder of escaped
identifiers are not part of the library. What they answer is data: a declared
type carries its normalized form, a definition is validated against its
readings, and a pull is assembled against what the format reads back.

Outside the proofs stand `String::push` and `serde_json`'s reading of a list
of strings, each with a stated contract.
