# postrust_graphql

GraphQL over a PostgreSQL database: schemas built from what each role may see,
and requests compiled to parameterised SQL. The library in `src/` is verified
with Verus; it does no I/O. It is handed a catalogue, a caller's rules and the
arguments of a field, and hands back statements with the values they bind, the
description of a schema, or what has to happen next.

- `context` — the settings and the role of a transaction
- `catalog`, `scope`, `role` — tables, names, relationships and permissions
- `comparison`, `condition`, `ordering`, `projection`, `computed`, `embed` —
  the parts of a statement
- `read`, `statement`, `insert`, `mutate`, `entity` — whole statements, nested
  inserts and the lookup of entities
- `generated`, `object_types`, `roots`, `inputs`, `schema`, `state` — schemas,
  and which one answers for which role
- `answer`, `value`, `json`, `json_path`, `live` — answers, and when a live
  query sends one
- `input`, `request`, `plan`, `resolver` — filters, orderings and plans as
  plain values
- `laws` — what holds of the library as a whole

`app/` runs the statements, registers the schemas with async-graphql and
handles requests. A host supplies what the crates that plan relationships and
read permissions decide: it implements `service::Host`.
