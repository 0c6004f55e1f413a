# delta_schema

Schemas of Delta tables, with the rules that hang on them, as a verified library: struct types and
their fields, column mapping, file statistics, the schema's JSON and Arrow forms, write directories,
the split of checkpoints into sidecars, and reported metrics.

- `src/` is the library. Every function there carries a contract over mathematical models: a schema
  is a sequence of named fields, metadata is a map, a text is a sequence of characters. Public proof
  functions named `law_..` state what relates several functions.
- `tests/` runs the library on concrete values.
- `app/` holds what the library leaves to its surroundings: files, network, threads, serialisation
  traits and floating point numbers.

Calls into `serde_json`, `indexmap`, `url`, `uuid`, `rand`, `arrow-schema` and a few functions of std
stand behind small wrappers whose doc comments say what is taken on trust.
