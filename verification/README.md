# zennode

Self-documenting node definitions for image processing pipelines, verified
with Verus.

Nodes describe their parameters once (ranges, defaults, units, UI sections,
RIAPI querystring keys, JSON names). A registry aggregates node definitions,
parses querystrings against all of them with consumption tracking, looks
nodes up by ID, group, tag or JSON key, and renders Markdown references.

Layout:

- `src/` — the verified library. `kv` (querystring parsing, percent
  decoding, consumption tracking), `registry`, `schema` (descriptors,
  JSON-name rules, Markdown), `param` and `float_bits` (values; floats are
  held by their IEEE-754 bits, with the integer conversions of Rust's `as`
  casts proved), `nodes` (the built-in `Decode` and `QualityIntent` nodes),
  `naming` (the identifier rules of the node derive), `json_schema` (the
  querystring key list and its grouping by node), `json` (a JSON value type
  with floats held by their bits, parameter maps read from JSON fields, and
  the JSON Schema of each parameter), `version`, `error`, `format`,
  `ordering`, `text`.
- `app/` — what the library cannot hold: float parsing and printing, node
  instances as trait objects, JSON text read and written with `serde_json`
  and converted to and from the library's values, and the assembly of whole
  JSON Schema documents.
- `tests/` — the test suite.
