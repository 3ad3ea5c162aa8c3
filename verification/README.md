# openparlant

Control-plane decision logic for conversational agents, verified with Verus.

- `src/` is the verified library: observation matching (`observation`,
  `matching`), guideline activation, relationships and tool exposure
  (`policy`, `semantic_policy`), journeys (`journey`), turn compilation
  (`turn`), releases, dashboard and plaza figures, stored-embedding codec,
  agent loading, schema migration planning and SQL query builders
  (`queries`). Each public function states its result in its `ensures`;
  `laws` holds the properties that relate several functions.
- `tests/` runs the library on concrete values.
- `app/` is the runtime around it: SQLite storage, the schema, model calls
  for semantic matching and the async turn coordinator.

Outside crates are called from `src/` only behind small trusted wrappers
(`regex-lite`, `uuid`, `sha2` and a few `std` string functions), each with a
doc comment saying what its contract claims.
