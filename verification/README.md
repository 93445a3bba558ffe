# libsql_plugin

The verified core of a Tabularis database driver for libSQL: local SQLite
files and remote Turso / sqld servers over Hrana HTTP, spoken to the host as
JSON-RPC over stdin/stdout.

- `src/` is the library, verified with Verus: where a connection points
  (`client`), the Hrana wire format (`hrana`, `utils::values`), SQL text
  builders and classification (`handlers::ddl`, `handlers::metadata`,
  `handlers::query`, `utils`), the JSON document type (`json`) and the
  JSON-RPC envelopes (`rpc`). Every function states what it returns over
  spec functions; the laws that span functions are proof functions beside
  them.
- `app/` is the program around it: the stdio loop, method routing, and the
  I/O the library leaves to its caller (opening SQLite files with
  `rusqlite`, HTTP requests with `ureq`, `serde_json` parsing).
- `tests/` runs the library on concrete inputs, with in-memory SQLite
  databases supplying real `PRAGMA` rows.
