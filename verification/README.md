# metastable

The verified core of a role-play chat backend, written in Verus.

`src/` is the library; every function in it carries a contract that Verus
proves, and the laws that span several functions are public proof functions
(`law_*`):

- `text`, `assoc`: string helpers and insertion-ordered association lists.
- `uuid_text`, `crypto_hash`, `clock`, `otp`: identifiers and hashes in text
  form, timestamps, and one-time passwords.
- `text_enum`, `prompt_codec`, `enum_decl`: enums stored as JSON or rendered as
  prompt text in several languages, read back, and read from their declarations.
- `schema`, `type_map`, `field_decl`, `query`: SQL for record tables (creation,
  insert, update, delete, migration plans) and filtered queries.
- `memory_graph`, `knowledge_graph`: graph-memory statements and prompts.
- `storage`, `cache_keys`, `ttl`, `voice`, `api`, `env`: storage keys, cache
  keys, request rules and configuration.

Calls into outside crates (`serde_json`, `uuid`, `hex`, `base64`, `rand`,
`blake3`) go through small trusted wrappers whose contracts state what those
crates document.

`app/` holds what the library leaves to the program: reading the environment,
the serde shapes of requests, settings with floating-point numbers, the clock
as text, and HTTP header glue. `tests/` runs the library on concrete values.
