# harbor

Harbor manages secrets: projects hold secrets, each scoped to an
environment (`dev`, `staging` or `prod`), encrypted with ChaCha20-Poly1305
and kept in SQLite; the encryption key lives in the operating system's
keyring.

- `src/` is the library, verified with Verus: environment names, the
  `KEY=VALUE` parser, encryption, the stored-key encoding, the
  configuration, the store's decisions, the command-line decisions, `~/`
  expansion and the HTTP service's settings. Each public function states
  its result in its contract; the laws of the library are proof functions
  beside the functions they speak of.
- `app/` is the `harbor` program around it: argument parsing, files, the
  keyring, the database, prompts, child processes, and the HTTP service.
- `tests/` runs the library on concrete values.
