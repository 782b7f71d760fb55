# rustisaur_stdlib

The standard library of the Rustisaur scripting engine: string functions,
the Guardian security firewalls (network, database, file system, secrets),
a TTL cache store, SQLite bookkeeping, the request/response queues,
routing and static file mounts of the HTTP server, the WebSocket client state and path helpers.

- `src/` is the library, verified with Verus.  Each firewall check is a
  step function: it returns a verdict, and when the owner has to decide it
  keeps the request waiting until the owner's answer is handed to the
  matching `answer_*` method.  Laws (`law_*` proof functions) state what
  holds across calls: a value read back from the cache after a write, a
  blacklisted domain is blocked, a joined split gives the text back, and so
  on.
- `app/` binds the library to Lua (`rex.*`), runs the consoles, servers,
  sockets and database connections, and does the floating-point arithmetic.
- `tests/` exercises the library on concrete values.
