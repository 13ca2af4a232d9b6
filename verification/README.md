# Actions runner

The decision logic of a self-hosted actions runner, written and verified in Verus, and the
programs around it.

- `src/` is the library. Every function has a contract that Verus proves: command lines and
  configuration, the message loop and the polls behind it, job dispatch and the life of a worker,
  access tokens, self-updates, artifacts, workflow commands, secret masking, logs, the messages
  between processes, diagnostic checks and service files.
- `app/` performs the input and output: it asks the library what to do, does it, and hands back
  what came of it. The same executable is the listener and the plugin host.
- `tests/` runs the library on concrete values.

Calls into other crates (URL parsing, dates, RS256 signatures, SHA-256, hexadecimal and percent
encoding, UUIDs, random numbers and RSA keys) stand behind small functions whose contracts say
what is taken on trust.
