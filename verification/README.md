# moda_core

The core of the MoDa browser prototype as a verified library: capability tokens, permission and
security policies, input validation, inter-process messages and channels, message security
(source and age checks, session tokens, HMAC signatures, AES-256-GCM payload encryption), TLS
settings, sandbox configuration, platform names and secure storage.

- `src/` is the library. Every function carries a contract that Verus proves. Calls into ring,
  hmac/sha2, hex, uuid and the system clock go through small trusted wrappers in `crypto.rs`,
  `ident.rs`, `clock.rs` and `text.rs`, whose doc comments say what is assumed of them.
- `tests/` exercises the library with the real outside crates linked.
- `app/` is the demonstration program and what needs the operating system or floating point:
  host platform detection, process spawning, the HTTP client, JSON/bincode message encoding and
  the layout geometry.
