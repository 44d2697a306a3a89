# qlink-core

The core logic of a post-quantum mesh link, verified with Verus.

- `src/` is the library. Every function carries a contract, and the laws that
  hold across functions are public proof functions named `law_*`.
- `src/outside.rs` holds the calls into other crates (HMAC, CRC, SHA-256,
  base64, hex, JSON strings, URLs, entropy) behind contracts that are taken on
  trust.
- `tests/` runs the library from outside.
- `app/` is ordinary Rust around it: sockets, TLS, mDNS, HTTP, the C interface
  and the `qlinkctl` command line.
