# onesync

The verified core of a two-way OneDrive sync client, written in Verus.

- `src/protocol/` — domain types: timestamps, content hashes, typed ids,
  relative/absolute paths, file sides, wire enums, remote `driveItem`s,
  persisted records and JSON-RPC envelopes.
- `src/graph/` — the Microsoft Graph adapter's logic: error model and its
  port-level mapping, response classification, URL construction, the
  `/delta` cursor, download hash checks, `QuickXorHash`, the resumable-upload
  state machine, the token bucket, the access-token cache, the OAuth redirect
  parser, PKCE, `id_token` claims, the token endpoint, and an in-memory fake
  drive.
- `src/keychain/` — refresh-token vaults.
- `src/urls.rs`, `src/text.rs` — percent-encoding and small string helpers.
- `tests/` — executable tests against the compiled library.
- `app/` — the networked side (HTTP, timers, the loopback listener, serde
  wire types) that drives the library.
