# mochiOS Developer CA

The rules of the mochiOS Developer Certificate Authority as a Verus library,
with the Cloudflare Worker and the Offline Root tool around it.

- `src/` — the verified library:
  - `token` — Console delegation tokens (`mca1.<payload>.<signature>`) and their claims.
  - `trust` — Root-signed trust snapshots and Issuer-signed revocation snapshots:
    validation, canonical bytes, signing and verification.
  - `canonical` — the canonical signing encodings are one to one.
  - `certificate` — Developer Certificate requests, package scopes and Root public keys.
  - `registration` — certificate registration, the status check of a stored
    certificate, and the public list of revoked serial numbers.
  - `service` — roles, membership changes, request bodies and the service's refusals.
  - `auth` — who a request speaks for: sessions, delegation tokens and admins.
  - `store` — record IDs, serial reservation, idempotent issuance claims.
  - `steps` — the order of the checks of certificate registration and admin
    revocation, as state machines that the Worker's handlers drive.
  - `root_tool` — key records, Issuer records, trust snapshots and admin tokens.
  - `bytes`, `text`, `order`, `crypto` — byte and text building blocks, byte-wise
    ordering, and the calls into `sha2`, `ed25519-dalek` and `base64`.
- `tests/` — tests of the library.
- `app/` — the Worker's HTTP handlers and D1 queries, JSON forms of the library's
  types, the shared MCER crate's calls, and the Offline Root tool's command line.
