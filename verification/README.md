# path8

The approval check of a Solana co-signing relayer, verified with Verus.

A protected RPC method is served only with an HS256 approval token that

* is signed with the configured HMAC secret,
* carries every required claim and has not expired,
* names, in its `ch` claim, the canonical instruction hash of the very
  transaction being signed, and
* has a JTI that the Redis store accepts exactly once (`SET key 1 EX ttl NX`).

Layout:

* `src/token.rs` – splitting and checking tokens (`verify_approval_token`).
* `src/canonical.rs` – the transaction model and the canonical instruction hash.
* `src/approval.rs` – the approval check (`enforce_path8_approval`) and the JTI decisions.
* `src/crypto.rs` – trusted wrappers over `sha2`, `hmac`, `base64`, `subtle`,
  `hex` and `chrono`.
* `src/laws.rs` – properties of the approval check as proof functions.
* `app/lib.rs` – environment, JSON decoding, Solana type conversion and the
  Redis round trip.
