# url_shortener

The core of a URL shortening service, verified with Verus.

- `src/codec.rs`: base62 text of 128-bit numbers (calls the `base62` crate),
  with the proofs that decoding inverts encoding and that encoding inverts
  decoding on canonical texts.
- `src/ids.rs`: link identifiers (`Uuid`, name-based via the `uuid` crate),
  record identifiers (`ObjectId`, from `bson`), and the short paths.
- `src/web.rs`: parsed web addresses (via the `url` crate).
- `src/shorten.rs`, `src/redirect.rs`: the decisions of the shortening and
  redirect requests, and the proof that a shortened path leads back.
- `src/leaderboard.rs`: ranking visit counts and building the leaderboard.
- `src/queue.rs`: the visit messages.
- `src/error.rs`, `src/models.rs`: errors with their HTTP answers; records.
- `app/`: the HTTP service (axum), the MongoDB store, the Redis cache and
  queues, which call the library for every decision.
