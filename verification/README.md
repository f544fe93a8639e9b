# logpose

The core of a URL shortener, written in Verus. Verus proves the library's own
functions against their contracts. The small
functions marked `#[verifier::external_body]` make the calls into std and the
outside crates (FF1, base62, Argon2, JWT, UUID, QR, MD5, Razorpay signatures,
the clock); their contracts are trusted, not proved, and each one's doc comment
says what it claims.

- `src/shortcode.rs`: database ids to four-character short codes and back
  (FF1 over AES-256, then base62), with the round-trip and injectivity laws.
- `src/alias.rs`: which custom aliases are accepted, and cache lifetimes.
- `src/rate_limiting.rs`: the token bucket, one bucket per client address,
  and the refill and admission-bound laws.
- `src/cookies.rs`, `src/ids.rs`, `src/text.rs`: the guest cookie, UUIDs and
  the string helpers the parsers share.
- `src/urls.rs`, `src/auth.rs`, `src/billing.rs`, `src/analytics.rs`: the
  decisions the HTTP handlers make about links, accounts, payments and clicks.
- `src/error.rs`: the error type and the status each error is answered with.

`app/` is the HTTP service around the library (axum, diesel, Redis, Razorpay,
Google sign-in); it is ordinary Rust and is not verified. `tests/` runs the
library on concrete inputs.
