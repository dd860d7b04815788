# typesafe_systemone

A client for the TypeSafe System One API. Its logic carries proved contracts.

- `src/` — the verified library: typed questions and their JSON form, the request
  builder and its checks, client configuration (explicit settings, environment
  fallbacks), error classification by HTTP status, error-body messages, and the
  retry policy (backoff, jitter, `retry-after`, when to stop).
- `app/` — the async HTTP transport (reqwest, tokio), environment reading,
  response parsing (answers carry floating-point probabilities), and the error
  type with its display messages.
- `tests/` — tests of the library.

HTTPS goes through reqwest's rustls backend (with the `ring` provider and the
webpki root certificates); pass your own `reqwest::Client` with
`ClientBuilder::http_client` to use another TLS setup.
