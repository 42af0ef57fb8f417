# tower_proxy

Path rewriting rules for a reverse proxy, written in Verus.

- `src/rewrite.rs`: the `PathRewriter` trait and its rules (`Identity`, `Static`,
  `ReplaceAll`, `ReplaceN`, `TrimPrefix`, `TrimSuffix`, `AppendPrefix`, `AppendSuffix`,
  `RegexAll`, `RegexN`, `Func`), each with a contract over the characters of the path,
  and the rewriting of a request's target (its path and query, as plain values) into a
  new URI.
- `src/text.rs`: character-level search, replacement and trimming, with their
  mathematical definitions.
- `src/laws.rs`: properties that relate the rules (replacement limits, round trips).
- `src/pattern.rs`, `src/uri.rs`, `src/error.rs`: the parts of the `regex`, `http` and
  `hyper-util` crates that the library calls, behind trusted items with stated contracts.
- `app/`: the response future (which reads a request's target and sets the rewritten
  URI on it) and the impls of `Display`, `Error` and axum's
  `IntoResponse` for the error type.
