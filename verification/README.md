# trading_engine

The decision logic of a trading backend, verified with Verus: a small rule
language over market indicators, candlestick and chart pattern detection,
next-candle analysis and its written report, position sizing, exits and
PnL, trade routing by account mode (paper, signals, live), learning from
closed trades and narrative insights.

## Layout

- `src/` — the verified library. Every public function states its result in
  `ensures` over spec functions; `src/laws.rs` holds the properties that span
  several functions (modes, exits, stakes, learning, patterns, instruments).
  Decimal arithmetic is `rust_decimal`'s, reached through the trusted
  wrappers in `src/decimal.rs`; the few std text functions used are wrapped in
  `src/text.rs`; replies from the language model and the broker, and the
  stored learning scores, are read as JSON through `serde_json` in
  `src/json.rs`.
- `tests/` — tests on concrete values, run against the compiled library.
- `app/` — the service around the library: HTTP routes, database access,
  market and broker clients, the LLM client and the background loop.

Verify with Verus on `src/lib.rs`; the outside crates come from `Cargo.toml`.
