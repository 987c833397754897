# cachebench

Prompt-cache observability for LLM APIs, verified with Verus.

Per call: the cache hit ratio (as an exact fraction), the cost and the
saving versus uncached input pricing (exact, in pico-dollars), and whether
the call should raise a miss alert. Over the retained history: aggregates
and a per-prefix breakdown. Calls are grouped by a stable fingerprint of
their cacheable prefix (SHA-256 of the compact JSON of system prompt, tools,
model and every message but the trailing user turn).

Layout:

- `src/` — the verified library.
  - `pricing.rs` — providers and integer pricing (micro-dollars per million tokens).
  - `metrics.rs` — usage, exact ratios, per-call metrics, costs and savings.
  - `history.rs` — the retained history window, aggregation, per-prefix breakdown.
  - `tracker.rs` — the single-owner tracker and the miss-alert decision.
  - `fingerprint.rs` — payload framing, SHA-256 prefix ids.
  - `laws.rs` — properties of the library as a whole, proved.
- `app/` — the thread-shared tracker (mutex-guarded history shared by clones),
  `f64` prices and views, serde derives, alert callbacks, and serialization of
  arbitrary `Serialize` values for fingerprints.
- `tests/` — tests of the library.
