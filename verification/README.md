# synapse_core

The core rules of a Stellar payment backend, written in Verus: the
library's functions carry `requires`/`ensures` contracts that Verus proves
(small private helpers and clock readings aside, where nothing can be
promised of the reading).

## Layout

- `src/` — the verified library.
  - `services/` — reconciliation of the ledger against on-chain payments,
    settlement batching, compliance reporting periods, the circuit breaker,
    distributed-lock decisions, feature-flag bucketing, the transaction
    pipeline and payment matching.
  - `validation/` — input validation, sanitizing and the status lifecycles.
  - `telemetry/` — telemetry input validation, error policy, connection
    pool, export buffer, graceful shutdown, rate limiting, label
    cardinality, health checks and webhook checks.
  - `ws/` — WebSocket connection ceiling, metrics, health and cursor
    pagination.
  - `security/`, `stellar/`, `utils/`, `tenant.rs`, `secrets.rs`,
    `readiness.rs` — endpoint and session checks, event-stream framing,
    retry policy, listing cursors, log masking, tenant resolution, rotating
    secrets and readiness.
  - `clock.rs`, `calendar.rs`, `decimal.rs`, `ids.rs` — the trusted
    boundary to std's clocks, `chrono`, `bigdecimal` and `uuid`. Other
    trusted calls sit beside the code that uses them: `regex`
    (`telemetry/input_validation.rs`), `hex`, `hmac` and `sha2`
    (`telemetry/webhook.rs`), `rand` and lowercasing (`utils/retry.rs`),
    `base64` (`utils/cursor.rs`, `ws/pagination.rs`), std's hasher
    (`services/feature_flags.rs`), `HashMap` iteration
    (`telemetry/input_validation.rs`), character classes
    (`telemetry/health_checks.rs`) and `String::push` (`text.rs`). Each is a
    `#[verifier::external_body]` function whose doc comment says what is
    believed of it.
- `tests/` — tests of the library, run against the compiled crate.
- `app/` — the unverified shell: serde forms of the library's types, the
  export service, webhook intake, JSON sanitizing of `serde_json` values,
  shared WebSocket metrics, the reporting clock, the transaction pipeline
  runner (`sqlx`), Horizon payment paging (`reqwest`) and the payment-stream
  loop. Every decision these loops take is a call into the library.
