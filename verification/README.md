# finsight_core

The rules and figures behind a personal-finance ledger, verified with Verus:
envelope budgeting (To Budget, holds, cover transfers, funding templates,
carryover, the month look-back), account balance curves reconstructed from an
anchor and cleared activity, net worth, custom and payee reports, goals,
restoration envelopes, splits, schedules (cron fields and plain-language
intervals), report widgets, categories, household members, recipes and the
reset epoch.

## Layout

- `src/` — the verified library. Each module states its results over spec
  functions (`*_of`), and the properties that span calls are public proof
  functions named `law_*`. Calls into `chrono`, `serde_json`, `uuid` and std's
  Unicode tables go through small trusted wrappers (`dates`, `json`, `ids`,
  `unicode`, `text::string_of`), each documenting what it claims.
- `tests/` — tests run against the compiled library.
- `app/` — the SQLite repositories (`rusqlite`), the reset barrier (`tokio`),
  the serialisable models (`serde`, `specta`, `utoipa`) and the error type.
  They run the queries and hand plain values to the library, checking each
  call's preconditions first with the library's own `*_in_range` checks.
