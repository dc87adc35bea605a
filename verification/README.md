# quant_api

The scheduling, signal and strategy rules of a quantitative trading service,
written in Verus and proved against their contracts.

## Layout

- `src/` — the verified library.
  - `text` — white space, trimming, splitting, joining, decimal text and parsing.
  - `calendar` — dates as plain values, day arithmetic and the calls into `chrono`.
  - `schedule` — CRON handling, the daily windows, the once-per-day tick state,
    the task dispatch table, freshness decisions and market-level sync requests.
  - `audit` — the audit of the scheduled-task table.
  - `training` — model retraining decisions and request date windows.
  - `pretrade` — the pre-trade data check's combos, refresh routes and messages.
  - `strategy`, `combos`, `ordered` — strategy enums, defaults, and the sorted,
    duplicate-free symbol and combo sets merged from the strategy table.
  - `trade_block` — suspension and price-limit blocks of A shares.
  - `rebalance` — price sources, listed ETFs, the A-share clean-up and the
    empty-rebalance refusal.
  - `signal` — signal channels, the cross-section freshness gate, symbol
    mapping, identifiers and the SHA-1 checksum.
  - `mail` — broker report subjects, the IMAP search date, report sections and
    mirror identifiers.
  - `ownership` — who may change a user strategy.
  - `tree` — resolving a strategy tree from its main row and asset rows.
  - `alerts` — the text of the data-quality alert.
- `tests/` — tests of the library on concrete values.
- `app/` — the runtime around the library: database queries, HTTP calls, the
  scheduler loop, and the price rules that work on floating-point values.
