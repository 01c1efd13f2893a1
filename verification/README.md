# orderflow

Footprint order-flow tooling for SOL and SUI perpetuals. OKX is the only
execution venue; Binance USD-M and Bybit linear are resonance venues whose
prices never reach an OKX order. Live trading stays double-locked.

## Layout

- `src/` — the verified library (Verus). Every public function carries a
  contract; laws that span functions are public proof functions.
  - `domain` — modes, venues, the live lock, the boot decision, the
    per-venue quality vector.
  - `clock` — the 1m bar clock on exchange event time (late trades, gaps,
    closed bars that never reopen).
  - `footprint` — sessions, stacked-imbalance runs and the stack verdict.
  - `book` — per-venue L2 integrity (sequence chains, checksum, health) and
    the DOM gate.
  - `context` — the funding clock, the three-venue resonance join, the
    leave/accept and range/break counters, the regime words.
  - `exec` — routing, the open/flatten gates, automatic kills, the REST
    priority queue, order states, reject classes, client order ids and the
    reading of OKX private frames.
  - `ingest` — side words, control frames, CSV rows, the dump order, bounded
    per-venue inboxes.
  - `ops` — the crash fuse, disk watermark, reconnect backoff, missed-bar
    detection, log rotation plan, health report.
  - `calibrate` — the fill plan, promotion refusal and the shadow tally.
  - `cli` — the daemon's flags and replay planning.
  - `text`, `lex` — verified string helpers and code-point order.
- `app/` — the `orderflowd` daemon: files, JSON and TOML, and the engines
  whose arithmetic is on floats (ladders, footprint matrices, context
  stacks, sim fills and the ledger), calling the library for every decision
  that is not float arithmetic.
- `tests/` — tests of the library.
