# bunnynet_prometheus

A Prometheus exporter for Bunny.net statistics, with its bookkeeping verified by Verus.

The exporter polls the Bunny.net API for each enabled category of statistics (pull
zones, storage zones, DNS zones, video libraries, shield zones, ...), keeps per-entity
totals of complete days and the current day across restarts, backfills days it missed,
and reports counters and gauges on an HTTP endpoint.

## Layout

- `src/` — the verified library:
  - `date.rs`: calendar dates by day number, and the `YYYY-MM-DD` keys of charts;
  - `chart.rs`: statistics charts keyed by date or label, lookups of a date's value,
    sums over all keys or a window of dates, and key-by-key addition and maximum of
    count maps, with their algebraic laws;
  - `entity_stats.rs`: the `DayData` and `EntityType` traits, per-entity entries,
    the day rollover and backfill update, and the state of a category across polls;
  - one module per statistics category, with its day data and its laws;
  - `dns_zone.rs` also names DNS record types; `poller.rs` holds the poll-cycle tally,
    pagination and access-key handling; `collector.rs` the collector names.
- `tests/` — tests of the library on concrete values.
- `app/` — the program: command line, HTTP client, state files, metric emission,
  and the floating-point gauges of the categories that have them (their counters
  are library day data).
