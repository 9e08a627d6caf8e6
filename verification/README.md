# memory

The coordination layer of a layered memory store (interaction, insight and asset layers of
embedded records), written in Verus: every decision it takes is proved against its contract.

- `src/` is the verified library: circuit breakers, retry policies with backoff, the lifecycle
  of the coordinators and their dependency registry, health checking and diagnostics,
  metrics and their history, resource limits and auto-scaling, the search cache, the
  promotion of records between layers, and the mock model back-ends. Times are passed in
  as milliseconds; shares are kept in hundredths of a percent and factors in thousandths.
- `app/` is the asynchronous shell: sleeps, locks, spawned loops, the drivers that run start-up,
  health verification, diagnostics, searches and shutdown step by step, JSON reports and the
  floating-point scores of the mock models.
- `tests/` exercises the library on concrete values.
