# shuntlited (verified core)

The decision core of a frugal proxy that routes OpenAI-style chat requests
to free-tier LLM providers, written in Verus.

- `src/` — the verified library:
  - `config` — slots, loaded provider keys, the usable providers of a slot,
    the startup report;
  - `providers` — endpoint and quota headers of each supported provider;
  - `router` — slot resolution, cooldowns after a rate limit, and the
    step-by-step walk through a slot's providers (`Dispatch`);
  - `savings` — data paths, store keys, quota counters, reference prices,
    savings counters and the routing summary;
  - `clock` — seconds since the epoch and RFC 3339 time stamps from a
    clock reading;
  - `codec`, `text` — big-endian counters, store reads, decimal text,
    string helpers;
  - `store` — trusted access to the key-value store (sled), the clock,
    calendar text (chrono) and the home directory.
- `app/` — the HTTP server (axum), upstream calls (reqwest), file reading
  and writing, JSON and TOML formats, logging, and the floating-point
  savings arithmetic.
- `tests/` — tests of the library on concrete values.
