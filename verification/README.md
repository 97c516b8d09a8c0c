# nami

A carbon-aware job scheduler for the U.S. grid: it estimates, from public
EIA-930 hourly fuel-mix data and EPA eGRID emission factors, whether a
deferrable job would run in a materially cleaner hour before its deadline,
and says plainly when the data cannot support a recommendation.

## Layout

- `src/` — the library, verified with Verus. Each module states its
  behaviour in `requires` / `ensures` over spec functions:
  - regions, fuels and their codes (`region`, `fuel`), time arithmetic and
    formatting (`instant`, `timefmt`, `text`);
  - the historical cache and the eGRID table (`cache`, `egrid`), the
    EIA-930 row normalisation and refresh folding (`fuel_mix`, `refresh`);
  - confidence grading, the forecast basis, candidate windows and the
    best-window decision (`confidence`, `forecast`, `window`, `scheduler`,
    `decision`, `static_table`);
  - command-line rules: deadlines, durations, profiles, region resolution,
    program lookup, config and report locations (`deadline`,
    `duration_arg`, `profile`, `resolve`, `program`, `reports`, `init`,
    `doctor`);
  - the run report and every text rendered from it (`run_report`,
    `preview`, `explain`, `status`, `summary`, `forecast_text`);
  - `laws` — properties that span several functions.
- `tests/` — ordinary Rust tests of the library.
- `app/` — the `nami` program: argument parsing, files, network, clock,
  subprocesses, and the floating-point arithmetic the library does not
  hold (sample means and spreads, window means, the materiality
  comparison).
