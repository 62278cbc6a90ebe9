# option_pricing

A Monte Carlo pricer for options on a single asset.

- `src/` is the verified library: the simulated price paths (one per simulation,
  each step grown from the path's previous price) and their seeding (`asset_price_sim`), the batching of measurements
  written to InfluxDB (`batching`), the database settings and measurement tags
  (`influxdb`), log file names (`logger`) and the option kinds (`options`).
- `app/` is the program around it: the floating-point price model, payoffs and
  pricing statistics, the random number generators, the InfluxDB client, the
  clock, files and the async runtime.
- `tests/` exercises the library on concrete values.
