# lc-bench

A benchmark harness for channels over blob and metadata stores. Nodes serve requests over RPC; a
coordinator among them runs an experiment and reports its datapoints.

- `src/` is the verified core: configuration and command line, names of resources, payloads,
  pacing, throughput sweeps, the state of a node and its requests, the steps of every experiment,
  and the reports.
- `tests/` runs the core on concrete values.
- `app/` is the program around it: RPC, files, stores, cloud clients, clocks and floating-point
  arithmetic. It hands the core plain values and does what the core decides.

Floating-point numbers pass through the core as `binary64::Real`, a bit pattern with an order.
Stores, channels and elements are numbers there; the program keeps what they stand for.
