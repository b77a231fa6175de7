# ecdysis

A mesh of byte-level state machines. Each machine feeds on a firehose of raw
bytes (or, when the firehose is down, on its peers' excretions on a shared
bus), grows a RAM state graph wherever its current WebAssembly module reports
an unmapped byte, decays that graph, and periodically recompiles the
surviving structure into a new module that is hot-swapped in.

Layout:

- `src/` — the verified library (Verus):
  - `graph.rs`: the state graph, traversal, growth, purging, and the laws
    relating them;
  - `kernel.rs`: the parasitic-shortcut learner, bus handling, growth on
    irritation, the maintenance schedule and atrophy detection;
  - `firehose.rs`: host validation and the feeding-strategy decisions;
  - `wasm.rs`: the module host and its result encoding;
  - `host_store.rs`: the runtime store kept together with the handles
    obtained from it, and a model of what the host hands it;
  - `incubator.rs`: fossil naming and classification of compiler runs;
  - `arena.rs`, `live.rs`: shared counters and the lock-free graph handle.
- `app/` — the program around it: tasks, channels, sockets, the compiler
  pool, the rebirth pipeline, and the floating-point edge scores.
- `tests/` — tests of the library.
