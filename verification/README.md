# qnet_core

A quantum network entanglement distribution simulator, with its network model,
`.qnet` file handling, routing and timeline logic verified by Verus.

## Layout

- `src/` — the verified library.
  - `binary64` — IEEE-754 binary64 values held as bit patterns, compared
    exactly as the hardware compares them (NaN unordered, both zeros equal).
  - `network`, `request`, `topology` — the internal graph, the request and
    snapshot records, and the pre-built topologies.
  - `routing` — depth-first enumeration of candidate routes (proved to yield
    exactly the simple routes between the ends) and selection by score.
  - `simulation`, `scheduler`, `metrics` — the event timeline, the per-step
    hop bookkeeping and the telemetry counters.
  - `qnet`, `json`, `validation`, `diff`, `report`, `io` — the `.qnet` format,
    its validation (with the graph connectivity count from `petgraph`), file
    diffs and their textual renderings, and acceptance of a loaded file.
  - `snapshot` — comparison of topology snapshots.
  - `distributed`, `protocols`, `memory`, `text` — the coordination edges of
    distributed protocols, protocol bookkeeping, qubit register occupancy and
    decimal rendering.
- `app/` — the engine around the library: `serde` copies of the records, file
  I/O, the floating-point physics, the time-stepped scheduler, Monte Carlo
  ensembles and the QKD, teleportation and distributed computing protocols.
- `tests/` — tests of the library on concrete inputs.
