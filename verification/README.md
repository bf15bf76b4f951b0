# kama_core

Core building blocks of a real-time audio engine, written in Verus: the
behaviour of each public function is stated as a `requires`/`ensures`
contract and proved.

## Layout

- `src/` — the verified library.
  - `buffer/` — ring, pipe, fan-out, fan-in and delay buffers, with their
    statistics counters.
  - `queues/` — the command queue over a `crossbeam-channel` channel with its
    overflow policies, the multi-producer single-consumer queue, signal
    sources, micro-control permits, and the observer that counts each
    component's operations and violations.
  - `graph/` — processing-graph topology: connections, the processing order
    (Kahn's algorithm), signal routing, naming of nodes, and per-node buffers.
  - `error.rs`, `time.rs`, `io.rs`, `mixer.rs`, `control.rs`, `signal.rs`,
    `simd.rs`, `high_precision.rs` — error types with codes and messages,
    musical timing, the engine loop's decisions, mute and solo, control
    configuration, signal types, and vector-width and precision choices.
  - Public `law_*` proof functions state properties that relate several
    operations (first-in first-out order, exact delays, each consumer reading
    each block once, and so on).
- `tests/` — tests of the library.
- `app/` — ordinary Rust around the library: floating-point processing
  (audio nodes, mixing, interpolation), processor feature detection, the
  system clock, the async audio engine, signal dispatch by type, timing of
  observed operations, and error types with display text.
