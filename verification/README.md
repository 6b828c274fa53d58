# inference_engine

A small neural-network inference engine whose core is verified with Verus.

## Layout

- `src/` — the verified library.
  - `arena.rs`: one block of 32-bit words split into weight, activation and
    IO sections; views, zeroing, and weight loading. Each word holds the bit
    pattern of an `f32` element.
  - `graph.rs`: operations, nodes, the graph, its builder, statistics and the
    fusion pass (a linear node followed by the activation it feeds becomes
    one fused node).
  - `engine.rs`: the engine (graph plus arena) and the scheduler that turns
    the graph into kernel calls on arena ranges, stopping at the first node
    that cannot run.
  - `stream.rs`, `sink.rs`, `runtime.rs`: the request queue, workspace
    slots, the bounded result buffer, and the steps of serving a request.
  - `gguf.rs`, `onnx.rs`: model loaders.
- `app/` — the command-line program: argument parsing, logging, file
  mapping, the `Stream`/`Sink` adapters and the async request loop, and the
  floating-point kernels (plain and SIMD) that carry out the scheduled calls.
- `tests/` — tests of the library.
