# tensor_ash

Planning core of a Vulkan compute library for batched matrix multiplication
and the model operations around it, verified with Verus.

The library decides; it does not talk to a device. It resolves tensor shapes,
routes every shape to a kernel of the registry, lays out push constants and
grids, finds where barriers are owed, splits deep products over scratch
planes, schedules Stream-K tails, plans measurements and keeps their winners,
and refuses what cannot be dispatched. Each decision has a contract that says
what comes out for every input, and each refusal has its words.

## Layout

- `src/` is the verified library.
  - `matmul/`: operations and shape resolution.
  - `pipeline/`: the kernel registry, routing, selection, the tuning store.
  - `executor/`: submission plans, hazards, graphs, splits, Stream-K,
    prepared replays, tuning, transfers, and the elementwise operations.
  - `half.rs`, `push.rs`, `text.rs`: half-precision storage, shader blocks,
    and text.
- `app/` is a benchmark program over `ash` that carries the plans out.
- `tests/` runs the library.

Floating-point scale factors pass through as bit patterns (`Scalar`); buffers
as their handle, address and size (`Buffer`).

## Assumptions

Two outside functions are specified rather than proved: `String::push`, and
`bytemuck::cast_slice`, whose byte order is the machine's.
