# gpui_tea

A runtime in the style of The Elm Architecture for GPUI, with its core
verified by Verus.

A model turns messages into new state and *commands*; a command is a tree of
immediate messages, effects (keyed or not) and cancellations. The runtime
queues messages under a backpressure policy and hands them to the model in
order, runs effects and applies only the completions of the latest keyed
effect, and reconciles declared subscriptions by key. Nested models scope
their keys under a child path so siblings never collide.

## Layout

- `src/` — the verified library.
  - `command.rs`: commands, batching (flattening), mapping, scoping, the
    steps a command performs.
  - `key.rs`, `scope.rs`: keys, child paths, contexts and child scopes; the
    injectivity of scoped identifiers.
  - `queue.rs`, `policy.rs`: admission control under the queue policies.
  - `runtime.rs`: the message queue, dispatch, draining in order, snapshots.
  - `keyed_tasks.rs`, `keyed_map.rs`: latest-wins tracking of keyed effects.
  - `program.rs`: the decisions of a mounted program for each command step
    and each effect completion.
  - `subscription.rs`, `registry.rs`: subscription sets with unique keys and
    their reconciliation.
  - `composite.rs`, `attribute.rs`: reading a struct declaration's
    attributes with `syn`, the attribute rules of `#[derive(Composite)]` and
    the helper names it generates.
  - `expansion.rs`: the helpers `#[derive(Composite)]` writes, as source
    text: per child the bindings, init, update, subscription and view
    pieces.
  - `observability.rs`, `config.rs`, `error.rs`, `text.rs`: telemetry
    records and metric updates, configuration, errors, text rendering.
- `tests/` — tests of the library.
- `app/` — the GPUI host: programs, dispatchers, effects on GPUI's
  executors, subscription resources, observers, `tracing` and `metrics`
  output.
