# host_plugins

The decision logic of a set of host plugins for WebAssembly workloads, written in Rust and proved
with Verus: stores of blobs, keys and rows, messaging services, mail, schedules, a task queue,
a watcher of Kubernetes resources, a gateway to language models and sessions of a coding tool.

- `src/` is the library. Every function states its result in its contract, and public proof
  functions at the end of a module state what holds across several of its functions.
- `app/` holds the edges: connections, requests, processes and timers. It performs what the
  library decides and hands back what came of it. The runtime of the components, the Feishu kit,
  the Kubernetes client and the store of the task queue are reached through traits.
- `tests/` runs the library on concrete values.

What the library takes from outside crates stands behind small functions whose doc comments name
the outside function and say what is assumed of it.

`takecell` stands in `Cargo.toml` to hold its version for `teloxide`, which uses it: later versions
ask for a newer compiler.
