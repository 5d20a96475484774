# pheno_plugins

A plugin toolkit with its behaviour stated as contracts and proved by Verus:
plugin manifests and their validation, capability names, a registry of VCS
and storage adapters, container-runtime utilities (images, containers,
compose files, runtime command arguments and outputs, container launches)
and plugin loaders.

## Layout

- `src/` — the verified library.
  - `text.rs`: the text operations the rest builds on (splitting, lines,
    trimming, decimal rendering), each with its specification.
  - `capabilities.rs`, `manifest.rs`, `registry.rs`, `traits.rs`,
    `error.rs`: the plugin core.
  - `vessel/`: images, containers, compose files (dependency ordering),
    runtime command arguments and outputs, the launch state machine.
  - `loader/`: the native and WebAssembly plugin loaders.
  - `external.rs`: declarations of the outside types the library carries.
- `tests/` — tests of the library on concrete values.
- `app/` — the host side that Verus does not check: serde and
  `std::error::Error` front ends for the library's types, the async plugin
  and runtime interfaces, a lock-guarded registry host, and the processes
  that drive `docker` and `podman`.
