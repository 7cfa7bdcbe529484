# hyperquark

Compiler infrastructure for turning Scratch projects into WebAssembly modules,
written in Verus: the executable code carries contracts and Verus proves them.

## Layout

- `src/registry.rs` — insertion-ordered registries (by name, by set, by item
  type): indices are stable, keys are never registered twice, overriding keeps
  an item's index.
- `src/rc.rs` — reference-counted handles, modelled by the value they point to.
- `src/ir.rs` — the parts of the intermediate representation that the variable
  passes read.
- `src/optimisation/` — the variable passes: the backwards walk that records
  liveness events, the greedy merge of local variables whose live ranges do
  not overlap (proved sound), renaming and variable sets; and, of the SSA
  pass, the rewriting of each variable access, the start of loops, the
  joining of the locals that branches and loop bodies make, and the writing
  back of locals before a step yields; and loop unrolling.
- `src/wasm/` — the module's building blocks: flags, memory layout, value and
  heap types, the initial values of lists, and the registries of strings,
  tables, globals, types (with
  recursive groups and type-level descriptions) and static functions (whose
  bodies are proved well formed).
- `src/sb3.rs` — plain values of the project file format.
- `src/index_map_specs.rs` — the contracts assumed of `indexmap`.
- `app/` — the host side: JavaScript-facing flag values, serde forms of the
  project file values, and the writing of the library's plans into
  `wasm-encoder` sections.
- `tests/` — tests on concrete values.
