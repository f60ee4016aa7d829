# krill

The verified core of the Krill game engine, written in Verus.

- `src/` is the library, checked by Verus:
  - `utils`: heterogeneous lists (`hlist`), `CompactList`, a slot list addressed by
    generation-checked handles, and `borrow_each`, which borrows every element of a slice;
  - `ecs`: `SparseVec`, per-type `ComponentStore`s, the `World` of entities with generations,
    and views that match entities against component bindings;
  - `events`: chains of event handlers that may pass an event on;
  - `engine`: listeners of the event bus, resources, the process builder, surfaces;
  - `assets`: asset paths and how relative paths resolve;
  - `render`: the data model of geometry, materials, shaders and pipeline definitions, the
    parsing of vertex format names, the batching of models into one vertex and one index
    list, and the size bookkeeping of resizable device buffers;
  - `meteors`: index generation for triangle strips and glyph outlines, glyph table slots, and
    the player's input state;
  - `prototype`: the first design of the world and of the event queue.
- `app/` holds what Verus cannot check: dispatch by run-time type (`std::any::Any`),
  asynchronous asset loading (its decisions are made by the verified
  `render::pipeline::plan_module_reads`), reading pipeline definitions from TOML, resource
  lists built on `frunk`'s heterogeneous lists, and the running process.
- `tests/` exercise the library.
