# spectra

Verified core of a demoscene engine's shader-module system and scene registry.

- `src/module.rs` — module keys and their file paths, the store of loaded modules, the
  depth-first resolution of a module's dependencies (with cycle and missing-module detection),
  the folding of a module with its dependencies, and the collection of uniforms, blocks,
  functions and structs of a module.
- `src/graph.rs` — the import graph model: walks, reachability, cycles, dependency order, the
  depth-first visit, and the lemmas that tie them together.
- `src/syntax.rs` — the SPSL/GLSL syntax tree as the library reads it, with its models.
- `src/duplicate.rs` — copies of syntax values that keep their models.
- `src/stage.rs` — pipeline-stage helpers: vertex inputs and their qualifiers, geometry-shader
  primitives and layouts, filtering of stage functions, and the text of the vertex shader's call
  and output assignments.
- `src/pipeline.rs` — the checks of each stage: the vertex outputs and the `spsl_Position` rule,
  stage outputs and inputs, return types, the geometry and fragment functions.
- `src/fold.rs` — the vertex, geometry and fragment shaders' texts and the folding of a pipeline
  module (`map_vertex`, optional `concat_map_prim`, `map_fragment`) into them, with the test of
  what the folding needs.
- `src/printable.rs` — executable tests of what the GLSL writer needs to print a value.
- `src/writer.rs`, `src/glsl_types.rs` — the GLSL writer of the `glsl` crate, behind wrappers whose
  results are named, and the conversion of the syntax tree to `glsl`'s.
- `src/text.rs` — string equality and decimal notation.
- `src/scene.rs` — typed identifiers, the model cache and the scene registry, the `Get` trait.
- `src/cube.rs` — the triangle indices of the unit cube.
- `app/` — the edges: reading module files and building a pipeline from them (with a parser
  handed in), timing and logging of loads, reloading through
  `warmy`, loading models from disk into a scene, the cube on the GPU with `luminance`, and
  transforms with `cgmath`.

Not here: the SPSL parser that turns a module's source into its syntax tree. `app/` takes the
parser as an argument; the library works on the syntax tree.
