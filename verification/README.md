# repose_scene

Turns laid-out subtitle layers into a scene graph for the Repose framework.

A pipeline hands over intermediate layers: runs of text with their effects,
vector drawings and bitmaps. The library in `src/` turns them into one flat list
of scene nodes, decides what a backend does before and after a frame, and proves
what holds of every scene: clips, transforms and graphics layers nest, layers
are numbered in turn, nothing is lost without being counted.

- `src/layers.rs`, `src/effects.rs`, `src/region.rs`: what comes in.
- `src/single.rs`, `src/formula.rs`, `src/geometry.rs`: numbers and measures.
  Floating-point arithmetic is written down as formulas and evaluated by the
  host; decisions on floating-point numbers are made on their bit patterns.
- `src/run.rs`, `src/text.rs`: a run of text and its effects.
- `src/mesh.rs`, `src/scene.rs`, `src/assembly.rs`: drawings, nodes and the
  scene as a whole.
- `src/backend.rs`, `src/fonts.rs`, `src/frame.rs`, `src/pipeline.rs`: the
  backend, font family names, finished frames, and the pipeline interface.
- `src/run_laws.rs`, `src/merge_laws.rs`, `src/shear_laws.rs`, `src/text_laws.rs`,
  `src/assembly_laws.rs`, `src/joining_laws.rs`: the laws.

`app/` evaluates the formulas, tessellates paths with lyon and renders offscreen
through WGPU. `tests/` runs the library on concrete layers.
