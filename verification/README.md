# carapace

A host-agnostic, skinnable UI engine: a skin (a `skin.toml` manifest, a Lua entry script and
its assets) replaces an application's whole surface, and can be hot-swapped at runtime without
losing the application's state.

The crate is split in two.

- `src/` is the verified library (Verus). It holds the engine's decisions and data rules:
  the textual scene summary, the z-order every hit query follows and the hit classification a
  host asks for, list expansion and node provenance, the asset index and its `..` sandbox, the
  manifest validation, the host-action allowlist and the names a skin's Lua environment
  binds, the order a frame handles queued commands in, the transactional skin swap, shader
  composition, the GPU-readback row layout, the RGBA/BGRA swap, WGSL group relocation, the
  paper view's uniform blocks (read through naga's front end) and their packing, the proto
  demo window's input decisions and blit, and the rendering spike's parity gate. Each
  public function states its result in `requires`/`ensures`; the laws that relate several
  functions are public proof functions.
- `app/` is ordinary Rust around it: floating-point geometry and point-in-polygon tests, layout
  reflow, the Lua sandbox and primitive vocabulary (mlua), file-system reads, the vello/wgpu
  renderers, the headless embedding entry points, the winit proto demo and the backend spike.
  Every decision it needs comes from the library.

`tests/` exercises the library on concrete values.
