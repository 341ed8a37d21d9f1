# Zero

Zero is a basic rendering engine on top of `wgpu`.

The crate under `src/` is the verified core, checked with Verus:

- `utils::sparse_set` — `SparseVec` (a map from `usize` keys to values backed by
  a vector of slots) and `SparseSet` (values packed densely and addressed by the
  keys handed out on insertion);
- `utils::const_vec` — `ConstVec`, a vector bounded by a const capacity;
- `render::storage` — `RenderStorage`, which keeps the GPU resources of a
  renderer under `ResourceId`s, and the named bind group layouts;
- `render::system`, `render::renderer`, `mesh`, `line` — the named render
  phases with their queued commands and run order, frame views, surface
  resizing, and the draw call a mesh command ends with;
- the resource handles of `gbuffer`, `material`, `shadow_map`, `skybox` and
  `egui`, which store a resource's parts in the storage and replace them;
- `shapes`, `egui`, `camera`, `texture`, `texture_buffer` — index buffers of
  circles, the layout and growth of egui's mesh buffers, scissor clamping and
  the choice of egui draw commands, movement keys, texture extents and image
  formats, and readback buffer sizes.

`app/` holds what talks to the GPU or works with floating point: creating the
device and surface, building buffers, textures and pipelines, recording render
passes and presenting frames, and the camera, light and mesh math.
