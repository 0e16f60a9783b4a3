# bevy_foliage_tool

A foliage painting tool for Bevy: per-layer density maps are painted with
brushes, cut into chunks, and turned into foliage nodes where the painted
density beats a noise texture.

- `src/` is the verified core (Verus): density grids and their chunk cuts,
  the per-layer density maps, brush edits and the eye dropper, chunk layout
  and activity, and the integer side of node placement (which grid points grow
  foliage, and the ground gradient there). Its laws are proof functions next to
  the code they speak of.
- `app/` is the Bevy plugin: ECS systems, asset and material registration,
  scene and manifest files (RON), density persistence (bincode), and the
  floating-point parts (brush falloff, node transforms, normals, render
  distance).
- `tests/` exercise the core on concrete values.
