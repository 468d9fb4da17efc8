# ok_bloomer

A voxel world split into a verified library (`src/`) and a thin program around it (`app/`).

- `src/vector_i32.rs`: integer vectors with componentwise addition and lexicographic order.
- `src/random.rs`: the 32-bit hash used for world generation (proved to be a permutation).
- `src/chunk.rs`: 128 x 128 x 64 chunks stored as one `u64` bit column per `(x, y)`; voxel
  lookup and construction of a chunk from per-column surface levels.
- `src/meshing.rs`: meshes of chunk columns. Vertex coordinates live on the half-voxel
  lattice (a stored coordinate `c` is the position `c / 2`), which represents every vertex
  the game emits exactly.
- `src/image.rs`: an RGBA8 image buffer, PNG decoding and encoding through the `png` crate.
- `src/input.rs`: the game's input state machine (held keys, cursor lock, resolution).

`app/` holds what the library does not: floating-point terrain noise, camera and matrices,
the window, OpenGL and file output.
