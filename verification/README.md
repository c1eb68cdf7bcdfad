# unvoga

The core of a voxel engine, written in Verus: directions and face sets,
occlusion shapes and occluders, block sections and chunks (blocks, hidden
faces, light, block data, update handles, heightmaps), the update queue,
and the storage of regions (sector allocation, headers, record framing and
compression, section codecs).

Layout:

- `src/` — the verified library. Every function carries a contract; the
  `law_*` proof functions state properties that relate several operations
  (what a read gives back after a write, what one call undoes of another,
  what a codec gives back of what it wrote).
- `tests/` — tests on concrete values.
- `app/` — the command-line program around the library: region files on
  disk, and terrain noise, which works on floating point.
