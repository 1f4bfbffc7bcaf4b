# termgl

A CPU 3D rasterization pipeline that renders into the terminal.

- `src/` is the verified library (Verus): the integer side of the pipeline.
  - `mesh`: `VertexIndices` and `MeshTopology`, the index buffer of a mesh with
    the sizes of the attribute arrays it indexes. Every index stays valid and
    the buffer holds whole triangles (a type invariant). It also generates the
    index buffers of UV spheres and flat rings.
  - `obj`: the text of Wavefront OBJ and MTL files (sections, records and
    one-based `v/vt/vn` faces), given the text of each number.
  - `printer`: `Printer`, which turns a frame into the bytes that draw it,
    either with a grayscale ASCII ramp (given each cell's ramp index) or with
    24-bit colored upper half blocks, two pixels per terminal cell (given each
    pixel's channel values and the IEEE-754 bits by which colors compare).
  - `texture`: `RgbPixels`, an image decoded by the `image` crate from the
    bytes of a file, and its pixels.
  - `orbit`: random start days of orbits (drawn with `rand`) and day counts.
  - `raster`: the scan rectangle of a triangle clamped to the screen, and the
    pixel size of a terminal.
  - `text`: decimal formatting.
- `app/` is ordinary Rust around it: everything that computes with `f32`
  (geometry, cameras, shading, texture sampling, the depth-buffered
  rasterizer, the brightness of ASCII cells) and the terminal and file I/O,
  built on `glam` and `crossterm`.
- `tests/` exercises the library on concrete values.
