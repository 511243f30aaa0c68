# ponchi

A local-only, hand-drawn-style diagram generator: a scene written as JSON is
resolved (manual coordinates, or a layered auto-layout), rendered to SVG with
sketchy shapes, and rasterized to PNG; a loopback live viewer shows the same
PNG to a human while an agent posts new scenes.

## Layout

- `src/` is the verified library (Verus):
  - `scene.rs`: the scene schema and `Scene::validate`, whose contract names
    the first problem of a scene exactly; color checks and the role palette.
  - `input.rs`: the geometry-optional input schema and its resolution
    (manual mode, and the checks and assembly around an auto-layout run).
  - `layout.rs`: the canonical order the layout engine is fed in, label
    metrics, and the assembly of laid-out edges.
  - `render.rs`: XML escaping, color fallback, the drawing plan (what is
    drawn, in which order) and the document prelude.
  - `backend.rs`: reading and writing hex color bytes.
  - `raster.rs`: SVG to PNG through `usvg`, `resvg` and `tiny-skia`. The
    library carries no font file; the program reads the bundled Yomogi font
    from `assets/fonts/` and hands its bytes to `RasterContext::with_font_data`.
  - `report.rs`: the wording of validation errors.
  - `server.rs`: the live viewer's routing, request checks, reply bodies and
    versioned publishing.
  - `cli.rs`: the command line and the starting scene.
  - `ieee.rs`, `strings.rs`: floats held as bit patterns, string helpers.
- `app/` is the program around it: JSON, the `dagre` layout run, the float
  geometry of the drawing (`roughr`), files, sockets and the entropy source.
- `tests/` exercise the library.

Scene geometry is IEEE-754 data; the library only classifies it (finite,
positive, in range) through the bit patterns, and all arithmetic on it stays
in `app/`.
