# wiac_core

The verified core of a CAM tool that turns vector drawings (DXF, SVG) into
G-code for milling, laser, plasma and drag-knife machines. The functions
in `src/` carry `requires` / `ensures` contracts proved by Verus, except
the cancellation token's methods: the flag they share across threads has
no value Verus can see. The floating-point geometry lives outside the
library.

Layout:

- `src/` — the verified library:
  - `linuxcnc`, `hpgl` — post-processors over a program model, with the
    cache-replay and modal-suppression laws;
  - `preview` — comment stripping, op markers, modal G words, move kinds,
    word splitting and the line ↔ segment index (with its round-trip law);
  - `project`, `cam`, `setup`, `selection`, `warnings`, `pipeline`,
    `op_loop` — projects, per-op setup resolution with machine clamps,
    source selection, planning diagnostics, structured errors, and the
    per-op loop's decisions (cancellation, streaming events, tool changes,
    cache replay);
  - `svg_font`, `text`, `hatch`, `input`, `layers` — SVG font sniffing and
    header scan, reading a TrueType font's name table and classifying its
    names, DXF pair streams, importer
    choice, the per-layer import summary;
  - `scan`, `strs`, `geometry`, `errors` — shared parsing and string
    helpers, integer-nanometre geometry, error values.
- `tests/` — tests run against the compiled library.
- `app/` — unverified glue: the floating-point halves of the preview
  interpreter, the SVG font loader and the HATCH reader, TrueType glyph
  outlines, the per-op loop that performs the library's decisions, and
  serde-enabled copies of the library's types.
