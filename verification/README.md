# backend

Backend logic of a multi-user web slicer, verified with Verus.

- `src/` is the verified library: model-format detection and content
  checks, G-code statistics, thumbnails and preview buffers, display-mesh
  encoding and STL reading, scene analysis and scene-document reading,
  account rules, secrets at rest, the file store's paths, printer-host
  (Moonraker) protocol pieces and status merging, per-account event
  routing, preset chains, slicing checks and job settlement.
- `tests/` holds the tests of the library.
- `app/` is the process around it: configuration, disk and process I/O,
  HTTP and WebSocket traffic with print hosts, and the floating-point
  parts (preview head state, STL numbers, scene geometry, statistics
  numbers).
