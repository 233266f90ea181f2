# coolviz

A live-Earth visualizer: GFS wind, satellite catalogs, earthquakes, Himawari
cloud imagery, and a Tokyo scene built from PLATEAU 3D Tiles, OSM roads and
JMA rain nowcasts.

- `src/` is the verified library (Verus). It holds the feed bookkeeping
  (which GFS cycle to fetch, satellite catalog fallback order, cache
  metadata), the parsers (GLB/b3dm containers and glTF accessors, JSON
  timestamps, rain-tile palettes, terrain elevation pixels, CLI values), and
  the integer side of the geometry builders (mosaic blits, mask fills, index
  buffers). Calls into `serde_json`, `image`, `flate2` and `chrono` go through
  small trusted wrappers whose contracts name what those crates return.
- `app/` is the executable around it: HTTP, files, threads, floating-point
  geometry (orbits, map projections, traffic) and the status output.
- `tests/` exercises the library with the real outside crates linked.

Outside crates: `flate2`, `image`, `serde_json` and `chrono` are called from
the library; `half`, `gribberish`, `sgp4`, `ureq`, `glam`, `anyhow`,
`fastrand`, `rayon` and `bytemuck` from `app/`. The GPU/GUI front end
(`eframe`, `egui_wgpu`, `wgpu`, `pollster`) is not part of this crate, which
keeps its dependency tree small and free of system graphics libraries;
`app/` prints the HUD status lines instead of drawing them. Logging
(`log`, `env_logger`) was replaced by plain `eprintln!`/`println!`.
