# cargo-slide

A code-driven presentation tool: slides are written in Typst, compiled to SVG pages, and presented in a native
window with transitions, build steps, a laser pointer, a whiteboard pen and an interactive chart inspector.

## Layout

- `src/` is the verified library (Verus). It holds the logic the tool runs on, each function with a contract:
  - pixels and rasterised drawing: `pixel`, `raster`, `hud`, `font`, `ink`, `marks`, `overlay`;
  - slide surfaces, transitions and build-step reveals: `animation`, `effects`, `letterbox`;
  - text and links: `chars`, `text`, `svg` (SVG entity sanitising), `hrefs`, `links`, `colors`;
  - presenting: `navigation` (slides and build steps, with its laws), `player` (keys, clicks, dock),
    `inspector` (chart inspector state), `charts`, `chart_href`, `dsl` (the chart pipeline language);
  - tooling: `compile` (declared slides, overflow detection, chart sources), `watch_filter` (which file
    changes reload), `cli`, `commands`, `display` (screen size from `xrandr` or the framebuffer).
- `tests/` exercises the library on concrete values.
- `app/` is the program around it: the command line, the Typst process, SVG rasterising, the window loop,
  file watching, chart data loading and the floating-point drawing. It makes no decision the library can make.
