# taled_editor

The verified core of a mobile tile-map editor: the editing rules applied to
an open map, the bookkeeping of the Android and browser diagnostics logs, and
the inline styles and drawing scripts that the map canvas is rendered from.
Every public function states its behaviour in `requires`/`ensures` contracts
that Verus proves.

- `src/` — the library (Verus):
  - `document`, `edit`, `edit_ops`, `laws`: the map model, its edits, the
    editor actions that report them in the status line, and properties that
    relate several edits.
  - `tiles`, `tileset_sheet`, `styles`, `visuals`, `previews`, `draw`,
    `render_cache`, `bounds`: tile lookup, CSS of cells, sprites and previews,
    the tile-drawing scripts and the render caches.
  - `web_diag`, `android_diag`, `data_url`, `shell`, `text`: diagnostics logs,
    data URLs, header text and decimal rendering.
- `tests/` — tests run against the compiled library.
- `app/` — the platform shell (file and DOM I/O, JNI, floating-point canvas
  geometry) around the library.
