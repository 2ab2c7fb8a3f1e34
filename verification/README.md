# pdf_tui

A terminal PDF viewer's core as a Verus library: every function in `src/`
is verified against its `requires` / `ensures` contract, and the laws the
viewer relies on are stated and proved as public proof functions.

## Layout

- `src/` — the verified library (`pdf_tui`):
  - `layout`, `geometry`, `navigation`, `viewer` — scroll and grid layouts,
    slicing pages on a shared grid, navigation and view positions;
  - `job_queue`, `page_store`, `render_store`, `overlay`, `raster_plan` —
    scheduling of rasterizing and rendering jobs, what is cached where;
  - `pdf`, `render_cache`, `render_key`, `cache` — cache keys, the on-disk
    render cache format (read and write), cache eviction bookkeeping;
  - `bookmarks`, `bookmark_tree`, `metadata`, `editing`, `pdfinfo`, `tsv`,
    `search`, `search_list` — the text formats of the PDF tools and the
    edit drafts, and search;
  - `config`, `dispatch`, `session`, `progress` — settings, key maps, what
    an action does, refresh and session state.
  Calls into outside crates (sha2, hex, toml, zstd) and a few std functions
  stand behind small trusted wrappers whose contracts say what the crates
  document.
- `tests/` — tests of the library, run with the outside crates linked.
- `app/` — a line-oriented front end: argument handling, running the PDF
  tools, reading and writing files, and the floating-point page geometry.
