# mor_rust_code_gui_manager

A desktop manager for Rust projects: it draws a project's modules as a
graph and a heatmap, browses folders as nodes with peeks into files, keeps
a quest log read from `MOR_PLAN.md`, and registers new module files in
their parent module. A safety switch keeps it read-only (Inspect mode)
until the user allows writes (Automate mode).

## Layout

- `src/` is the library, verified with Verus. Every public function states
  what it returns in its `ensures`, over a model of paths, text and the
  project's data; laws that relate several functions stand as public
  proof functions whose names begin with `law_`.
  - `paths`, `text`: a model of Unix paths (components, parent, file name,
    stem, extension, join) and of the string operations the rest uses.
  - `register_module`, `module_injection`, `rust_items`: naming a module
    after its file, choosing the file that declares it, validating the
    name, and planning the edit; Rust sources are read with `syn`.
  - `quest_log`: the plan file's chapters and tasks.
  - `heatmap`, `peek`: per-file measures and the peek cards.
  - `file_manager`, `navigation`: which entries a folder shows, in which
    order, the breadcrumbs, and the back/forward history.
  - `watcher`, `find_replace`, `graph`, `wiki_lookup`, `app_state`: the
    decisions behind the watcher, the block replace, the graph views,
    documentation links and the safety mode.
- `app/` is the Dioxus application around the library: windows, events,
  file-system and process access, the file watcher thread, and the screen
  geometry, which is floating point.
- `tests/` runs the library on concrete values.
