# carnet

A terminal note editor over ordinary Git repositories, as a Verus library
(`src/`) and a thin program around it (`app/`).

- `src/editor`: the text buffer, editing commands, undo history, search, syntax highlighting.
- `src/workspace`: note paths, loading and saving notes, the file tree.
- `src/catalog.rs`, `src/cli.rs`, `src/git.rs`, `src/note_output.rs`: the repository catalog, the command line, Git decisions, `--path`/`--print`.
- `src/app`: the home screen, the workspace session (saves, commits, loads, conflicts), key mapping, overlays.
- `src/runtime`: terminal lifecycle, the background job queue, catalog changes made on drafts.
- `src/ui`: what each screen shows, as values (layout, dialogs, status line, editor pane, home list).
- `app/`: `main`, disk and Git I/O, the catalog file, and drawing with ratatui/crossterm.
