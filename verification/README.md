# manga_sync

The logic of a service that keeps a local copy of manga from an online reader.

- `src/` is the verified library: reading a manga's page (title, cover, plot,
  descriptive fields, volumes and chapters), merging it with the saved state,
  the page-list address and page scan of a chapter, the archive plan of a
  chapter, the state-file path, and the choice of what to sync. `src/laws.rs`
  holds the properties proved across functions.
- `app/` is the program around it: HTTP, files, JSON state, the zip archives
  and the six-hourly sync loop.
- `tests/` runs the library on concrete pages and values.
