# spotcast

The logic of a keyboard-driven desktop launcher, verified with Verus:
reading queries (commands, bookmarks, calculations, unit conversions),
ranking search-index results, deciding which files and folders are indexed,
choosing the IDE that opens a project folder, and keeping bookmarks.

- `src/` — the verified library. `text` holds the string primitives
  (Unicode white space, trimming, words, ASCII case); `command`, `encode`,
  `convert`, `search`, `query`, `rank`, `index`, `project`, `bookmarks` and
  `window` (what the shortcut, tray and window events do) hold the
  launcher's rules, each with its contract, and the laws that
  relate them (`law_*` proof functions).
- `tests/` — tests on concrete values.
- `app/` — the Tauri application around the library: windows, tray,
  SQLite index, file watcher, process launching and the bookmarks file.
