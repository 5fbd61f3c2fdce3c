# litenote

The verified core of LiteNote, a small viewer and editor for plain text,
Markdown, Word (`.docx`) and SubRip (`.srt`) files.

- `src/` — the library, verified with Verus:
  - `text` — trimming, line splitting, substring search, decimal numbers;
  - `kind` — the kind of a file from its extension;
  - `block` — rendered blocks and their plain text ("Copy All");
  - `markdown` — Markdown blocks from pulldown-cmark's events;
  - `json`, `docx` — Word documents through docx-rs's JSON form;
  - `srt` — subtitle entries;
  - `note` — the editor state and how actions and finished file operations change it;
  - `theme` — the two colour themes;
  - `laws` — properties across operations.
- `tests/` — tests of the library.
- `app/` — the eframe window, dialogs, file system, clipboard, and docx-rs's
  reading of a Word file's bytes.
