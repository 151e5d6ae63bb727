# klaw-gui

The settings pages of the Klaw desktop workbench, as a library whose behaviour is
stated in `requires` / `ensures` contracts and proved with Verus.

## Layout

- `src/` — the verified library. Each settings page has a module (`profile`,
  `provider`, `mcp`, `memory`, `session`, `skills`, `tool`, `observability`,
  `system`, `setting`, `terminal`), next to shared pieces: `text` and `numbers`
  (trimming, lines, decimal numbers), `keyed` (a map with sorted, distinct string
  keys), `markdown` (workspace documents and skill front matter), `json_tokens`
  (JSON highlighting), `terminal_palette` and `panels`. Calls into `serde_json`,
  `time` and `egui_term` go through a few small trusted wrappers, each documented
  where it stands. The laws of the library (what an unchanged edit saves, what a
  removal undoes, sortedness and round trips) are public proof functions named
  `lemma_*`.
- `tests/` — tests of the library on concrete values.
- `app/` — the unverified edge: file-system and process access, floating-point
  formatting, and conversions to the terminal widget's types.

Paths are handled by the rules `std::path` follows on Unix targets.
