# calc_core

The core of a real-time notepad calculator with a terminal editor, written
in Verus: the functions in `src/` carry contracts that Verus proves.

## Layout

- `src/lexer.rs`, `src/parser.rs`, `src/ast.rs`: a document's text to tokens
  to one parsed `Line` per text line, specified by spec functions over the
  characters (`lex_document`, `parse_document_spec`).
- `src/isolation.rs`: lexing is local to a line, so a line's parse depends
  on its own text and line number alone.
- `src/units.rs`: unit names, categories and which conversions exist.
- `src/text.rs`, `src/words.rs`, `src/motion.rs`: string helpers, word
  classes and motions, EasyMotion search.
- `src/editor.rs`: a buffer of lines with cursor, selection, yank buffer
  and undo/redo history; every edit is specified over `BufferV`.
- `src/app.rs`: the whole editor (tabs, simple and vim key maps, prompts,
  command line, mouse) as a state machine over `AppV`; requests for the
  host (clipboard, file writes, evaluation) are collected in an outbox.
- `src/view.rs`, `src/clipboard.rs`: what the screen shows; OSC 52 and
  base64 for the clipboard.
- `src/laws.rs`: properties across operations (undo/redo, save then load,
  selection handling, vertical motion, tabs).
- `app/`: the terminal program around the library: number evaluation and
  formatting, the crossterm event loop and the ratatui drawing.
- `tests/`: tests of the library on concrete inputs.
