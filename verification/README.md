# psez

A modeless text editor for the terminal, with a verified core.

- `src/` is the editor itself, written in Verus: the document, the cursor, undo,
  selection and clipboard, search and replace, prompts, encodings and line
  endings, the layout of the screen and what is drawn on it. An `Editor` is
  specified through its view, an `EditorView`; what a command does is an
  `EditorView` method of the same name.
- `src/laws_*.rs` state and prove what holds of the commands taken together:
  undo, cut and paste, saving and opening, searching and replacing, and where
  the terminal writes.
- `src/outside.rs` holds everything that is taken from outside crates and from
  std without proof.
- `app/` reads keys and files and draws, as the library asks for.
- `tests/` runs the library on examples.
