# pattypan

A terminal emulator. `src/` is the verified library:

- `term/cells.rs` — the grid of cells: one screen of rows after the scrollback,
  with scrolling, line and character insertion and deletion, and a text dump.
- `term/input.rs` — parsed input (characters and control functions) and the
  operation each one asks for.
- `term/sgr.rs` — the grammar of Select Graphic Rendition parameters and how
  style changes apply.
- `term.rs` — the terminal: cursor, style, main and alternate screen; `accepts`
  says whether an input can be taken, `rx` takes it and returns the reply bytes.
- `keyboard.rs` — key presses to bytes, with shift, alt and ctrl.
- `colors.rs`, `text.rs` — the palette and decimal rendering.

`app/` runs a shell on a pseudoterminal in a window, parses its output, feeds it
to the terminal and draws the screen.
