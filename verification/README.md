# chelotype

The logic of a terminal emulator front end, written in Verus: every
function in `src/` carries a contract that Verus proves.

- `src/` — the verified library: the grid model (`terminal_grid`), text and
  selections (`cell_text`, `selection`), the shell's input line
  (`input_rows`, `input_layout`, `input_motion`, `input_selection`), keys
  (`input`, `keyboard`), the pointer state machine (`interaction`, `mouse`),
  rendering to Pango markup and style runs (`render`, `bridge`), command
  blocks, settings (`config`), launch targets and container commands
  (`containers`, `host`, `backend`), snapshot conversion
  (`ghostty_snapshot`) and scripted headless runs (`diagnostics`).
  Public proof functions named `law_*` state properties that hold across
  calls.
- `tests/` — tests run against the compiled library.
- `app/` — the program around the library: environment, files, processes,
  the pseudo-terminal, and the floating-point settings and scrolling.
