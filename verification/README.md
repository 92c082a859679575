# specula

The core of a GPU-drawn terminal emulator, verified with Verus.

- `src/` is the verified library: the cell grid and its scrollback (`grid`), cells and
  colours (`cell`), the terminal state driven by control sequences (`terminal`), key and
  mouse encodings (`input`, `mouse`), selections (`selection`), the configuration's
  colours, font names and weights (`config`), and the decisions behind drawing and
  window events (`render`, `preedit`, `atlas`, `events`). Each public function states
  its result over a mathematical model of the data; laws that span several calls are
  proof functions named `law_*`.
- `app/` is the program around it: the window and GPU drawing (winit, wgpu, fontdue,
  fontdb), the shell's pseudo terminal (portable-pty), the escape sequence parser (vte),
  the configuration file (serde, toml), the clipboard and the log.
- `tests/` runs the library on concrete values.
