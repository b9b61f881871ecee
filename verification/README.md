# knightty

The verified core of the Knightty terminal and of its `knightty-demo`
animation player, written in Verus: each function states its behaviour in
`requires` / `ensures`, and Verus proves the code against it.

## Layout

- `src/proto/` — the image protocols a terminal application speaks:
  iTerm2 inline images (`OSC 1337`) and the Kitty graphics protocol, with
  the APC stream router that separates them from ordinary output.
- `src/term/` — the terminal itself. `terminal::Terminal` feeds PTY output
  through the control sequences handled ahead of the emulator
  (`compat`), keeps an unfinished sequence for the next chunk, and keeps the
  selection, image placements, window title and damage around the emulator;
  `emulator` wraps `alacritty_terminal`, which interprets the rest. Mouse and
  focus reports, bracketed paste, selection geometry, snapshots and
  sanitising of titles and hyperlinks have modules of their own.
- `src/ui/` — the decisions of the GUI frontend that do not depend on a
  window system: configuration validation and the documented `[graphics]` options,
  keyboard and pointer routing, search, inline image decoding and sizing,
  the image store, the feeding of PTY output with its iTerm2 and Kitty
  images into the terminal (`output`, `kitty_router`), and the graphics
  diagnostics probe.
- `src/shell.rs` — how the shell is launched in the PTY.
- `src/demo/` — the demo's asset format, integer canvas, frame encoder,
  command line and run statistics.
- `tests/` — tests of the library.
- `app/` — the `knightty-demo` program: terminal I/O, timing and the
  floating-point animation, around the library.

Outside crates are called from `src/` through small trusted wrappers
(`#[verifier::external_body]`) whose contracts state what the crate's
documentation and source show: `base64`, `url`, `image`,
`unicode-segmentation` and `alacritty_terminal`.
