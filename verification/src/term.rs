//! GUI-independent terminal state: the values exchanged with frontends,
//! xterm mouse and focus reporting, bracketed paste, render damage and the
//! private-mode sequences that are handled ahead of the emulator.

pub mod mouse;
pub mod placements;
pub mod grid;
pub mod compat;
pub mod sanitize;
pub mod selection;
pub mod viewport;
pub mod emulator;
pub mod terminal;
