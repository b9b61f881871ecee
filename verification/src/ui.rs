//! Decisions of the GUI frontend that do not depend on the window system:
//! command-line actions, PTY sizing, window titles, mouse and hyperlink
//! routing, and the graphics diagnostics probe.

pub mod config;
pub mod diagnostics;
pub mod input;
pub mod kitty_graphics;
pub mod pointer;
pub mod image_store;
pub mod inline_image;
pub mod routing;
pub mod kitty_router;
pub mod config_spec;
pub mod output;
