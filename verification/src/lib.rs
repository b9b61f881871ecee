//! Terminal protocol parsing, terminal-state helpers and the demo renderer core.

pub mod demo;
pub mod proto;
pub mod shell;
pub mod term;
pub mod text;
pub mod ui;
