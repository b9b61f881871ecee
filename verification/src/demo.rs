//! The terminal animation demo: palette canvas, the `KFA2` asset format,
//! the half-block frame encoder, command-line handling and frame pacing.

pub mod asset;
pub mod canvas;
pub mod encoder;
pub mod terminal;
pub mod player;
pub mod cli;
pub mod playback;
