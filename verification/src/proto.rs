//! Protocol extension parsing: Knightty cell spans, iTerm2 inline images and
//! the Kitty graphics protocol.

pub mod cell_span;
pub mod iterm2;
pub mod kitty;
pub mod router;
