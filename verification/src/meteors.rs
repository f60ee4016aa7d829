//! Helpers of the Meteors game: geometry, glyphs and player input.
pub mod graphics;
pub mod input;
pub mod text;
