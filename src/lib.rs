//! A falling-glyph terminal rain: droplets fall down columns at their own
//! pace, each column redraws only when it changed, and a field of columns
//! turns all of that into positioned, coloured terminal output.

pub mod glyphs;
pub mod random;
pub mod droplet;
pub mod paint;
pub mod line;
pub mod matrix;
