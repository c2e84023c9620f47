//! Verified core of a GPU user-interface toolkit's web backend: default
//! colors, integer geometry, the glyph texture atlas, font resolution, line
//! assembly for shaped text, glyph bitmap finishing and the per-frame draw
//! plan of the renderer.

pub mod atlas;
pub mod colors;
pub mod dispatcher;
pub mod font_table;
pub mod geometry;
pub mod glyph_raster;
pub mod line_layout;
pub mod log_target;
pub mod render_plan;
pub mod util;
pub mod shell;
