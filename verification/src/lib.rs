//! Renders colorized ASCII art text back into bitmaps: each color-escaped
//! character is parsed into a token, every token becomes a small glyph cell
//! (rendered once and shared when the token repeats), and the grid of cells
//! is stitched into one final image per frame.

pub mod error;
pub mod image_data;
pub mod options;
pub mod render_char_to_png;
pub mod token_parser;
pub mod generic_converter;
pub mod image_writer;
pub mod ascii_renderer;
pub mod png_converter;
pub mod gif_converter;
pub mod image_types;
