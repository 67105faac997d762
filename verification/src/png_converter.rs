//! The still-image path: one decoded image becomes colorized ASCII text and
//! then a grid of rendered cells, ready for compositing.

use vstd::prelude::*;

use crate::ascii_renderer::read_png_as_ascii;
use crate::error::ImgiiError;
use crate::generic_converter::{
    lemma_grid_matches_implies_wf, render_ascii_generic, spec_parse_block, BlockParse,
    Imgii2dImage,
};
use crate::options::ImgiiOptions;

verus! {

/// Turns one decoded image into a grid of rendered character cells: the
/// outside renderer produces the ASCII text, and the grid renderer parses
/// and rasterizes it. A returned grid is always well-formed, with every
/// cell sized by the configured font.
pub fn parse_ascii_to_2d_png_vec(
    image: &image::DynamicImage,
    imgii_options: &ImgiiOptions,
    font: &ab_glyph::FontRef<'_>,
) -> (r: Result<Imgii2dImage, ImgiiError>)
    requires
        imgii_options.wf(),
    ensures
        r is Ok ==> r->Ok_0.wf(),
        imgii_options.rascii_options.width is None && imgii_options.rascii_options.height is None
            ==> r is Err,
{
    let ascii_text = match read_png_as_ascii(image, imgii_options.rascii_options()) {
        Ok(text) => text,
        Err(e) => {
            return Err(e);
        },
    };
    let grid = match render_ascii_generic(imgii_options, ascii_text.as_str(), font) {
        Ok(g) => g,
        Err(e) => {
            return Err(e);
        },
    };
    proof {
        match spec_parse_block(ascii_text@) {
            BlockParse::Grid { rows, width } => {
                lemma_grid_matches_implies_wf(
                    grid,
                    rows,
                    width,
                    imgii_options.font_size,
                    imgii_options.background,
                );
            },
            _ => {},
        }
    }
    Ok(grid)
}

} // verus!
