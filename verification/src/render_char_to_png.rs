//! The glyph cell renderer: turns one colored character token into a small
//! RGBA cell bitmap, or produces the shared blank cell for whitespace.

use vstd::prelude::*;

use crate::error::{FontError, ImgiiError};
use crate::image_data::{ImageData, ImageView};
use crate::options::ImgiiOptions;

verus! {

/// One colored character to draw: a fill color and the character itself.
#[derive(Debug, Clone, Copy, PartialEq, Eq, Structural)]
pub struct ColoredStr {
    pub red: u8,
    pub green: u8,
    pub blue: u8,
    pub text: char,
}

/// The Unicode white-space code points, as `char::is_whitespace` lists them.
pub open spec fn spec_is_space(c: char) -> bool {
    let u = c as int;
    (0x9 <= u && u <= 0xd) || u == 0x20 || u == 0x85 || u == 0xa0 || u == 0x1680 || (0x2000 <= u
        && u <= 0x200a) || u == 0x2028 || u == 0x2029 || u == 0x202f || u == 0x205f || u == 0x3000
}

/// Whether the character counts as white space.
pub fn is_space(c: char) -> (r: bool)
    ensures
        r == spec_is_space(c),
{
    let u = c as u32;
    (0x9 <= u && u <= 0xd) || u == 0x20 || u == 0x85 || u == 0xa0 || u == 0x1680 || (0x2000 <= u
        && u <= 0x200a) || u == 0x2028 || u == 0x2029 || u == 0x202f || u == 0x205f || u == 0x3000
}

impl ColoredStr {
    /// A token whose character is white space renders as the blank cell.
    pub open spec fn spec_is_blank(self) -> bool {
        spec_is_space(self.text)
    }

    /// Whether this token renders as the blank cell.
    pub fn is_blank(&self) -> (r: bool)
        ensures
            r == self.spec_is_blank(),
    {
        is_space(self.text)
    }
}

/// Cell dimensions derived from a font size: width is half the height.
pub fn calculate_char_dimensions(font_size: u32) -> (r: (u32, u32))
    ensures
        r.0 == font_size / 2,
        r.1 == font_size,
{
    (font_size / 2, font_size)
}

/// The RGBA bytes every pixel of a blank cell holds: opaque black when a
/// background is asked for, fully transparent otherwise.
pub open spec fn blank_pixel(background: bool) -> Seq<u8> {
    if background {
        seq![0u8, 0u8, 0u8, 255u8]
    } else {
        seq![0u8, 0u8, 0u8, 0u8]
    }
}

/// A `w x h` bitmap whose every pixel is the blank pixel.
pub open spec fn is_blank_image(v: ImageView, w: nat, h: nat, background: bool) -> bool {
    &&& v.wf()
    &&& v.width == w
    &&& v.height == h
    &&& forall|x: int, y: int|
        0 <= x < w && 0 <= y < h ==> v.pixel(x, y) == blank_pixel(background)
}

/// Creates the blank cell used in place of a white-space character: fully
/// transparent, or opaque black when the background option is set.
pub fn str_to_transparent_png(imgii_options: &ImgiiOptions) -> (r: ImageData)
    requires
        imgii_options.wf(),
    ensures
        is_blank_image(
            r@,
            (imgii_options.font_size / 2) as nat,
            imgii_options.font_size as nat,
            imgii_options.background,
        ),
{
    let (char_width, char_height) = calculate_char_dimensions(imgii_options.font_size());
    let rgba: [u8; 4] = if imgii_options.background() {
        [0, 0, 0, 255]
    } else {
        [0, 0, 0, 0]
    };
    let r = ImageData::filled(char_width, char_height, rgba);
    proof {
        assert(rgba@ =~= blank_pixel(imgii_options.background));
    }
    r
}

/// Relies on `ab_glyph::FontRef`: the outside handle for parsed font data.
#[verifier::external_type_specification]
#[verifier::external_body]
pub struct ExFontRef<'a>(ab_glyph::FontRef<'a>);

/// Whether a byte sequence parses as a usable font: the outcome of
/// `ab_glyph::FontRef::try_from_slice`, which depends on the bytes alone.
pub uninterp spec fn parses_as_font(bytes: Seq<u8>) -> bool;

/// Relies on `ab_glyph::FontRef::try_from_slice`: yields a glyph handle
/// exactly when the bytes parse as a font; nothing further is assumed of
/// the handle.
#[verifier::external_body]
fn font_ref_from_bytes<'a>(bytes: &'a [u8]) -> (r: Option<ab_glyph::FontRef<'a>>)
    ensures
        r is Some <==> parses_as_font(bytes@),
{
    match ab_glyph::FontRef::try_from_slice(bytes) {
        Ok(font) => Some(font),
        Err(_) => None,
    }
}

/// Sets up the read-only glyph font for a conversion run: a handle exactly
/// when the bytes parse as a font, and otherwise a font error carrying
/// `font_name`.
pub fn load_font<'a>(font_bytes: &'a [u8], font_name: &str) -> (r: Result<
    ab_glyph::FontRef<'a>,
    ImgiiError,
>)
    ensures
        r is Ok <==> parses_as_font(font_bytes@),
        r is Err ==> (r->Err_0 matches ImgiiError::Font(e) && e.font_name@ == font_name@),
{
    match font_ref_from_bytes(font_bytes) {
        Some(font) => Ok(font),
        None => Err(ImgiiError::Font(FontError::new(String::from_str(font_name)))),
    }
}

/// Relies on `String::push`: appends the one character to the string.
#[verifier::external_body]
fn push_char(s: &mut String, c: char)
    ensures
        final(s)@ == old(s)@.push(c),
{
    s.push(c);
}

/// Relies on `imageproc::drawing::draw_text_mut`: draws `text` at the origin
/// of a `width x height` RGBA canvas over the given bytes, in the given color
/// at the given pixel scale, using glyph outlines from `font`. Drawing only
/// writes pixels inside the canvas, so the buffer keeps its length.
#[verifier::external_body]
fn draw_text_on(
    buffer: Vec<u8>,
    width: u32,
    height: u32,
    red: u8,
    green: u8,
    blue: u8,
    scale: u32,
    font: &ab_glyph::FontRef<'_>,
    text: &str,
) -> (r: Vec<u8>)
    requires
        buffer@.len() == width * height * 4,
    ensures
        r@.len() == buffer@.len(),
{
    let mut canvas: image::ImageBuffer<image::Rgba<u8>, Vec<u8>> =
        image::ImageBuffer::from_raw(width, height, buffer).unwrap();
    let px = ab_glyph::PxScale { x: scale as _, y: scale as _ };
    let color = image::Rgba([red, green, blue, u8::MAX]);
    imageproc::drawing::draw_text_mut(&mut canvas, color, 0, 0, px, font, text);
    canvas.into_raw()
}

/// Renders one token into a cell bitmap: a cell-sized canvas (black when the
/// background option is set, transparent otherwise) with the token's
/// character drawn at the origin in the token's color, scaled to the font
/// size.
pub fn str_to_png(data: &ColoredStr, font: &ab_glyph::FontRef<'_>, imgii_options: &ImgiiOptions)
    -> (r: ImageData)
    requires
        imgii_options.wf(),
    ensures
        r@.wf(),
        r@.width == imgii_options.font_size / 2,
        r@.height == imgii_options.font_size,
{
    let (char_width, char_height) = calculate_char_dimensions(imgii_options.font_size());
    let base = str_to_transparent_png(imgii_options);
    let buffer = base.into_buffer();
    let mut text = String::new();
    push_char(&mut text, data.text);
    let drawn = draw_text_on(
        buffer,
        char_width,
        char_height,
        data.red,
        data.green,
        data.blue,
        imgii_options.font_size(),
        font,
        text.as_str(),
    );
    ImageData::new(char_width, char_height, drawn).unwrap()
}

} // verus!
