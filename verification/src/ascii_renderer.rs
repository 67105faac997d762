//! The bridge to the outside ASCII-art renderer: a decoded image goes in,
//! one block of colorized ASCII text comes out. The image is opaque here, so
//! the text is only known to be whatever the renderer produced.

use vstd::prelude::*;

use crate::error::{ImageError, ImgiiError, InvalidParameterError, OtherError};
use crate::options::{Charset, RenderConfig};

verus! {

/// Relies on `image::DynamicImage`: the outside decoded-image type, carried
/// through opaquely.
#[verifier::external_type_specification]
#[verifier::external_body]
pub struct ExDynamicImage(image::DynamicImage);

/// Relies on `rascii_art_img::charsets::from_enum`: the renderer's built-in
/// character set tables, every one of which holds at least one character.
#[verifier::external_body]
fn charset_slice(charset: Charset) -> (r: &'static [&'static str])
    ensures
        r@.len() > 0,
{
    rascii_art_img::charsets::from_enum(
        match charset {
            Charset::Block => rascii_art_img::charsets::Charset::Block,
            Charset::Chinese => rascii_art_img::charsets::Charset::Chinese,
            Charset::Standard => rascii_art_img::charsets::Charset::Default,
            Charset::Emoji => rascii_art_img::charsets::Charset::Emoji,
            Charset::Russian => rascii_art_img::charsets::Charset::Russian,
            Charset::Slight => rascii_art_img::charsets::Charset::Slight,
            Charset::Minimal => rascii_art_img::charsets::Charset::Minimal,
        },
    )
}

/// Relies on `rascii_art_img::render_image_to`: writes the colorized ASCII
/// art of the image into a fresh string per the given settings. The result
/// depends on the opaque image, so nothing is assumed of the text. The
/// renderer does not return on some settings, which stay excluded here: it
/// demands a width or a height, and it indexes the charset — and any
/// character override — by remainder of its length, so both must be
/// non-empty.
#[verifier::external_body]
fn render_image_ascii(img: &image::DynamicImage, cfg: &RenderConfig, charset: &[&str]) -> (r:
    Option<String>)
    requires
        cfg.width is Some || cfg.height is Some,
        cfg.char_override matches Some(v) ==> v@.len() > 0,
        charset@.len() > 0,
{
    let options = rascii_art_img::RenderOptions {
        width: cfg.width,
        height: cfg.height,
        colored: cfg.colored,
        escape_each_colored_char: cfg.escape_each_colored_char,
        invert: cfg.invert,
        charset,
        char_override: cfg.char_override.clone() };
    let mut text = String::new();
    if rascii_art_img::render_image_to(img, &mut text, &options).is_ok() {
        Some(text)
    } else {
        None
    }
}

/// Whether an error is the one owed when neither output width nor height is
/// set.
pub open spec fn is_size_missing_error(e: ImgiiError) -> bool {
    &&& e matches ImgiiError::Image(ie)
    &&& ie matches ImageError::InvalidParameter(p)
    &&& p.parameter_name@ == seq![
        'w',
        'i',
        'd',
        't',
        'h',
        ' ',
        'o',
        'r',
        ' ',
        'h',
        'e',
        'i',
        'g',
        'h',
        't',
    ]
}

/// Whether an error is the one owed when a character override is set but
/// holds no characters.
pub open spec fn is_empty_override_error(e: ImgiiError) -> bool {
    &&& e matches ImgiiError::Image(ie)
    &&& ie matches ImageError::InvalidParameter(p)
    &&& p.parameter_name@ == seq![
        'c',
        'h',
        'a',
        'r',
        ' ',
        'o',
        'v',
        'e',
        'r',
        'r',
        'i',
        'd',
        'e',
    ]
}

/// Whether the settings carry a character override with no characters in
/// it: the renderer cannot draw from an empty override.
pub open spec fn has_empty_override(cfg: RenderConfig) -> bool {
    cfg.char_override matches Some(v) && v@.len() == 0
}

/// Turns one decoded image into its colorized ASCII text through the
/// outside renderer. A configuration with neither width nor height, or with
/// an empty character override, is rejected up front; any failure of the
/// renderer itself comes back as an outside error.
pub fn read_png_as_ascii(image: &image::DynamicImage, rascii_options: &RenderConfig) -> (r: Result<
    String,
    ImgiiError,
>)
    ensures
        rascii_options.width is None && rascii_options.height is None ==> r is Err
            && is_size_missing_error(r->Err_0),
        (rascii_options.width is Some || rascii_options.height is Some) && has_empty_override(
            *rascii_options,
        ) ==> r is Err && is_empty_override_error(r->Err_0),
        r is Err ==> (is_size_missing_error(r->Err_0) || is_empty_override_error(r->Err_0)
            || r->Err_0 matches ImgiiError::Other(_)),
        r is Ok ==> (rascii_options.width is Some || rascii_options.height is Some)
            && !has_empty_override(*rascii_options),
{
    if rascii_options.width.is_none() && rascii_options.height.is_none() {
        let name = String::from_str("width or height");
        proof {
            reveal_strlit("width or height");
            assert(name@ =~= seq![
                'w',
                'i',
                'd',
                't',
                'h',
                ' ',
                'o',
                'r',
                ' ',
                'h',
                'e',
                'i',
                'g',
                'h',
                't',
            ]);
        }
        return Err(ImgiiError::Image(ImageError::InvalidParameter(InvalidParameterError::new(
            name,
        ))));
    }
    let override_is_empty = match &rascii_options.char_override {
        Some(v) => v.len() == 0,
        None => false,
    };
    if override_is_empty {
        let name = String::from_str("char override");
        proof {
            reveal_strlit("char override");
            assert(name@ =~= seq![
                'c',
                'h',
                'a',
                'r',
                ' ',
                'o',
                'v',
                'e',
                'r',
                'r',
                'i',
                'd',
                'e',
            ]);
        }
        return Err(ImgiiError::Image(ImageError::InvalidParameter(InvalidParameterError::new(
            name,
        ))));
    }
    let charset = charset_slice(rascii_options.charset);
    match render_image_ascii(image, rascii_options, charset) {
        Some(text) => Ok(text),
        None => Err(
            ImgiiError::Other(OtherError::new(String::from_str("the ASCII renderer failed"))),
        ),
    }
}

} // verus!
