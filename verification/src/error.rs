//! The error taxonomy for the conversion pipeline: one sum type per layer,
//! with an explicit kind for every failure the pipeline can report.

use vstd::prelude::*;

verus! {

/// Top-level error for a conversion run.
#[derive(Debug)]
pub enum ImgiiError {
    /// The font bytes could not be used.
    Font(FontError),
    /// The colorized ASCII text could not be parsed.
    Parse(ParseError),
    /// An unspecified internal failure.
    Internal(InternalError),
    /// The grid of cell bitmaps could not be turned into an image.
    Image(ImageError),
    /// A failure reported by a collaborator outside this crate.
    Other(OtherError),
}

/// The font bytes did not parse as a usable font.
#[derive(Debug, Clone)]
pub struct FontError {
    pub font_name: String,
}

/// A failure while parsing one line of colorized ASCII text.
#[derive(Debug, Clone)]
pub enum ParseError {
    /// A color escape whose shape does not follow the expected grammar.
    Pattern(PatternError),
    /// A color channel whose text is not an 8-bit decimal number.
    ParseValue(ParseIntError),
}

/// A color escape started but was cut off before the color and character
/// were complete.
#[derive(Debug, Clone)]
pub struct PatternError {
    /// Character position of the escape that was cut off, within its line.
    pub column: usize,
}

/// Why a channel's text failed to parse as an 8-bit number.
#[derive(Debug, Clone, Copy, PartialEq, Eq, Structural)]
pub enum IntParseKind {
    /// The channel text was empty.
    Empty,
    /// The channel text held a character that is not a decimal digit.
    InvalidDigit,
    /// The channel value does not fit in 8 bits.
    Overflow,
}

/// A color channel substring that failed to parse as an 8-bit number.
#[derive(Debug, Clone)]
pub struct ParseIntError {
    /// The name of the channel that failed to parse.
    pub value_name: String,
    /// The substring that parsing was attempted on.
    pub the_str: String,
    /// How the parse failed.
    pub kind: IntParseKind,
}

/// Some other, unknown internal error.
#[derive(Debug, Clone)]
pub struct InternalError;

/// A failure while assembling cell bitmaps into an image.
#[derive(Debug, Clone)]
pub enum ImageError {
    InvalidParameter(InvalidParameterError),
    ParseImage(ParseImageError),
}

/// An argument that the image builder cannot work with.
#[derive(Debug, Clone)]
pub struct InvalidParameterError {
    pub parameter_name: String,
}

/// A row of the parsed image whose width differs from the first row's.
#[derive(Debug, Clone)]
pub struct ParseImageError {
    /// The row of the image where the mismatch was found.
    pub image_row_number: usize,
    /// The width that the first row established.
    pub expected_width: usize,
    /// The width that the offending row produced.
    pub got_width: usize,
}

/// A failure reported by an outside collaborator, kept as a message.
#[derive(Debug, Clone)]
pub struct OtherError {
    pub message: String,
}

impl FontError {
    /// Creates a new [`FontError`] naming the font that failed to load.
    pub fn new(font_name: String) -> (r: Self)
        ensures
            r.font_name@ == font_name@,
    {
        Self { font_name }
    }
}

impl ParseIntError {
    /// Creates a new [`ParseIntError`].
    pub fn new(value_name: String, the_str: String, kind: IntParseKind) -> (r: Self)
        ensures
            r.value_name@ == value_name@,
            r.the_str@ == the_str@,
            r.kind == kind,
    {
        Self { value_name, the_str, kind }
    }
}

impl OtherError {
    /// Creates a new [`OtherError`] from a message describing the outside
    /// failure.
    pub fn new(message: String) -> (r: Self)
        ensures
            r.message@ == message@,
    {
        Self { message }
    }
}

impl InvalidParameterError {
    /// Creates a new [`InvalidParameterError`].
    pub fn new(parameter_name: String) -> (r: Self)
        ensures
            r.parameter_name@ == parameter_name@,
    {
        Self { parameter_name }
    }
}

impl ParseImageError {
    /// Creates a new [`ParseImageError`] carrying the offending row and both
    /// widths.
    pub fn new(image_row_number: usize, expected_width: usize, got_width: usize) -> (r: Self)
        ensures
            r.image_row_number == image_row_number,
            r.expected_width == expected_width,
            r.got_width == got_width,
    {
        Self { image_row_number, expected_width, got_width }
    }
}

impl ImgiiError {
    /// A short description of the error kind, for reporting.
    pub fn describe(&self) -> (r: String)
        ensures
            r@.len() > 0,
    {
        let text: &str = match self {
            ImgiiError::Font(_) => "could not read font",
            ImgiiError::Parse(ParseError::Pattern(_)) => "malformed color escape",
            ImgiiError::Parse(ParseError::ParseValue(_)) => "could not parse color channel",
            ImgiiError::Internal(_) => "an internal error has occurred",
            ImgiiError::Image(ImageError::InvalidParameter(_)) => "invalid parameter found",
            ImgiiError::Image(ImageError::ParseImage(_)) => "row width differs from the first row",
            ImgiiError::Other(_) => "an error from another crate occurred",
        };
        proof {
            reveal_strlit("could not read font");
            reveal_strlit("malformed color escape");
            reveal_strlit("could not parse color channel");
            reveal_strlit("an internal error has occurred");
            reveal_strlit("invalid parameter found");
            reveal_strlit("row width differs from the first row");
            reveal_strlit("an error from another crate occurred");
        }
        String::from_str(text)
    }
}

} // verus!
