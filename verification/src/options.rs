//! The options shared by a conversion run: the cell font size, the background
//! flag, and the settings handed to the outside ASCII-art renderer.

use vstd::prelude::*;

verus! {

/// The built-in character sets that the ASCII-art renderer offers.
#[derive(Debug, Clone, Copy, PartialEq, Eq, Structural)]
pub enum Charset {
    Block,
    Chinese,
    Standard,
    Emoji,
    Russian,
    Slight,
    Minimal,
}

/// The settings handed through to the outside ASCII-art renderer, kept as
/// plain values.
#[derive(Debug)]
pub struct RenderConfig {
    /// Output width in characters, if fixed.
    pub width: Option<u32>,
    /// Output height in characters, if fixed.
    pub height: Option<u32>,
    /// Whether the renderer colors its output. The pipeline always sets this.
    pub colored: bool,
    /// Whether every colored character gets its own escape. The pipeline
    /// always sets this: the token parser expects one escape per character.
    pub escape_each_colored_char: bool,
    /// Whether the charset weights are inverted.
    pub invert: bool,
    /// The character set to draw from.
    pub charset: Charset,
    /// Characters repeated over the whole image instead of the charset.
    pub char_override: Option<Vec<String>>,
}

impl Clone for RenderConfig {
    /// Cloning keeps every setting.
    fn clone(&self) -> (r: Self)
        ensures
            r.width == self.width,
            r.height == self.height,
            r.colored == self.colored,
            r.escape_each_colored_char == self.escape_each_colored_char,
            r.invert == self.invert,
            r.charset == self.charset,
            r.char_override.deep_view() == self.char_override.deep_view(),
    {
        let char_override: Option<Vec<String>> = match &self.char_override {
            Some(v) => {
                let w = v.clone();
                proof {
                    assert forall|i: int| 0 <= i < v@.len() implies v@[i] == w@[i] by {}
                    assert(w.deep_view() =~= v.deep_view());
                }
                Some(w)
            },
            None => None,
        };
        RenderConfig {
            width: self.width,
            height: self.height,
            colored: self.colored,
            escape_each_colored_char: self.escape_each_colored_char,
            invert: self.invert,
            charset: self.charset,
            char_override,
        }
    }
}

/// Options for rendering parsed tokens as an image.
#[derive(Debug)]
pub struct ImgiiOptions {
    /// The font size (cell height) of the output image, in pixels.
    pub font_size: u32,
    /// Whether cells get an opaque black fill instead of transparency.
    pub background: bool,
    /// The settings for the outside ASCII-art renderer.
    pub rascii_options: RenderConfig,
}

impl ImgiiOptions {
    /// One cell's byte buffer fits in memory; every rendering entry point
    /// asks for this.
    pub open spec fn wf(&self) -> bool {
        (self.font_size / 2) * self.font_size * 4 <= usize::MAX
    }

    /// Gets the font size used to generate the image.
    pub fn font_size(&self) -> (r: u32)
        ensures
            r == self.font_size,
    {
        self.font_size
    }

    /// Gets the background flag. If true, cells get an opaque black fill.
    pub fn background(&self) -> (r: bool)
        ensures
            r == self.background,
    {
        self.background
    }

    /// Gets the settings for the outside ASCII-art renderer.
    pub fn rascii_options(&self) -> (r: &RenderConfig)
        ensures
            r == &self.rascii_options,
    {
        &self.rascii_options
    }
}

/// Builder for [`ImgiiOptions`]: the intended way to create options.
#[derive(Debug)]
pub struct ImgiiOptionsBuilder {
    /// The font size of the output image.
    pub font_size: u32,
    /// Whether to set a background behind the image.
    pub background: bool,
    /// The settings for the outside ASCII-art renderer.
    pub rascii_options: RenderConfig,
}

impl Default for ImgiiOptionsBuilder {
    /// The defaults: font size 16, no background, colored per-character
    /// escapes, and the renderer's standard charset.
    fn default() -> (r: Self)
        ensures
            r.font_size == 16,
            r.background == false,
            r.rascii_options.width is None,
            r.rascii_options.height is None,
            r.rascii_options.colored == true,
            r.rascii_options.escape_each_colored_char == true,
            r.rascii_options.invert == false,
            r.rascii_options.charset == Charset::Standard,
            r.rascii_options.char_override is None,
    {
        Self {
            font_size: 16,
            background: false,
            rascii_options: RenderConfig {
                width: None,
                height: None,
                colored: true,
                escape_each_colored_char: true,
                invert: false,
                charset: Charset::Standard,
                char_override: None,
            },
        }
    }
}

impl ImgiiOptionsBuilder {
    /// Creates a new builder with defaults; behaves as `default()` does.
    pub fn new() -> (r: Self)
        ensures
            r.font_size == 16,
            r.background == false,
            r.rascii_options.width is None,
            r.rascii_options.height is None,
            r.rascii_options.colored == true,
            r.rascii_options.escape_each_colored_char == true,
            r.rascii_options.invert == false,
            r.rascii_options.charset == Charset::Standard,
            r.rascii_options.char_override is None,
    {
        Self::default()
    }

    /// Sets the font size of the output options.
    pub fn font_size(self, font_size: u32) -> (r: Self)
        ensures
            r == (Self { font_size, ..self }),
    {
        Self { font_size, ..self }
    }

    /// Sets the background flag of the output options.
    pub fn background(self, background: bool) -> (r: Self)
        ensures
            r == (Self { background, ..self }),
    {
        Self { background, ..self }
    }

    /// Builds an [`ImgiiOptions`] from the chosen values.
    pub fn build(&self) -> (r: ImgiiOptions)
        ensures
            r.font_size == self.font_size,
            r.background == self.background,
            r.rascii_options.width == self.rascii_options.width,
            r.rascii_options.height == self.rascii_options.height,
            r.rascii_options.colored == self.rascii_options.colored,
            r.rascii_options.escape_each_colored_char
                == self.rascii_options.escape_each_colored_char,
            r.rascii_options.invert == self.rascii_options.invert,
            r.rascii_options.charset == self.rascii_options.charset,
            r.rascii_options.char_override.deep_view()
                == self.rascii_options.char_override.deep_view(),
    {
        ImgiiOptions {
            font_size: self.font_size,
            background: self.background,
            rascii_options: self.rascii_options.clone(),
        }
    }

    /// Sets the width of the rendered image, in characters.
    pub fn width(self, width: u32) -> (r: Self)
        ensures
            r.rascii_options.width == Some(width),
            r.rascii_options.height == self.rascii_options.height,
            r.rascii_options.colored == self.rascii_options.colored,
            r.rascii_options.escape_each_colored_char
                == self.rascii_options.escape_each_colored_char,
            r.rascii_options.invert == self.rascii_options.invert,
            r.rascii_options.charset == self.rascii_options.charset,
            r.rascii_options.char_override == self.rascii_options.char_override,
            r.font_size == self.font_size,
            r.background == self.background,
    {
        let mut rascii_options = self.rascii_options;
        rascii_options.width = Some(width);
        Self { rascii_options, ..self }
    }

    /// Sets the height of the rendered image, in characters.
    pub fn height(self, height: u32) -> (r: Self)
        ensures
            r.rascii_options.height == Some(height),
            r.rascii_options.width == self.rascii_options.width,
            r.rascii_options.colored == self.rascii_options.colored,
            r.rascii_options.escape_each_colored_char
                == self.rascii_options.escape_each_colored_char,
            r.rascii_options.invert == self.rascii_options.invert,
            r.rascii_options.charset == self.rascii_options.charset,
            r.rascii_options.char_override == self.rascii_options.char_override,
            r.font_size == self.font_size,
            r.background == self.background,
    {
        let mut rascii_options = self.rascii_options;
        rascii_options.height = Some(height);
        Self { rascii_options, ..self }
    }

    /// Sets whether the rendered image charset is inverted.
    pub fn invert(self, invert: bool) -> (r: Self)
        ensures
            r.rascii_options.invert == invert,
            r.rascii_options.width == self.rascii_options.width,
            r.rascii_options.height == self.rascii_options.height,
            r.rascii_options.colored == self.rascii_options.colored,
            r.rascii_options.escape_each_colored_char
                == self.rascii_options.escape_each_colored_char,
            r.rascii_options.charset == self.rascii_options.charset,
            r.rascii_options.char_override == self.rascii_options.char_override,
            r.font_size == self.font_size,
            r.background == self.background,
    {
        let mut rascii_options = self.rascii_options;
        rascii_options.invert = invert;
        Self { rascii_options, ..self }
    }

    /// Sets the charset used for the rendered image.
    pub fn charset(self, charset: Charset) -> (r: Self)
        ensures
            r.rascii_options.charset == charset,
            r.rascii_options.width == self.rascii_options.width,
            r.rascii_options.height == self.rascii_options.height,
            r.rascii_options.colored == self.rascii_options.colored,
            r.rascii_options.escape_each_colored_char
                == self.rascii_options.escape_each_colored_char,
            r.rascii_options.invert == self.rascii_options.invert,
            r.rascii_options.char_override == self.rascii_options.char_override,
            r.font_size == self.font_size,
            r.background == self.background,
    {
        let mut rascii_options = self.rascii_options;
        rascii_options.charset = charset;
        Self { rascii_options, ..self }
    }

    /// Sets the characters repeated over the whole rendered image, ignoring
    /// the charset.
    pub fn char_override(self, char_override: Vec<String>) -> (r: Self)
        ensures
            r.rascii_options.char_override == Some(char_override),
            r.rascii_options.width == self.rascii_options.width,
            r.rascii_options.height == self.rascii_options.height,
            r.rascii_options.colored == self.rascii_options.colored,
            r.rascii_options.escape_each_colored_char
                == self.rascii_options.escape_each_colored_char,
            r.rascii_options.invert == self.rascii_options.invert,
            r.rascii_options.charset == self.rascii_options.charset,
            r.font_size == self.font_size,
            r.background == self.background,
    {
        let mut rascii_options = self.rascii_options;
        rascii_options.char_override = Some(char_override);
        Self { rascii_options, ..self }
    }
}

} // verus!
