//! The frame orchestrator: applies the per-frame pipeline across every
//! frame of an animation, best-effort — one failing frame is dropped, and
//! every surviving frame keeps the metadata it arrived with.

use vstd::prelude::*;

use crate::ascii_renderer::read_png_as_ascii;
use crate::error::ImgiiError;
use crate::generic_converter::{
    lemma_grid_matches_implies_wf, render_ascii_generic, spec_parse_block, BlockParse,
    Imgii2dImage,
};
use crate::image_data::ImageData;
use crate::image_writer::{canvas_matches_grid, canvas_too_large, AsciiImageWriter};
use crate::options::{ImgiiOptions, RenderConfig};

verus! {

/// The placement and timing a frame arrived with: pixel offsets from the
/// canvas corner and a display delay as a ratio of whole milliseconds.
#[derive(Debug, Clone, Copy, PartialEq, Eq, Structural)]
pub struct FrameMetadata {
    /// The x offset of this frame, in pixels.
    pub left: u32,
    /// The y offset of this frame, in pixels.
    pub top: u32,
    /// Numerator of the frame delay, in milliseconds.
    pub delay_numer_ms: u32,
    /// Denominator of the frame delay.
    pub delay_denom_ms: u32,
}

impl FrameMetadata {
    /// Creates a new [`FrameMetadata`].
    pub fn new(left: u32, top: u32, delay_numer_ms: u32, delay_denom_ms: u32) -> (r: Self)
        ensures
            r == (FrameMetadata { left, top, delay_numer_ms, delay_denom_ms }),
    {
        Self { left, top, delay_numer_ms, delay_denom_ms }
    }

    /// Gets the x offset of this frame.
    pub fn left(&self) -> (r: u32)
        ensures
            r == self.left,
    {
        self.left
    }

    /// Gets the y offset of this frame.
    pub fn top(&self) -> (r: u32)
        ensures
            r == self.top,
    {
        self.top
    }

    /// Gets the delay of this frame, as a ratio of whole milliseconds.
    pub fn delay(&self) -> (r: (u32, u32))
        ensures
            r.0 == self.delay_numer_ms,
            r.1 == self.delay_denom_ms,
    {
        (self.delay_numer_ms, self.delay_denom_ms)
    }
}

/// One frame's ASCII text, before rendering, with its metadata.
#[derive(Debug)]
pub struct NonRenderedFramePart {
    /// The ASCII representation of the frame.
    pub image_ascii: String,
    /// The frame metadata for this frame.
    pub frame_metadata: FrameMetadata,
}

impl NonRenderedFramePart {
    /// Creates a new [`NonRenderedFramePart`].
    pub fn new(image_ascii: String, frame_metadata: FrameMetadata) -> (r: Self)
        ensures
            r.image_ascii@ == image_ascii@,
            r.frame_metadata == frame_metadata,
    {
        Self { image_ascii, frame_metadata }
    }
}

/// One frame's rendered cell grid, with its metadata.
#[derive(Debug, Clone)]
pub struct RenderedFramePart {
    /// The rendered cell grid of this frame.
    pub image_data: Imgii2dImage,
    /// The frame metadata for this frame.
    pub frame_metadata: FrameMetadata,
}

impl RenderedFramePart {
    /// Creates a new [`RenderedFramePart`].
    pub fn new(image_data: Imgii2dImage, frame_metadata: FrameMetadata) -> (r: Self)
        ensures
            r.image_data == image_data,
            r.frame_metadata == frame_metadata,
    {
        Self { image_data, frame_metadata }
    }

    /// Gets the cell grid of this frame.
    pub fn image_data(&self) -> (r: &Imgii2dImage)
        ensures
            r == &self.image_data,
    {
        &self.image_data
    }

    /// Gets the metadata of this frame.
    pub fn frame_metadata(&self) -> (r: &FrameMetadata)
        ensures
            r == &self.frame_metadata,
    {
        &self.frame_metadata
    }

    /// Moves out of this part, returning the cell grid with the metadata.
    pub fn into_frame_data(self) -> (r: (Imgii2dImage, FrameMetadata))
        ensures
            r.0 == self.image_data,
            r.1 == self.frame_metadata,
    {
        (self.image_data, self.frame_metadata)
    }
}

/// Converts every decoded frame to ASCII text, best-effort: a frame the
/// outside renderer cannot convert becomes `None`, and every converted
/// frame keeps the metadata it arrived with, at its own position.
pub fn read_gif_as_deconstructed_ascii(
    frames: &Vec<(image::DynamicImage, FrameMetadata)>,
    rascii_options: &RenderConfig,
) -> (r: Vec<Option<NonRenderedFramePart>>)
    ensures
        r@.len() == frames@.len(),
        forall|i: int|
            0 <= i < r@.len() ==> ((#[trigger] r@[i]) matches Some(p) ==> p.frame_metadata
                == frames@[i].1),
{
    let n = frames.len();
    let mut r: Vec<Option<NonRenderedFramePart>> = Vec::new();
    let mut i: usize = 0;
    while i < n
        invariant
            i <= n,
            n == frames@.len(),
            r@.len() == i,
            forall|k: int|
                0 <= k < i ==> ((#[trigger] r@[k]) matches Some(p) ==> p.frame_metadata
                    == frames@[k].1),
        decreases n - i,
    {
        let frame = &frames[i];
        match read_png_as_ascii(&frame.0, rascii_options) {
            Ok(text) => {
                r.push(Some(NonRenderedFramePart::new(text, frame.1)));
            },
            Err(_) => {
                r.push(None);
            },
        }
        i = i + 1;
    }
    r
}

/// What rendering one converted frame owes: a frame whose text fails to
/// parse is dropped, and a rendered frame keeps its metadata and holds the
/// grid its text parses to.
pub open spec fn rendered_frame_matches(
    part: Option<NonRenderedFramePart>,
    out: Option<RenderedFramePart>,
    font_size: u32,
    background: bool,
) -> bool {
    match part {
        Option::None => out is None,
        Option::Some(p) => match spec_parse_block(p.image_ascii@) {
            BlockParse::Grid { rows, width } => {
                &&& out matches Some(q)
                &&& q.frame_metadata == p.frame_metadata
                &&& crate::generic_converter::grid_matches_rows(
                    q.image_data,
                    rows,
                    width,
                    font_size,
                    background,
                )
            },
            _ => out is None,
        },
    }
}

/// Renders every converted frame's ASCII text into a cell grid,
/// best-effort: a frame whose text fails to parse is dropped, and every
/// rendered frame keeps its metadata, at its own position.
pub fn read_as_deconstructed_rendered_gif_vec(
    frames: &Vec<Option<NonRenderedFramePart>>,
    imgii_options: &ImgiiOptions,
    font: &ab_glyph::FontRef<'_>,
) -> (r: Vec<Option<RenderedFramePart>>)
    requires
        imgii_options.wf(),
    ensures
        r@.len() == frames@.len(),
        forall|i: int|
            0 <= i < r@.len() ==> rendered_frame_matches(
                frames@[i],
                #[trigger] r@[i],
                imgii_options.font_size,
                imgii_options.background,
            ),
{
    let n = frames.len();
    let mut r: Vec<Option<RenderedFramePart>> = Vec::new();
    let mut i: usize = 0;
    while i < n
        invariant
            i <= n,
            n == frames@.len(),
            imgii_options.wf(),
            r@.len() == i,
            forall|k: int|
                0 <= k < i ==> rendered_frame_matches(
                    frames@[k],
                    #[trigger] r@[k],
                    imgii_options.font_size,
                    imgii_options.background,
                ),
        decreases n - i,
    {
        match &frames[i] {
            Some(part) => {
                match render_ascii_generic(imgii_options, part.image_ascii.as_str(), font) {
                    Ok(grid) => {
                        r.push(Some(RenderedFramePart::new(grid, part.frame_metadata)));
                    },
                    Err(_) => {
                        r.push(None);
                    },
                }
            },
            None => {
                r.push(None);
            },
        }
        i = i + 1;
    }
    r
}

/// Whether a rendered frame's grid can be composited at all: it has cells,
/// and its canvas fits in memory.
pub open spec fn stitchable(g: Imgii2dImage) -> bool {
    g.image_2d@.len() != 0 && !canvas_too_large(g)
}

/// Whether a frame outcome survives composition.
pub open spec fn keeps_frame(part: Option<RenderedFramePart>) -> bool {
    part matches Some(p) && stitchable(p.image_data)
}

/// The frames that survive composition, in their arrival order.
pub open spec fn spec_survivors(parts: Seq<Option<RenderedFramePart>>) -> Seq<RenderedFramePart>
    decreases parts.len(),
{
    if parts.len() == 0 {
        seq![]
    } else {
        let rest = spec_survivors(parts.drop_first());
        if keeps_frame(parts.first()) {
            seq![parts.first()->0] + rest
        } else {
            rest
        }
    }
}

/// Composites every rendered frame into its final canvas, best-effort: a
/// frame whose grid cannot be composited is dropped, and every surviving
/// canvas is the exact composite of its grid, still paired with the
/// metadata its frame arrived with.
pub fn compose_rendered_frames(frames: Vec<Option<RenderedFramePart>>, imgii_options: &ImgiiOptions)
    -> (r: Vec<(ImageData, FrameMetadata)>)
    requires
        forall|i: int|
            0 <= i < frames@.len() ==> ((#[trigger] frames@[i]) matches Some(p)
                ==> p.image_data.wf()),
    ensures
        r@.len() == spec_survivors(frames@).len(),
        forall|i: int|
            0 <= i < r@.len() ==> {
                let kept = spec_survivors(frames@)[i];
                &&& (#[trigger] r@[i]).1 == kept.frame_metadata
                &&& canvas_matches_grid(r@[i].0@, kept.image_data)
            },
{
    let n = frames.len();
    let mut r: Vec<(ImageData, FrameMetadata)> = Vec::new();
    let ghost all = frames@;
    let mut i: usize = 0;
    while i < n
        invariant
            i <= n,
            n == all.len(),
            frames@ == all,
            forall|k: int|
                0 <= k < all.len() ==> ((#[trigger] all[k]) matches Some(p)
                    ==> p.image_data.wf()),
            r@.len() == spec_survivors(all.take(i as int)).len(),
            forall|k: int|
                0 <= k < r@.len() ==> {
                    let kept = spec_survivors(all.take(i as int))[k];
                    &&& (#[trigger] r@[k]).1 == kept.frame_metadata
                    &&& canvas_matches_grid(r@[k].0@, kept.image_data)
                },
        decreases n - i,
    {
        match &frames[i] {
            Some(part) => {
                let grid = part.image_data.clone_grid();
                let ghost g0 = grid;
                let meta = part.frame_metadata;
                proof {
                    assert(grid.wf()) by {
                        assert(all[i as int] matches Some(p) && p.image_data.wf());
                    }
                }
                match AsciiImageWriter::from_2d_vec(grid, imgii_options) {
                    Ok(writer) => {
                        proof {
                            assert(canvas_too_large(g0) == canvas_too_large(part.image_data));
                            assert(stitchable(part.image_data));
                            assert(keeps_frame(all[i as int]));
                            assert(canvas_matches_grid(writer.imagebuf@, part.image_data)) by {
                                assert(canvas_matches_grid(writer.imagebuf@, g0));
                                assert(g0.cell(0, 0) == part.image_data.cell(0, 0));
                            }
                        }
                        r.push((writer.imagebuf, meta));
                    },
                    Err(_) => {
                        proof {
                            assert(canvas_too_large(g0) == canvas_too_large(part.image_data));
                            assert(!keeps_frame(all[i as int]));
                        }
                    },
                }
            },
            None => {
                proof {
                    assert(!keeps_frame(all[i as int]));
                }
            },
        }
        proof {
            lemma_survivors_take_step(all, i as int);
        }
        i = i + 1;
    }
    proof {
        assert(all.take(n as int) =~= all);
    }
    r
}

/// Law: in a run whose every frame survives, the output holds all of them,
/// in order, each keeping its own metadata.
pub proof fn lemma_survivors_all_kept(parts: Seq<Option<RenderedFramePart>>)
    requires
        forall|i: int| 0 <= i < parts.len() ==> keeps_frame(#[trigger] parts[i]),
    ensures
        spec_survivors(parts).len() == parts.len(),
        forall|i: int|
            0 <= i < parts.len() ==> (#[trigger] spec_survivors(parts)[i]) == parts[i]->0,
    decreases parts.len(),
{
    if parts.len() > 0 {
        let rest = parts.drop_first();
        assert forall|i: int| 0 <= i < rest.len() implies keeps_frame(#[trigger] rest[i]) by {
            assert(rest[i] == parts[i + 1]);
        }
        lemma_survivors_all_kept(rest);
        assert(keeps_frame(parts.first()));
        assert forall|i: int|
            0 <= i < parts.len() implies (#[trigger] spec_survivors(parts)[i]) == parts[i]->0 by {
            if i == 0 {
                assert(spec_survivors(parts)[0] == parts.first()->0);
            } else {
                assert(spec_survivors(parts)[i] == spec_survivors(rest)[i - 1]);
                assert(rest[i - 1] == parts[i]);
            }
        }
    }
}

/// Law: when exactly the frame at `k` is dropped — it failed an earlier
/// stage, or its grid cannot be composited — the output holds every other
/// frame, in order, each keeping its own metadata; the dropped frame is
/// absent, not replaced.
pub proof fn lemma_partial_failure_isolation(parts: Seq<Option<RenderedFramePart>>, k: int)
    requires
        0 <= k < parts.len(),
        !keeps_frame(parts[k]),
        forall|i: int| 0 <= i < parts.len() && i != k ==> keeps_frame(#[trigger] parts[i]),
    ensures
        spec_survivors(parts).len() == parts.len() - 1,
        forall|i: int| 0 <= i < k ==> (#[trigger] spec_survivors(parts)[i]) == parts[i]->0,
        forall|i: int|
            k < i < parts.len() ==> (#[trigger] spec_survivors(parts)[i - 1]) == parts[i]->0,
    decreases parts.len(),
{
    let rest = parts.drop_first();
    if k == 0 {
        assert(!keeps_frame(parts.first()));
        assert(spec_survivors(parts) == spec_survivors(rest));
        assert forall|i: int| 0 <= i < rest.len() implies keeps_frame(#[trigger] rest[i]) by {
            assert(rest[i] == parts[i + 1]);
        }
        lemma_survivors_all_kept(rest);
        assert forall|i: int|
            0 < i < parts.len() implies (#[trigger] spec_survivors(parts)[i - 1]) == parts[i]->0
        by {
            assert(spec_survivors(rest)[i - 1] == rest[i - 1]->0);
            assert(rest[i - 1] == parts[i]);
        }
    } else {
        assert forall|i: int|
            0 <= i < rest.len() && i != k - 1 implies keeps_frame(#[trigger] rest[i]) by {
            assert(rest[i] == parts[i + 1]);
        }
        assert(rest[k - 1] == parts[k]);
        lemma_partial_failure_isolation(rest, k - 1);
        assert(keeps_frame(parts.first()));
        assert(spec_survivors(parts) == seq![parts.first()->0] + spec_survivors(rest));
        assert forall|i: int|
            0 <= i < k implies (#[trigger] spec_survivors(parts)[i]) == parts[i]->0 by {
            if i == 0 {
                assert(spec_survivors(parts)[0] == parts.first()->0);
            } else {
                assert(spec_survivors(parts)[i] == spec_survivors(rest)[i - 1]);
                assert(rest[i - 1] == parts[i]);
            }
        }
        assert forall|i: int|
            k < i < parts.len() implies (#[trigger] spec_survivors(parts)[i - 1]) == parts[i]->0
        by {
            assert(spec_survivors(parts)[i - 1] == spec_survivors(rest)[i - 2]);
            assert(rest[i - 1] == parts[i]);
        }
    }
}

/// Taking one more frame extends the survivors by that frame exactly when
/// it survives.
proof fn lemma_survivors_take_step(parts: Seq<Option<RenderedFramePart>>, i: int)
    requires
        0 <= i < parts.len(),
    ensures
        spec_survivors(parts.take(i + 1)) == if keeps_frame(parts[i]) {
            spec_survivors(parts.take(i)).push(parts[i]->0)
        } else {
            spec_survivors(parts.take(i))
        },
    decreases i,
{
    let a = parts.take(i + 1);
    let b = parts.take(i);
    if i == 0 {
        assert(a.drop_first() =~= Seq::<Option<RenderedFramePart>>::empty());
        assert(b =~= Seq::<Option<RenderedFramePart>>::empty());
        assert(a.first() == parts[0]);
        assert(spec_survivors(a.drop_first()).len() == 0);
        assert(spec_survivors(b).len() == 0);
        if keeps_frame(parts[0]) {
            assert(spec_survivors(a) == seq![a.first()->0] + spec_survivors(a.drop_first()));
            assert(seq![a.first()->0] + spec_survivors(a.drop_first()) =~= spec_survivors(b).push(
                parts[0]->0,
            ));
        }
    } else {
        lemma_survivors_take_step(parts.drop_first(), i - 1);
        assert(a.drop_first() =~= parts.drop_first().take(i));
        assert(b.drop_first() =~= parts.drop_first().take(i - 1));
        assert(a.first() == parts[0] && b.first() == parts[0]);
        assert(parts.drop_first()[i - 1] == parts[i]);
        if keeps_frame(parts[0]) {
            if keeps_frame(parts[i]) {
                assert(seq![parts[0]->0] + spec_survivors(parts.drop_first().take(i - 1)).push(
                    parts[i]->0,
                ) =~= (seq![parts[0]->0] + spec_survivors(parts.drop_first().take(i - 1))).push(
                    parts[i]->0,
                ));
            }
        }
    }
}

} // verus!
