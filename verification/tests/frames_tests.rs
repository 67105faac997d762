//! Frame orchestration: one engineered bad frame is dropped, and every
//! other frame comes through in order with the metadata it arrived with.

use imgii::gif_converter::{
    compose_rendered_frames, read_as_deconstructed_rendered_gif_vec, FrameMetadata,
    NonRenderedFramePart, RenderedFramePart,
};
use imgii::options::ImgiiOptionsBuilder;
use imgii::render_char_to_png::load_font;

#[test]
fn frame_metadata_keeps_its_fields() {
    let meta = FrameMetadata::new(3, 4, 100, 10);
    assert_eq!(meta.left(), 3);
    assert_eq!(meta.top(), 4);
    assert_eq!(meta.delay(), (100, 10));
}

#[test]
fn rendered_frame_part_accessors() {
    let options = ImgiiOptionsBuilder::new().font_size(8).build();
    let font = load_font(dejavu::sans_mono::regular(), "DejaVuSansMono").unwrap();
    let grid = imgii::generic_converter::render_ascii_generic(
        &options,
        "\x1b[38;2;1;2;3mZ",
        &font,
    )
    .unwrap();
    let meta = FrameMetadata::new(1, 2, 30, 1);
    let part = RenderedFramePart::new(grid, meta);
    assert_eq!(part.frame_metadata().left(), 1);
    assert_eq!(part.image_data().width, 1);
    let (grid, meta_back) = part.into_frame_data();
    assert_eq!(grid.height, 1);
    assert_eq!(meta_back.top(), 2);
}

#[test]
fn one_bad_frame_is_dropped_and_the_rest_keep_their_metadata() {
    let options = ImgiiOptionsBuilder::new().font_size(8).background(false).build();
    let font = load_font(dejavu::sans_mono::regular(), "DejaVuSansMono").unwrap();

    let good_a = "\x1b[38;2;10;20;30mG";
    // Frame 1 is engineered to fail ASCII parsing: channel 256 overflows.
    let bad = "\x1b[38;2;256;0;0mX";
    let good_b = "\x1b[38;2;40;50;60mH";

    let frames = vec![
        Some(NonRenderedFramePart::new(good_a.to_string(), FrameMetadata::new(0, 0, 10, 1))),
        Some(NonRenderedFramePart::new(bad.to_string(), FrameMetadata::new(1, 1, 20, 1))),
        Some(NonRenderedFramePart::new(good_b.to_string(), FrameMetadata::new(2, 2, 30, 1))),
    ];

    let rendered = read_as_deconstructed_rendered_gif_vec(&frames, &options, &font);
    assert_eq!(rendered.len(), 3);
    assert!(rendered[0].is_some());
    assert!(rendered[1].is_none());
    assert!(rendered[2].is_some());
    assert_eq!(rendered[0].as_ref().unwrap().frame_metadata().delay(), (10, 1));
    assert_eq!(rendered[2].as_ref().unwrap().frame_metadata().delay(), (30, 1));

    let composed = compose_rendered_frames(rendered, &options);
    // Exactly the two surviving frames, in order, with their own metadata;
    // the failed frame is absent, not replaced.
    assert_eq!(composed.len(), 2);
    assert_eq!(composed[0].1, FrameMetadata::new(0, 0, 10, 1));
    assert_eq!(composed[1].1, FrameMetadata::new(2, 2, 30, 1));
    assert_eq!(composed[0].0.width(), 4);
    assert_eq!(composed[0].0.height(), 8);
}

#[test]
fn an_unconverted_frame_stays_dropped() {
    let options = ImgiiOptionsBuilder::new().font_size(8).build();
    let font = load_font(dejavu::sans_mono::regular(), "DejaVuSansMono").unwrap();
    let frames = vec![None, Some(NonRenderedFramePart::new(
        "\x1b[38;2;1;1;1mY".to_string(),
        FrameMetadata::new(5, 6, 7, 8),
    ))];
    let rendered = read_as_deconstructed_rendered_gif_vec(&frames, &options, &font);
    assert!(rendered[0].is_none());
    assert!(rendered[1].is_some());
    let composed = compose_rendered_frames(rendered, &options);
    assert_eq!(composed.len(), 1);
    assert_eq!(composed[0].1, FrameMetadata::new(5, 6, 7, 8));
}

#[test]
fn empty_grid_frames_are_dropped_at_composition() {
    let options = ImgiiOptionsBuilder::new().font_size(8).build();
    let font = load_font(dejavu::sans_mono::regular(), "DejaVuSansMono").unwrap();
    // An empty text renders to an empty grid, which cannot be composited.
    let frames = vec![Some(NonRenderedFramePart::new(
        String::new(),
        FrameMetadata::new(0, 0, 1, 1),
    ))];
    let rendered = read_as_deconstructed_rendered_gif_vec(&frames, &options, &font);
    assert!(rendered[0].is_some());
    let composed = compose_rendered_frames(rendered, &options);
    assert_eq!(composed.len(), 0);
}
