use std::rc::Rc;

use imgii::error::{ImageError, ImgiiError};
use imgii::generic_converter::render_ascii_generic;
use imgii::options::ImgiiOptionsBuilder;
use imgii::render_char_to_png::{
    calculate_char_dimensions, load_font, str_to_png, str_to_transparent_png, ColoredStr,
};

#[test]
fn char_dimensions_are_half_width() {
    assert_eq!(calculate_char_dimensions(16), (8, 16));
    assert_eq!(calculate_char_dimensions(17), (8, 17));
    assert_eq!(calculate_char_dimensions(0), (0, 0));
}

#[test]
fn bad_font_bytes_are_a_font_error() {
    let err = load_font(&[1, 2, 3], "nofont").unwrap_err();
    match err {
        ImgiiError::Font(e) => assert_eq!(e.font_name, "nofont"),
        other => panic!("expected a font error, got {:?}", other),
    }
}

#[test]
fn real_font_bytes_load() {
    assert!(load_font(dejavu::sans_mono::regular(), "DejaVuSansMono").is_ok());
}

#[test]
fn blank_cell_is_fully_transparent_without_background() {
    let options = ImgiiOptionsBuilder::new().font_size(16).background(false).build();
    let cell = str_to_transparent_png(&options);
    assert_eq!(cell.width(), 8);
    assert_eq!(cell.height(), 16);
    for y in 0..16 {
        for x in 0..8 {
            assert_eq!(cell.get_pixel(x, y), [0, 0, 0, 0]);
        }
    }
}

#[test]
fn blank_cell_is_opaque_black_with_background() {
    let options = ImgiiOptionsBuilder::new().font_size(10).background(true).build();
    let cell = str_to_transparent_png(&options);
    assert_eq!(cell.width(), 5);
    assert_eq!(cell.height(), 10);
    for y in 0..10 {
        for x in 0..5 {
            assert_eq!(cell.get_pixel(x, y), [0, 0, 0, 255]);
        }
    }
}

#[test]
fn whitespace_token_gets_the_blank_cell() {
    let options = ImgiiOptionsBuilder::new().font_size(16).background(false).build();
    let font = load_font(dejavu::sans_mono::regular(), "DejaVuSansMono").unwrap();
    let grid = render_ascii_generic(&options, "\x1b[38;2;200;100;50m ", &font).unwrap();
    assert_eq!(grid.width, 1);
    assert_eq!(grid.height, 1);
    let cell = &grid.image_2d[0];
    for y in 0..16 {
        for x in 0..8 {
            assert_eq!(cell.get_pixel(x, y), [0, 0, 0, 0]);
        }
    }
}

#[test]
fn memoized_render_equals_fresh_render() {
    let options = ImgiiOptionsBuilder::new().font_size(16).background(false).build();
    let font = load_font(dejavu::sans_mono::regular(), "DejaVuSansMono").unwrap();
    let grid =
        render_ascii_generic(&options, "\x1b[38;2;255;0;0mA\x1b[38;2;255;0;0mA", &font).unwrap();
    assert_eq!(grid.width, 2);
    // The repeated token shares one bitmap rather than holding a copy.
    assert!(Rc::ptr_eq(&grid.image_2d[0], &grid.image_2d[1]));
    // The shared bitmap is pixel-identical to a fresh, unmemoized render.
    let token = ColoredStr { red: 255, green: 0, blue: 0, text: 'A' };
    let fresh = str_to_png(&token, &font, &options);
    assert!(*grid.image_2d[0] == fresh);
}

#[test]
fn distinct_tokens_get_distinct_renders() {
    let options = ImgiiOptionsBuilder::new().font_size(16).background(false).build();
    let font = load_font(dejavu::sans_mono::regular(), "DejaVuSansMono").unwrap();
    let grid =
        render_ascii_generic(&options, "\x1b[38;2;255;0;0mA\x1b[38;2;0;0;255mA", &font).unwrap();
    // Same character, different color: these are different tokens.
    assert!(!(*grid.image_2d[0] == *grid.image_2d[1]));
}

#[test]
fn row_width_mismatch_is_a_structural_error() {
    let options = ImgiiOptionsBuilder::new().font_size(16).background(false).build();
    let font = load_font(dejavu::sans_mono::regular(), "DejaVuSansMono").unwrap();
    let text = "\x1b[38;2;1;1;1ma\x1b[38;2;1;1;1mb\n\x1b[38;2;1;1;1mc";
    let err = render_ascii_generic(&options, text, &font).unwrap_err();
    match err {
        ImgiiError::Image(ImageError::ParseImage(w)) => {
            assert_eq!(w.image_row_number, 1);
            assert_eq!(w.expected_width, 2);
            assert_eq!(w.got_width, 1);
        }
        other => panic!("expected a width mismatch, got {:?}", other),
    }
}

#[test]
fn parse_error_inside_block_is_fatal_for_the_block() {
    let options = ImgiiOptionsBuilder::new().font_size(16).background(false).build();
    let font = load_font(dejavu::sans_mono::regular(), "DejaVuSansMono").unwrap();
    let err = render_ascii_generic(&options, "\x1b[38;2;1;1;1ma\n\x1b[38;2;300;1;1mb", &font)
        .unwrap_err();
    assert!(matches!(err, ImgiiError::Parse(_)));
}

#[test]
fn glyph_cells_all_share_the_configured_size() {
    let options = ImgiiOptionsBuilder::new().font_size(12).background(true).build();
    let font = load_font(dejavu::sans_mono::regular(), "DejaVuSansMono").unwrap();
    let grid =
        render_ascii_generic(&options, "\x1b[38;2;9;8;7mK\x1b[38;2;1;2;3m~", &font).unwrap();
    for cell in grid.image_2d.iter() {
        assert_eq!(cell.width(), 6);
        assert_eq!(cell.height(), 12);
    }
}
