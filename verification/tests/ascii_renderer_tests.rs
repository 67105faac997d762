//! The bridge to the real outside ASCII-art renderer, exercised end to end
//! on a small in-memory image.

use image::{DynamicImage, Rgba, RgbaImage};

use imgii::ascii_renderer::read_png_as_ascii;
use imgii::error::{ImageError, ImgiiError};
use imgii::options::ImgiiOptionsBuilder;
use imgii::png_converter::parse_ascii_to_2d_png_vec;
use imgii::render_char_to_png::load_font;
use imgii::token_parser::parse_line;

fn test_image() -> DynamicImage {
    let mut img = RgbaImage::new(2, 2);
    img.put_pixel(0, 0, Rgba([255, 0, 0, 255]));
    img.put_pixel(1, 0, Rgba([0, 255, 0, 255]));
    img.put_pixel(0, 1, Rgba([0, 0, 255, 255]));
    img.put_pixel(1, 1, Rgba([255, 255, 255, 255]));
    DynamicImage::ImageRgba8(img)
}

#[test]
fn renderer_without_width_or_height_is_rejected() {
    let options = ImgiiOptionsBuilder::new().build();
    let err = read_png_as_ascii(&test_image(), options.rascii_options()).unwrap_err();
    match err {
        ImgiiError::Image(ImageError::InvalidParameter(p)) => {
            assert_eq!(p.parameter_name, "width or height");
        }
        other => panic!("expected an invalid parameter error, got {:?}", other),
    }
}

#[test]
fn empty_char_override_is_rejected() {
    let options = ImgiiOptionsBuilder::new().width(2).height(2).char_override(Vec::new()).build();
    let err = read_png_as_ascii(&test_image(), options.rascii_options()).unwrap_err();
    match err {
        ImgiiError::Image(ImageError::InvalidParameter(p)) => {
            assert_eq!(p.parameter_name, "char override");
        }
        other => panic!("expected an invalid parameter error, got {:?}", other),
    }
}

#[test]
fn non_empty_char_override_renders() {
    let options = ImgiiOptionsBuilder::new()
        .width(2)
        .height(2)
        .char_override(vec!["#".to_string()])
        .build();
    let text = read_png_as_ascii(&test_image(), options.rascii_options()).unwrap();
    assert!(text.contains('#'));
}

#[test]
fn renderer_output_parses_into_a_rectangular_token_grid() {
    let options = ImgiiOptionsBuilder::new().width(2).height(2).build();
    let text = read_png_as_ascii(&test_image(), options.rascii_options()).unwrap();
    let lines: Vec<&str> = text.lines().collect();
    assert_eq!(lines.len(), 2);
    let first = parse_line(&lines[0].chars().collect()).unwrap();
    assert_eq!(first.len(), 2);
    for line in &lines {
        let tokens = parse_line(&line.chars().collect()).unwrap();
        assert_eq!(tokens.len(), first.len());
    }
}

#[test]
fn whole_still_image_pipeline_runs_on_a_real_image() {
    let options = ImgiiOptionsBuilder::new().width(2).height(2).font_size(16).build();
    let font = load_font(dejavu::sans_mono::regular(), "DejaVuSansMono").unwrap();
    let grid = parse_ascii_to_2d_png_vec(&test_image(), &options, &font).unwrap();
    assert_eq!(grid.width, 2);
    assert_eq!(grid.height, 2);
    for cell in grid.image_2d.iter() {
        assert_eq!(cell.width(), 8);
        assert_eq!(cell.height(), 16);
    }
}
