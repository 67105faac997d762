use std::rc::Rc;

use imgii::error::{ImageError, ImgiiError};
use imgii::generic_converter::Imgii2dImage;
use imgii::image_data::ImageData;
use imgii::image_writer::AsciiImageWriter;
use imgii::options::ImgiiOptionsBuilder;

/// A 2x3 bitmap whose pixel at (x, y) is [base+x, base+y, base, 255].
fn test_cell(base: u8) -> ImageData {
    let mut data = Vec::new();
    for y in 0..3u8 {
        for x in 0..2u8 {
            data.extend_from_slice(&[base + x, base + y, base, 255]);
        }
    }
    ImageData::new(2, 3, data).unwrap()
}

#[test]
fn empty_grid_is_refused() {
    let options = ImgiiOptionsBuilder::new().build();
    let grid = Imgii2dImage { image_2d: Vec::new(), width: 0, height: 0 };
    let err = AsciiImageWriter::from_2d_vec(grid, &options).unwrap_err();
    match err {
        ImgiiError::Image(ImageError::InvalidParameter(p)) => {
            assert_eq!(p.parameter_name, "parts");
        }
        other => panic!("expected an invalid parameter error, got {:?}", other),
    }
}

#[test]
fn canvas_copies_each_cell_block() {
    // A 2x2 grid of 2x3 cells: the canvas must be 4x6 and every pixel must
    // come from the right cell at the right offset.
    let cells =
        [test_cell(0), test_cell(40), test_cell(80), test_cell(120)];
    let grid = Imgii2dImage {
        image_2d: cells.iter().map(|c| Rc::new(c.clone())).collect(),
        width: 2,
        height: 2,
    };
    let options = ImgiiOptionsBuilder::new().build();
    let writer = AsciiImageWriter::from_2d_vec(grid, &options).unwrap();
    let canvas = &writer.imagebuf;
    assert_eq!(canvas.width(), 4);
    assert_eq!(canvas.height(), 6);
    for y in 0..6u32 {
        for x in 0..4u32 {
            let cell = &cells[(y / 3 * 2 + x / 2) as usize];
            assert_eq!(canvas.get_pixel(x, y), cell.get_pixel(x % 2, y % 3));
        }
    }
}

#[test]
fn one_cell_grid_reproduces_the_cell() {
    let cell = test_cell(7);
    let grid = Imgii2dImage {
        image_2d: vec![Rc::new(cell.clone())],
        width: 1,
        height: 1,
    };
    let options = ImgiiOptionsBuilder::new().build();
    let writer = AsciiImageWriter::from_2d_vec(grid, &options).unwrap();
    assert!(writer.imagebuf == cell);
}

#[test]
fn from_imagedata_holds_the_bitmap() {
    let img = test_cell(1);
    let writer = AsciiImageWriter::from_imagedata(img.clone());
    assert!(writer.imagebuf == img);
}

#[test]
fn append_right_places_both_images() {
    let left = ImageData::new(1, 1, vec![10, 11, 12, 255]).unwrap();
    let right = ImageData::new(1, 2, vec![20, 21, 22, 255, 30, 31, 32, 255]).unwrap();
    let writer = AsciiImageWriter::new_append_right(&left, &right);
    let canvas = &writer.imagebuf;
    assert_eq!(canvas.width(), 2);
    assert_eq!(canvas.height(), 2);
    assert_eq!(canvas.get_pixel(0, 0), [10, 11, 12, 255]);
    assert_eq!(canvas.get_pixel(1, 0), [20, 21, 22, 255]);
    assert_eq!(canvas.get_pixel(1, 1), [30, 31, 32, 255]);
    // Below the shorter left image the canvas stays transparent.
    assert_eq!(canvas.get_pixel(0, 1), [0, 0, 0, 0]);
}

#[test]
fn append_right_mutates_in_place() {
    let left = ImageData::new(1, 1, vec![1, 2, 3, 4]).unwrap();
    let right = ImageData::new(1, 1, vec![5, 6, 7, 8]).unwrap();
    let mut writer = AsciiImageWriter::from_imagedata(left);
    writer.append_right(&right);
    assert_eq!(writer.imagebuf.width(), 2);
    assert_eq!(writer.imagebuf.height(), 1);
    assert_eq!(writer.imagebuf.get_pixel(0, 0), [1, 2, 3, 4]);
    assert_eq!(writer.imagebuf.get_pixel(1, 0), [5, 6, 7, 8]);
}

#[test]
fn append_down_places_both_images() {
    let top = ImageData::new(2, 1, vec![1, 1, 1, 255, 2, 2, 2, 255]).unwrap();
    let bottom = ImageData::new(1, 1, vec![3, 3, 3, 255]).unwrap();
    let writer = AsciiImageWriter::new_append_down(&top, &bottom);
    let canvas = &writer.imagebuf;
    assert_eq!(canvas.width(), 2);
    assert_eq!(canvas.height(), 2);
    assert_eq!(canvas.get_pixel(0, 0), [1, 1, 1, 255]);
    assert_eq!(canvas.get_pixel(1, 0), [2, 2, 2, 255]);
    assert_eq!(canvas.get_pixel(0, 1), [3, 3, 3, 255]);
    // To the right of the narrower bottom image the canvas stays transparent.
    assert_eq!(canvas.get_pixel(1, 1), [0, 0, 0, 0]);
}

#[test]
fn append_down_mutates_in_place() {
    let top = ImageData::new(1, 1, vec![1, 2, 3, 4]).unwrap();
    let bottom = ImageData::new(1, 1, vec![5, 6, 7, 8]).unwrap();
    let mut writer = AsciiImageWriter::from_imagedata(top);
    writer.append_down(&bottom);
    assert_eq!(writer.imagebuf.width(), 1);
    assert_eq!(writer.imagebuf.height(), 2);
    assert_eq!(writer.imagebuf.get_pixel(0, 0), [1, 2, 3, 4]);
    assert_eq!(writer.imagebuf.get_pixel(0, 1), [5, 6, 7, 8]);
}

#[test]
fn image_data_refuses_a_short_buffer() {
    assert!(ImageData::new(2, 2, vec![0; 15]).is_none());
    assert!(ImageData::new(2, 2, vec![0; 16]).is_some());
}
