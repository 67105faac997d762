//! The end-to-end scenario: a two-line, two-column colorized ASCII text is
//! parsed, rendered with a real font, and composited, and every canvas block
//! equals the cell it came from.

use imgii::generic_converter::render_ascii_generic;
use imgii::image_writer::AsciiImageWriter;
use imgii::options::ImgiiOptionsBuilder;
use imgii::render_char_to_png::load_font;
use imgii::token_parser::parse_line;

const SCENARIO: &str =
    "\x1b[38;2;255;0;0mA\x1b[38;2;0;255;0mB\n\x1b[38;2;0;0;255mC\x1b[38;2;255;255;0mD";

#[test]
fn scenario_parses_to_two_rows_of_two() {
    let lines: Vec<&str> = SCENARIO.lines().collect();
    assert_eq!(lines.len(), 2);
    let row0 = parse_line(&lines[0].chars().collect()).unwrap();
    let row1 = parse_line(&lines[1].chars().collect()).unwrap();
    assert_eq!(row0.len(), 2);
    assert_eq!(row1.len(), 2);
    assert_eq!((row0[0].red, row0[0].green, row0[0].blue, row0[0].text), (255, 0, 0, 'A'));
    assert_eq!((row0[1].red, row0[1].green, row0[1].blue, row0[1].text), (0, 255, 0, 'B'));
    assert_eq!((row1[0].red, row1[0].green, row1[0].blue, row1[0].text), (0, 0, 255, 'C'));
    assert_eq!((row1[1].red, row1[1].green, row1[1].blue, row1[1].text), (255, 255, 0, 'D'));
}

#[test]
fn scenario_renders_and_composites_exactly() {
    let options = ImgiiOptionsBuilder::new().font_size(16).background(false).build();
    let font = load_font(dejavu::sans_mono::regular(), "DejaVuSansMono").unwrap();

    let grid = render_ascii_generic(&options, SCENARIO, &font).unwrap();
    assert_eq!(grid.width, 2);
    assert_eq!(grid.height, 2);
    assert_eq!(grid.image_2d.len(), 4);
    for cell in grid.image_2d.iter() {
        assert_eq!(cell.width(), 8);
        assert_eq!(cell.height(), 16);
    }

    // Each glyph must be drawn in its own color: the other channels stay 0.
    // 'A' is red, 'B' green, 'C' blue, 'D' yellow (blue channel 0).
    let mut drew_something = [false; 4];
    for (i, cell) in grid.image_2d.iter().enumerate() {
        for y in 0..16 {
            for x in 0..8 {
                let [r, g, b, a] = cell.get_pixel(x, y);
                if a > 0 {
                    drew_something[i] = true;
                }
                match i {
                    0 => assert_eq!((g, b), (0, 0)),
                    1 => assert_eq!((r, b), (0, 0)),
                    2 => assert_eq!((r, g), (0, 0)),
                    _ => assert_eq!(b, 0),
                }
            }
        }
    }
    assert_eq!(drew_something, [true; 4]);

    let cells: Vec<_> = grid.image_2d.iter().map(|c| (**c).clone()).collect();
    let writer = AsciiImageWriter::from_2d_vec(grid, &options).unwrap();
    let canvas = &writer.imagebuf;
    assert_eq!(canvas.width(), 16);
    assert_eq!(canvas.height(), 32);
    for y in 0..32u32 {
        for x in 0..16u32 {
            let cell = &cells[(y / 16 * 2 + x / 8) as usize];
            assert_eq!(canvas.get_pixel(x, y), cell.get_pixel(x % 8, y % 16));
        }
    }
}
