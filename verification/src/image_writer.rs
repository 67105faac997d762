//! The canvas compositor: stitches a grid of cell bitmaps into one final
//! bitmap by direct pixel-index mapping, and appends whole bitmaps to the
//! right of or below one another.

use vstd::prelude::*;

use crate::error::{ImageError, ImgiiError, InvalidParameterError};
use crate::generic_converter::Imgii2dImage;
use crate::image_data::{lemma_row_major_index, lemma_u32_mul_fits, ImageData, ImageView};
use crate::options::ImgiiOptions;

verus! {

/// An image writer which holds one composited bitmap.
#[derive(Debug, Clone)]
pub struct AsciiImageWriter {
    pub imagebuf: ImageData,
}

/// The RGBA bytes of the four-byte pixel sequence `[0, 0, 0, 0]`: what pads
/// the area that neither appended bitmap covers.
pub open spec fn clear_pixel() -> Seq<u8> {
    seq![0u8, 0u8, 0u8, 0u8]
}

/// The exact pixel mapping a composited canvas owes its grid: the canvas is
/// `(cell_width * grid.width) x (cell_height * grid.height)`, and pixel
/// `(x, y)` is pixel `(x % cell_width, y % cell_height)` of the cell in row
/// `y / cell_height`, column `x / cell_width`.
pub open spec fn canvas_matches_grid(v: ImageView, g: Imgii2dImage) -> bool {
    let cw = g.image_2d@[0]@.width;
    let ch = g.image_2d@[0]@.height;
    &&& v.wf()
    &&& v.width == cw * g.width
    &&& v.height == ch * g.height
    &&& forall|x: int, y: int|
        0 <= x < v.width && 0 <= y < v.height ==> #[trigger] v.pixel(x, y) == g.cell(
            y / ch as int,
            x / cw as int,
        ).pixel(x % cw as int, y % ch as int)
}

/// Whether the composited canvas of `g` would not fit in memory.
pub open spec fn canvas_too_large(g: Imgii2dImage) -> bool {
    let cw = g.image_2d@[0]@.width;
    let ch = g.image_2d@[0]@.height;
    ||| cw * g.width > u32::MAX
    ||| ch * g.height > u32::MAX
    ||| (cw * g.width) * (ch * g.height) * 4 > usize::MAX
}

/// What [`AsciiImageWriter::from_2d_vec`] owes: an error on an empty grid
/// and on one whose canvas cannot be allocated, else the exact composite.
pub open spec fn stitch_result_matches(
    r: Result<AsciiImageWriter, ImgiiError>,
    g: Imgii2dImage,
) -> bool {
    if g.image_2d@.len() == 0 {
        &&& r is Err
        &&& r->Err_0 matches ImgiiError::Image(ie)
        &&& ie matches ImageError::InvalidParameter(p)
        &&& p.parameter_name@ == seq!['p', 'a', 'r', 't', 's']
    } else if canvas_too_large(g) {
        &&& r is Err
        &&& r->Err_0 matches ImgiiError::Image(ie)
        &&& ie matches ImageError::InvalidParameter(p)
        &&& p.parameter_name@ == seq!['d', 'i', 'm', 'e', 'n', 's', 'i', 'o', 'n', 's']
    } else {
        &&& r is Ok
        &&& canvas_matches_grid(r->Ok_0.imagebuf@, g)
    }
}

/// The four bytes that the canvas pixel with flat index `k` must copy.
pub open spec fn expected_canvas_pixel(g: Imgii2dImage, wpx: int, k: int) -> Seq<u8> {
    let cw = g.image_2d@[0]@.width;
    let ch = g.image_2d@[0]@.height;
    let x = k % wpx;
    let y = k / wpx;
    g.cell(y / ch as int, x / cw as int).pixel(x % cw as int, y % ch as int)
}

/// The larger of two lengths.
pub open spec fn spec_max(a: nat, b: nat) -> nat {
    if a >= b {
        a
    } else {
        b
    }
}

/// The exact pixel mapping of two bitmaps appended side by side: the left
/// bitmap keeps its place, the right one starts at the left one's width, and
/// pixels under neither are fully transparent.
pub open spec fn appended_right(l: ImageView, rt: ImageView, v: ImageView) -> bool {
    &&& v.wf()
    &&& v.width == l.width + rt.width
    &&& v.height == spec_max(l.height, rt.height)
    &&& forall|x: int, y: int|
        0 <= x < v.width && 0 <= y < v.height ==> #[trigger] v.pixel(x, y) == (if x < l.width && y
            < l.height {
            l.pixel(x, y)
        } else if l.width <= x && x - l.width < rt.width && y < rt.height {
            rt.pixel(x - l.width, y)
        } else {
            clear_pixel()
        })
}

/// The exact pixel mapping of two bitmaps appended one above the other: the
/// top bitmap keeps its place, the bottom one starts at the top one's
/// height, and pixels under neither are fully transparent.
pub open spec fn appended_down(t: ImageView, b: ImageView, v: ImageView) -> bool {
    &&& v.wf()
    &&& v.width == spec_max(t.width, b.width)
    &&& v.height == t.height + b.height
    &&& forall|x: int, y: int|
        0 <= x < v.width && 0 <= y < v.height ==> #[trigger] v.pixel(x, y) == (if x < t.width && y
            < t.height {
            t.pixel(x, y)
        } else if t.height <= y && y - t.height < b.height && x < b.width {
            b.pixel(x, y - t.height)
        } else {
            clear_pixel()
        })
}

/// The four bytes that pixel `k` of an appended canvas must hold.
pub open spec fn expected_append_pixel(
    a: ImageView,
    b: ImageView,
    horizontal: bool,
    wpx: int,
    k: int,
) -> Seq<u8> {
    let x = k % wpx;
    let y = k / wpx;
    if x < a.width && y < a.height {
        a.pixel(x, y)
    } else if horizontal {
        if a.width <= x && x - a.width < b.width && y < b.height {
            b.pixel(x - a.width, y)
        } else {
            clear_pixel()
        }
    } else {
        if a.height <= y && y - a.height < b.height && x < b.width {
            b.pixel(x, y - a.height)
        } else {
            clear_pixel()
        }
    }
}

/// Copies two bitmaps onto one canvas, side by side or one above the other.
fn gather_append(a: &ImageData, b: &ImageData, horizontal: bool) -> (r: ImageData)
    requires
        a@.wf(),
        b@.wf(),
        horizontal ==> a@.width + b@.width <= u32::MAX,
        !horizontal ==> a@.height + b@.height <= u32::MAX,
    ensures
        horizontal ==> appended_right(a@, b@, r@),
        !horizontal ==> appended_down(a@, b@, r@),
{
    let a_w = a.width();
    let a_h = a.height();
    let b_w = b.width();
    let b_h = b.height();
    let width_px: u32 = if horizontal {
        a_w + b_w
    } else if a_w >= b_w {
        a_w
    } else {
        b_w
    };
    let height_px: u32 = if !horizontal {
        a_h + b_h
    } else if a_h >= b_h {
        a_h
    } else {
        b_h
    };
    let ghost wpx = width_px as int;
    let mut data: Vec<u8> = Vec::new();
    let mut y: u32 = 0;
    while y < height_px
        invariant
            y <= height_px,
            a@.wf(),
            b@.wf(),
            a_w == a@.width,
            a_h == a@.height,
            b_w == b@.width,
            b_h == b@.height,
            wpx == width_px as int,
            data@.len() == 4 * (y * width_px),
            forall|k: int|
                0 <= k < y * width_px ==> #[trigger] data@.subrange(4 * k, 4 * k + 4)
                    == expected_append_pixel(a@, b@, horizontal, wpx, k),
        decreases height_px - y,
    {
        let mut x: u32 = 0;
        proof {
            assert(y * width_px + width_px == (y + 1) * width_px) by (nonlinear_arith);
        }
        while x < width_px
            invariant
                x <= width_px,
                y < height_px,
                a@.wf(),
                b@.wf(),
                a_w == a@.width,
                a_h == a@.height,
                b_w == b@.width,
                b_h == b@.height,
                wpx == width_px as int,
                y * width_px + width_px == (y + 1) * width_px,
                data@.len() == 4 * (y * width_px + x),
                forall|k: int|
                    0 <= k < y * width_px + x ==> #[trigger] data@.subrange(4 * k, 4 * k + 4)
                        == expected_append_pixel(a@, b@, horizontal, wpx, k),
            decreases width_px - x,
        {
            let px: [u8; 4] = if x < a_w && y < a_h {
                a.get_pixel(x, y)
            } else if horizontal {
                if x >= a_w && x - a_w < b_w && y < b_h {
                    b.get_pixel(x - a_w, y)
                } else {
                    [0, 0, 0, 0]
                }
            } else {
                if y >= a_h && y - a_h < b_h && x < b_w {
                    b.get_pixel(x, y - a_h)
                } else {
                    [0, 0, 0, 0]
                }
            };
            let ghost pre = data@;
            data.push(px[0]);
            data.push(px[1]);
            data.push(px[2]);
            data.push(px[3]);
            proof {
                let k0 = y * width_px + x;
                assert(data@.subrange(4 * k0, 4 * k0 + 4) =~= px@);
                vstd::arithmetic::div_mod::lemma_fundamental_div_mod_converse(
                    k0 as int,
                    wpx,
                    y as int,
                    x as int,
                );
                assert(expected_append_pixel(a@, b@, horizontal, wpx, k0) == px@) by {
                    if !(x < a_w && y < a_h) && ((horizontal && !(x >= a_w && x - a_w < b_w && y
                        < b_h)) || (!horizontal && !(y >= a_h && y - a_h < b_h && x < b_w))) {
                        assert(px@ =~= clear_pixel());
                    }
                }
                assert forall|k: int| 0 <= k < k0 + 1 implies #[trigger] data@.subrange(
                    4 * k,
                    4 * k + 4,
                ) == expected_append_pixel(a@, b@, horizontal, wpx, k) by {
                    if k < k0 {
                        assert(data@.subrange(4 * k, 4 * k + 4) =~= pre.subrange(
                            4 * k,
                            4 * k + 4,
                        ));
                    }
                }
            }
            x = x + 1;
        }
        y = y + 1;
    }
    proof {
        assert(width_px * height_px == height_px * width_px) by (nonlinear_arith);
        assert(data@.len() == width_px * height_px * 4);
    }
    let r = ImageData::new(width_px, height_px, data).unwrap();
    proof {
        assert forall|px_x: int, px_y: int|
            0 <= px_x < r@.width && 0 <= px_y < r@.height implies #[trigger] r@.pixel(px_x, px_y)
            == expected_append_pixel(a@, b@, horizontal, wpx, px_y * wpx + px_x) by {
            let k = px_y * wpx + px_x;
            vstd::arithmetic::div_mod::lemma_fundamental_div_mod_converse(k, wpx, px_y, px_x);
            assert(0 <= k < height_px * wpx) by (nonlinear_arith)
                requires
                    0 <= px_x < wpx,
                    0 <= px_y < height_px,
                    k == px_y * wpx + px_x,
            ;
            assert(height_px * wpx == width_px as int * height_px as int) by (nonlinear_arith)
                requires
                    wpx == width_px as int,
            ;
            assert(r@.data.subrange(4 * k, 4 * k + 4) == expected_append_pixel(
                a@,
                b@,
                horizontal,
                wpx,
                k,
            ));
            assert(r@.pixel(px_x, px_y) == r@.data.subrange(
                4 * (px_y * wpx + px_x),
                4 * (px_y * wpx + px_x) + 4,
            ));
        }
        if horizontal {
            assert forall|x: int, y: int|
                0 <= x < r@.width && 0 <= y < r@.height implies #[trigger] r@.pixel(x, y) == (if x
                < a@.width && y < a@.height {
                a@.pixel(x, y)
            } else if a@.width <= x && x - a@.width < b@.width && y < b@.height {
                b@.pixel(x - a@.width, y)
            } else {
                clear_pixel()
            }) by {
                let k = y * wpx + x;
                vstd::arithmetic::div_mod::lemma_fundamental_div_mod_converse(k, wpx, y, x);
                assert(r@.pixel(x, y) == expected_append_pixel(a@, b@, horizontal, wpx, k));
            }
            assert(appended_right(a@, b@, r@));
        } else {
            assert forall|x: int, y: int|
                0 <= x < r@.width && 0 <= y < r@.height implies #[trigger] r@.pixel(x, y) == (if x
                < a@.width && y < a@.height {
                a@.pixel(x, y)
            } else if a@.height <= y && y - a@.height < b@.height && x < b@.width {
                b@.pixel(x, y - a@.height)
            } else {
                clear_pixel()
            }) by {
                let k = y * wpx + x;
                vstd::arithmetic::div_mod::lemma_fundamental_div_mod_converse(k, wpx, y, x);
                assert(r@.pixel(x, y) == expected_append_pixel(a@, b@, horizontal, wpx, k));
            }
            assert(appended_down(a@, b@, r@));
        }
    }
    r
}

impl AsciiImageWriter {
    /// The error returned when the canvas would not fit in memory.
    fn dimension_error() -> (r: ImgiiError)
        ensures
            r matches ImgiiError::Image(ie) && ie matches ImageError::InvalidParameter(p)
                && p.parameter_name@ == seq!['d', 'i', 'm', 'e', 'n', 's', 'i', 'o', 'n', 's'],
    {
        let name = String::from_str("dimensions");
        proof {
            reveal_strlit("dimensions");
            assert(name@ =~= seq!['d', 'i', 'm', 'e', 'n', 's', 'i', 'o', 'n', 's']);
        }
        ImgiiError::Image(ImageError::InvalidParameter(InvalidParameterError::new(name)))
    }

    /// Creates an image writer that holds the given bitmap.
    pub fn from_imagedata(the_image: ImageData) -> (r: Self)
        ensures
            r.imagebuf == the_image,
    {
        Self { imagebuf: the_image }
    }

    /// Creates an image writer holding `right` appended to the right of
    /// `left`; the area that neither bitmap covers stays transparent.
    pub fn new_append_right(left: &ImageData, right: &ImageData) -> (r: Self)
        requires
            left@.wf(),
            right@.wf(),
            left@.width + right@.width <= u32::MAX,
        ensures
            appended_right(left@, right@, r.imagebuf@),
    {
        Self { imagebuf: gather_append(left, right, true) }
    }

    /// Appends `right` to the right of the held bitmap.
    pub fn append_right(&mut self, right: &ImageData)
        requires
            old(self).imagebuf@.wf(),
            right@.wf(),
            old(self).imagebuf@.width + right@.width <= u32::MAX,
        ensures
            appended_right(old(self).imagebuf@, right@, final(self).imagebuf@),
    {
        let appended = gather_append(&self.imagebuf, right, true);
        self.imagebuf = appended;
    }

    /// Appends `bottom` below the held bitmap.
    pub fn append_down(&mut self, bottom: &ImageData)
        requires
            old(self).imagebuf@.wf(),
            bottom@.wf(),
            old(self).imagebuf@.height + bottom@.height <= u32::MAX,
        ensures
            appended_down(old(self).imagebuf@, bottom@, final(self).imagebuf@),
    {
        let appended = gather_append(&self.imagebuf, bottom, false);
        self.imagebuf = appended;
    }

    /// Creates an image writer holding `bottom` appended below `top`; the
    /// area that neither bitmap covers stays transparent.
    pub fn new_append_down(top: &ImageData, bottom: &ImageData) -> (r: Self)
        requires
            top@.wf(),
            bottom@.wf(),
            top@.height + bottom@.height <= u32::MAX,
        ensures
            appended_down(top@, bottom@, r.imagebuf@),
    {
        Self { imagebuf: gather_append(top, bottom, false) }
    }

    /// Builds one bitmap out of a grid of uniform cells, copying every cell
    /// pixel to its place on the canvas. An empty grid, or one whose canvas
    /// would not fit in memory, is refused.
    pub fn from_2d_vec(the_image: Imgii2dImage, _pngii_options: &ImgiiOptions) -> (r: Result<
        Self,
        ImgiiError,
    >)
        requires
            the_image.wf(),
        ensures
            stitch_result_matches(r, the_image),
    {

        if the_image.image_2d.len() == 0 {
            let name = String::from_str("parts");
            proof {
                reveal_strlit("parts");
                assert(name@ =~= seq!['p', 'a', 'r', 't', 's']);
            }
            return Err(ImgiiError::Image(ImageError::InvalidParameter(
                InvalidParameterError::new(name),
            )));
        }
        let ncells = the_image.image_2d.len();
        let char_width = the_image.image_2d[0].width();
        let char_height = the_image.image_2d[0].height();
        let ghost cw = char_width as int;
        let ghost ch = char_height as int;
        if (char_width > 0 && the_image.width > u32::MAX as usize) || (char_height > 0
            && the_image.height > u32::MAX as usize) {
            proof {
                if char_width > 0 && the_image.width > u32::MAX {
                    assert(cw * the_image.width >= the_image.width) by (nonlinear_arith)
                        requires
                            cw >= 1,
                            the_image.width >= 0,
                    ;
                } else {
                    assert(ch * the_image.height >= the_image.height) by (nonlinear_arith)
                        requires
                            ch >= 1,
                            the_image.height >= 0,
                    ;
                }
            }
            return Err(Self::dimension_error());
        }
        let w_cells: u64 = if char_width == 0 {
            0
        } else {
            the_image.width as u64
        };
        let h_cells: u64 = if char_height == 0 {
            0
        } else {
            the_image.height as u64
        };
        proof {
            lemma_u32_mul_fits(char_width as int, w_cells as int);
            lemma_u32_mul_fits(char_height as int, h_cells as int);
            assert(cw * (w_cells as int) == cw * the_image.width) by (nonlinear_arith)
                requires
                    cw == 0 || w_cells == the_image.width,
                    cw >= 0,
                    w_cells == 0 || w_cells == the_image.width,
            ;
            assert(ch * (h_cells as int) == ch * the_image.height) by (nonlinear_arith)
                requires
                    ch == 0 || h_cells == the_image.height,
                    ch >= 0,
                    h_cells == 0 || h_cells == the_image.height,
            ;
        }
        let wpx64: u64 = char_width as u64 * w_cells;
        let hpx64: u64 = char_height as u64 * h_cells;
        if wpx64 > u32::MAX as u64 || hpx64 > u32::MAX as u64 {
            return Err(Self::dimension_error());
        }
        let width_px: u32 = wpx64 as u32;
        let height_px: u32 = hpx64 as u32;
        proof {
            lemma_u32_mul_fits(wpx64 as int, hpx64 as int);
        }
        let total_px: u64 = wpx64 * hpx64;
        if total_px as u128 * 4 > usize::MAX as u128 {
            proof {
                assert((cw * the_image.width) * (ch * the_image.height) * 4 > usize::MAX);
            }
            return Err(Self::dimension_error());
        }
        proof {
            assert((cw * the_image.width) * (ch * the_image.height) * 4 <= usize::MAX);
            assert(!canvas_too_large(the_image));
        }
        let grid_w = the_image.width;
        let grid_h = the_image.height;
        let ghost wpx = width_px as int;
        let mut data: Vec<u8> = Vec::new();
        let mut y: u32 = 0;
        while y < height_px
            invariant
                y <= height_px,
                the_image.wf(),
                ncells == the_image.image_2d@.len(),
                0 < ncells,
                grid_w == the_image.width,
                grid_h == the_image.height,
                cw == the_image.image_2d@[0]@.width,
                ch == the_image.image_2d@[0]@.height,
                cw == char_width as int,
                ch == char_height as int,
                wpx == width_px as int,
                width_px == cw * grid_w,
                height_px == ch * grid_h,
                width_px as int * height_px as int * 4 <= usize::MAX,
                data@.len() == 4 * (y * width_px),
                forall|k: int|
                    0 <= k < y * width_px ==> #[trigger] data@.subrange(4 * k, 4 * k + 4)
                        == expected_canvas_pixel(the_image, wpx, k),
            decreases height_px - y,
        {
            let mut x: u32 = 0;
            proof {
                assert(y * width_px + width_px == (y + 1) * width_px) by (nonlinear_arith);
                assert((y + 1) * width_px <= height_px * width_px) by (nonlinear_arith)
                    requires
                        y < height_px,
                        width_px >= 0,
                ;
                assert(height_px * width_px == width_px * height_px) by (nonlinear_arith);
            }
            while x < width_px
                invariant
                    x <= width_px,
                    y < height_px,
                    the_image.wf(),
                    ncells == the_image.image_2d@.len(),
                    0 < ncells,
                    grid_w == the_image.width,
                    grid_h == the_image.height,
                    cw == the_image.image_2d@[0]@.width,
                    ch == the_image.image_2d@[0]@.height,
                    cw == char_width as int,
                    ch == char_height as int,
                    wpx == width_px as int,
                    width_px == cw * grid_w,
                    height_px == ch * grid_h,
                    width_px as int * height_px as int * 4 <= usize::MAX,
                    y * width_px + width_px == (y + 1) * width_px,
                    (y + 1) * width_px <= width_px * height_px,
                    data@.len() == 4 * (y * width_px + x),
                    forall|k: int|
                        0 <= k < y * width_px + x ==> #[trigger] data@.subrange(4 * k, 4 * k + 4)
                            == expected_canvas_pixel(the_image, wpx, k),
                decreases width_px - x,
            {
                proof {
                    // The cell under (x, y) exists and is cell-sized.
                    assert(cw > 0) by (nonlinear_arith)
                        requires
                            x < width_px,
                            width_px == cw * grid_w,
                            cw >= 0,
                    ;
                    assert(ch > 0) by (nonlinear_arith)
                        requires
                            y < height_px,
                            height_px == ch * grid_h,
                            ch >= 0,
                    ;
                    assert(x as int / cw < grid_w) by (nonlinear_arith)
                        requires
                            0 <= x < cw * grid_w,
                            cw > 0,
                    ;
                    assert(y as int / ch < grid_h) by (nonlinear_arith)
                        requires
                            0 <= y < ch * grid_h,
                            ch > 0,
                    ;
                    lemma_row_major_index(
                        x as int / cw,
                        y as int / ch,
                        grid_w as int,
                        grid_h as int,
                    );
                }
                let row = y / char_height;
                let column = x / char_width;
                let inner_x = x % char_width;
                let inner_y = y % char_height;
                let idx = column as usize + row as usize * grid_w;
                let cell = &the_image.image_2d[idx];
                let px = cell.get_pixel(inner_x, inner_y);
                let ghost pre = data@;
                data.push(px[0]);
                data.push(px[1]);
                data.push(px[2]);
                data.push(px[3]);
                proof {
                    let k0 = y * width_px + x;
                    assert(data@.subrange(4 * k0, 4 * k0 + 4) =~= px@);
                    vstd::arithmetic::div_mod::lemma_fundamental_div_mod_converse(
                        k0 as int,
                        wpx,
                        y as int,
                        x as int,
                    );
                    assert(expected_canvas_pixel(the_image, wpx, k0) == px@);
                    assert forall|k: int| 0 <= k < k0 + 1 implies #[trigger] data@.subrange(
                        4 * k,
                        4 * k + 4,
                    ) == expected_canvas_pixel(the_image, wpx, k) by {
                        if k < k0 {
                            assert(data@.subrange(4 * k, 4 * k + 4) =~= pre.subrange(
                                4 * k,
                                4 * k + 4,
                            ));
                        }
                    }
                }
                x = x + 1;
            }
            y = y + 1;
        }
        proof {
            assert(width_px * height_px == height_px * width_px) by (nonlinear_arith);
            assert(data@.len() == width_px * height_px * 4);
        }
        let canvas = ImageData::new(width_px, height_px, data).unwrap();
        let r = Self { imagebuf: canvas };
        proof {
            assert forall|px_x: int, px_y: int|
                0 <= px_x < r.imagebuf@.width && 0 <= px_y < r.imagebuf@.height implies #[trigger] r.imagebuf@.pixel(
                px_x,
                px_y,
            ) == the_image.cell(px_y / ch, px_x / cw).pixel(px_x % cw, px_y % ch) by {
                let k = px_y * wpx + px_x;
                vstd::arithmetic::div_mod::lemma_fundamental_div_mod_converse(
                    k,
                    wpx,
                    px_y,
                    px_x,
                );
                assert(0 <= k < height_px * wpx) by (nonlinear_arith)
                    requires
                        0 <= px_x < wpx,
                        0 <= px_y < height_px,
                        k == px_y * wpx + px_x,
                ;
                assert(height_px * wpx == width_px as int * height_px as int) by (nonlinear_arith)
                    requires
                        wpx == width_px as int,
                ;
                assert(data@.subrange(4 * k, 4 * k + 4) == expected_canvas_pixel(
                    the_image,
                    wpx,
                    k,
                ));
                assert(r.imagebuf@.pixel(px_x, px_y) == r.imagebuf@.data.subrange(
                    4 * (px_y * wpx + px_x),
                    4 * (px_y * wpx + px_x) + 4,
                ));
            }
        }
        Ok(r)
    }
}

} // verus!
