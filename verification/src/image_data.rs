//! The bitmap type that the pipeline works on: a width, a height, and a flat
//! row-major RGBA byte buffer, modelled in specifications by [`ImageView`].

use vstd::prelude::*;

verus! {

/// Mathematical model of a bitmap: dimensions and the flat RGBA bytes.
pub ghost struct ImageView {
    pub width: nat,
    pub height: nat,
    pub data: Seq<u8>,
}

impl ImageView {
    /// The buffer holds exactly four bytes per pixel.
    pub open spec fn wf(self) -> bool {
        self.data.len() == self.width * self.height * 4
    }

    /// The four RGBA bytes of the pixel at column `x`, row `y`.
    pub open spec fn pixel(self, x: int, y: int) -> Seq<u8> {
        self.data.subrange(4 * (y * self.width + x), 4 * (y * self.width + x) + 4)
    }
}

/// The product of two values below 2^32 fits in 64 bits.
pub proof fn lemma_u32_mul_fits(a: int, b: int)
    requires
        0 <= a < 0x1_0000_0000,
        0 <= b < 0x1_0000_0000,
    ensures
        0 <= a * b < 0x1_0000_0000_0000_0000,
{
    assert(0 <= a * b < 0x1_0000_0000_0000_0000) by (nonlinear_arith)
        requires
            0 <= a < 0x1_0000_0000,
            0 <= b < 0x1_0000_0000,
    ;
}

/// A pixel index within `width x height` stays inside the row-major buffer.
pub proof fn lemma_row_major_index(x: int, y: int, width: int, height: int)
    requires
        0 <= x < width,
        0 <= y < height,
    ensures
        0 <= y * width + x,
        y * width + x < width * height,
        4 * (y * width + x) + 4 <= 4 * (width * height),
{
    assert(0 <= y * width + x && y * width + x < width * height) by (nonlinear_arith)
        requires
            0 <= x < width,
            0 <= y < height,
    ;
}

/// One rendered bitmap: a cell, or a whole composited canvas.
#[derive(Debug, Clone)]
pub struct ImageData {
    width: u32,
    height: u32,
    data: Vec<u8>,
}

impl View for ImageData {
    type V = ImageView;

    closed spec fn view(&self) -> ImageView {
        ImageView { width: self.width as nat, height: self.height as nat, data: self.data@ }
    }
}

impl ImageData {
    /// Wraps a raw RGBA buffer, refusing one whose length does not match the
    /// dimensions.
    pub fn new(width: u32, height: u32, data: Vec<u8>) -> (r: Option<Self>)
        ensures
            r is Some <==> data@.len() == width * height * 4,
            r is Some ==> r->0@ == (ImageView {
                width: width as nat,
                height: height as nat,
                data: data@,
            }),
    {
        proof {
            lemma_u32_mul_fits(width as int, height as int);
        }
        let wh: u64 = width as u64 * height as u64;
        let expected: u128 = wh as u128 * 4;
        if data.len() as u128 == expected {
            Some(Self { width, height, data })
        } else {
            None
        }
    }

    /// A bitmap of the given size with every pixel set to the same RGBA value.
    pub fn filled(width: u32, height: u32, rgba: [u8; 4]) -> (r: Self)
        requires
            width * height * 4 <= usize::MAX,
        ensures
            r@.width == width,
            r@.height == height,
            r@.wf(),
            forall|x: int, y: int|
                0 <= x < width && 0 <= y < height ==> r@.pixel(x, y) == rgba@,
    {
        let count: usize = width as usize * height as usize;
        let mut data: Vec<u8> = Vec::new();
        let mut j: usize = 0;
        while j < count
            invariant
                j <= count,
                count == width * height,
                count * 4 <= usize::MAX,
                data@.len() == 4 * j,
                forall|k: int|
                    0 <= k < j ==> #[trigger] data@.subrange(4 * k, 4 * k + 4) == rgba@,
            decreases count - j,
        {
            let ghost pre = data@;
            data.push(rgba[0]);
            data.push(rgba[1]);
            data.push(rgba[2]);
            data.push(rgba[3]);
            proof {
                assert forall|k: int| 0 <= k < j + 1 implies #[trigger] data@.subrange(
                    4 * k,
                    4 * k + 4,
                ) == rgba@ by {
                    if k < j {
                        assert(data@.subrange(4 * k, 4 * k + 4) =~= pre.subrange(4 * k, 4 * k + 4));
                    } else {
                        assert(data@.subrange(4 * k, 4 * k + 4) =~= rgba@);
                    }
                }
            }
            j = j + 1;
        }
        let r = Self { width, height, data };
        proof {
            assert(r@.wf());
            assert forall|x: int, y: int|
                0 <= x < width && 0 <= y < height implies r@.pixel(x, y) == rgba@ by {
                lemma_row_major_index(x, y, width as int, height as int);
                assert(r@.data.subrange(
                    4 * (y * width as int + x),
                    4 * (y * width as int + x) + 4,
                ) == rgba@);
            }
        }
        r
    }

    /// Width in pixels.
    pub fn width(&self) -> (r: u32)
        ensures
            r == self@.width,
    {
        self.width
    }

    /// Height in pixels.
    pub fn height(&self) -> (r: u32)
        ensures
            r == self@.height,
    {
        self.height
    }

    /// Whether `(x, y)` lies inside this bitmap.
    pub fn in_bounds(&self, x: u32, y: u32) -> (r: bool)
        ensures
            r == (x < self@.width && y < self@.height),
    {
        x < self.width && y < self.height
    }

    /// The RGBA bytes of the pixel at `(x, y)`.
    pub fn get_pixel(&self, x: u32, y: u32) -> (r: [u8; 4])
        requires
            self@.wf(),
            x < self@.width,
            y < self@.height,
        ensures
            r@ == self@.pixel(x as int, y as int),
    {
        let n = self.data.len();
        proof {
            lemma_row_major_index(x as int, y as int, self@.width as int, self@.height as int);
            assert(4 * (self@.width * self@.height) == self@.width * self@.height * 4)
                by (nonlinear_arith);
            assert(4 * (y * self@.width + x) + 4 <= n);
        }
        let base: usize = 4 * (y as usize * self.width as usize + x as usize);
        let r = [self.data[base], self.data[base + 1], self.data[base + 2], self.data[base + 3]];
        proof {
            assert(r@ =~= self@.pixel(x as int, y as int));
        }
        r
    }

    /// Read-only access to the raw RGBA buffer.
    pub fn as_buffer(&self) -> (r: &Vec<u8>)
        ensures
            r@ == self@.data,
    {
        &self.data
    }

    /// Takes the raw RGBA buffer out of the bitmap.
    pub fn into_buffer(self) -> (r: Vec<u8>)
        ensures
            r@ == self@.data,
    {
        self.data
    }
}

impl PartialEq for ImageData {
    /// Two bitmaps are equal when their dimensions and every byte agree.
    fn eq(&self, other: &Self) -> (r: bool) {
        if self.width != other.width || self.height != other.height
            || self.data.len() != other.data.len() {
            return false;
        }
        let n = self.data.len();
        let mut i: usize = 0;
        while i < n
            invariant
                i <= n,
                n == self.data@.len(),
                n == other.data@.len(),
                forall|k: int| 0 <= k < i ==> self.data@[k] == other.data@[k],
            decreases n - i,
        {
            if self.data[i] != other.data[i] {
                return false;
            }
            i = i + 1;
        }
        proof {
            assert(self.data@ =~= other.data@);
        }
        true
    }
}

impl vstd::std_specs::cmp::PartialEqSpecImpl for ImageData {
    open spec fn obeys_eq_spec() -> bool {
        true
    }

    open spec fn eq_spec(&self, other: &Self) -> bool {
        self@ == other@
    }
}

} // verus!
