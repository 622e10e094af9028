use vstd::prelude::*;
use vstd::arithmetic::div_mod::lemma_fundamental_div_mod_converse;

verus! {

/// Dimensions of the rendered image, in pixels.
pub struct Image {
    height: u32,
    width: u32,
}

impl Image {
    pub closed spec fn spec_width(&self) -> u32 {
        self.width
    }

    pub closed spec fn spec_height(&self) -> u32 {
        self.height
    }

    pub fn new(width: u32, height: u32) -> (r: Image)
        ensures
            r.spec_width() == width,
            r.spec_height() == height,
    {
        Image { height, width }
    }

    pub fn height(&self) -> (r: u32)
        ensures
            r == self.spec_height(),
    {
        self.height
    }

    pub fn width(&self) -> (r: u32)
        ensures
            r == self.spec_width(),
    {
        self.width
    }

    /// The `k`-th pixel written, as (column, row) with row 0 at the bottom:
    /// rows go from the top down, and each row from left to right.
    pub open spec fn pixel_of(&self, k: int) -> (int, int) {
        (k % self.spec_width() as int, self.spec_height() - 1 - k / self.spec_width() as int)
    }

    /// The position in the output of the pixel at (column, row).
    pub open spec fn index_of(&self, col: int, row: int) -> int {
        (self.spec_height() - 1 - row) * self.spec_width() + col
    }

    pub fn pixel_count(&self) -> (r: u64)
        ensures
            r == self.spec_width() * self.spec_height(),
    {
        let w = self.width as u64;
        let h = self.height as u64;
        assert(w * h <= u32::MAX as u64 * u32::MAX as u64) by (nonlinear_arith)
            requires
                w <= u32::MAX,
                h <= u32::MAX,
        ;
        w * h
    }

    /// Column and row of the `k`-th pixel in output order.
    pub fn pixel_at(&self, k: u64) -> (r: (u32, u32))
        requires
            k < self.spec_width() * self.spec_height(),
        ensures
            r.0 as int == self.pixel_of(k as int).0,
            r.1 as int == self.pixel_of(k as int).1,
    {
        let w = self.width as u64;
        let h = self.height as u64;
        assert(w > 0) by (nonlinear_arith)
            requires
                k < w * h,
        ;
        assert(k / w < h) by (nonlinear_arith)
            requires
                k < w * h,
                w > 0,
        ;
        let col = (k % w) as u32;
        let row = (h - 1 - k / w) as u32;
        (col, row)
    }
}

/// The output order visits every pixel of the image exactly once: each
/// position names a pixel inside the image, and each pixel is named by
/// exactly the position computed for it.
pub proof fn lemma_scan_order(image: Image, k: int, col: int, row: int)
    requires
        image.spec_width() > 0,
    ensures
        0 <= k < image.spec_width() * image.spec_height() ==> {
            let (c, r) = image.pixel_of(k);
            &&& 0 <= c < image.spec_width()
            &&& 0 <= r < image.spec_height()
            &&& image.index_of(c, r) == k
        },
        0 <= col < image.spec_width() && 0 <= row < image.spec_height() ==> {
            let i = image.index_of(col, row);
            &&& 0 <= i < image.spec_width() * image.spec_height()
            &&& image.pixel_of(i) == (col, row)
        },
{
    let w = image.spec_width() as int;
    let h = image.spec_height() as int;
    if 0 <= k < w * h {
        assert(0 <= k / w < h) by (nonlinear_arith)
            requires
                0 <= k < w * h,
                w > 0,
        ;
        assert(k == (k / w) * w + k % w) by (nonlinear_arith)
            requires
                w > 0,
        ;
    }
    if 0 <= col < w && 0 <= row < h {
        let q = h - 1 - row;
        assert(0 <= q * w + col < w * h) by (nonlinear_arith)
            requires
                0 <= q < h,
                0 <= col < w,
        ;
        lemma_fundamental_div_mod_converse(q * w + col, w, q, col);
    }
}

} // verus!
