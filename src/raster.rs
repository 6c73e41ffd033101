//! An RGBA raster held row by row, one `[u8; 4]` per pixel.

use vstd::prelude::*;

verus! {

/// What a raster is: its size and its pixels, row by row.
pub ghost struct RasterModel {
    pub width: nat,
    pub height: nat,
    pub pixels: Seq<[u8; 4]>,
}

/// The pixel at column `x` and row `y`, as its four channels.
pub open spec fn pixel_at(m: RasterModel, x: int, y: int) -> Seq<u8> {
    m.pixels[y * m.width + x]@
}

/// An RGBA raster of `width` by `height` pixels.
pub struct Raster {
    width: u32,
    height: u32,
    pixels: Vec<[u8; 4]>,
}

impl View for Raster {
    type V = RasterModel;

    closed spec fn view(&self) -> RasterModel {
        RasterModel { width: self.width as nat, height: self.height as nat, pixels: self.pixels@ }
    }
}

proof fn lemma_index_in_range(w: nat, h: nat, x: nat, y: nat)
    requires
        x < w,
        y < h,
    ensures
        y * w + x < w * h,
{
    assert(y * w + x < w * h) by (nonlinear_arith)
        requires
            x < w,
            y < h,
    ;
}

proof fn lemma_u32_product(a: nat, b: nat)
    requires
        a <= u32::MAX,
        b <= u32::MAX,
    ensures
        a * b <= u32::MAX as nat * u32::MAX as nat,
{
    assert(a * b <= u32::MAX as nat * u32::MAX as nat) by (nonlinear_arith)
        requires
            a <= u32::MAX,
            b <= u32::MAX,
    ;
}

proof fn lemma_index_distinct(w: nat, x: nat, y: nat, x2: nat, y2: nat)
    requires
        x < w,
        x2 < w,
        x != x2 || y != y2,
    ensures
        y * w + x != y2 * w + x2,
{
    if y * w + x == y2 * w + x2 {
        vstd::arithmetic::div_mod::lemma_fundamental_div_mod_converse(
            (y * w + x) as int,
            w as int,
            y as int,
            x as int,
        );
        vstd::arithmetic::div_mod::lemma_fundamental_div_mod_converse(
            (y2 * w + x2) as int,
            w as int,
            y2 as int,
            x2 as int,
        );
    }
}

impl Raster {
    /// The pixel count matches the size and fits in `usize`, and the size
    /// fits in `u32`.
    pub open spec fn wf(&self) -> bool {
        &&& self@.pixels.len() == self@.width * self@.height
        &&& self@.pixels.len() <= usize::MAX
        &&& self@.width <= u32::MAX
        &&& self@.height <= u32::MAX
    }

    /// A raster of the given size with every pixel fully transparent black.
    pub fn new(width: u32, height: u32) -> (r: Raster)
        requires
            width as nat * height as nat <= usize::MAX,
        ensures
            r.wf(),
            r@.width == width,
            r@.height == height,
            forall|i: int| 0 <= i < r@.pixels.len() ==> r@.pixels[i]@ == seq![0u8, 0, 0, 0],
    {
        proof {
            lemma_u32_product(width as nat, height as nat);
        }
        let n: usize = (width as u64 * height as u64) as usize;
        let mut pixels: Vec<[u8; 4]> = Vec::new();
        let mut i: usize = 0;
        while i < n
            invariant
                i <= n,
                pixels@.len() == i,
                forall|j: int| 0 <= j < i ==> pixels@[j]@ == seq![0u8, 0, 0, 0],
            decreases n - i,
        {
            pixels.push([0u8; 4]);
            i = i + 1;
        }
        Raster { width, height, pixels }
    }

    /// A raster of the given size over the given pixels, row by row; `None`
    /// where their count is not `width * height`.
    pub fn from_pixels(width: u32, height: u32, pixels: Vec<[u8; 4]>) -> (r: Option<Raster>)
        ensures
            r.is_some() <==> pixels@.len() == width as nat * height as nat,
            r.is_some() ==> r.unwrap().wf() && r.unwrap()@ == (RasterModel {
                width: width as nat,
                height: height as nat,
                pixels: pixels@,
            }),
    {
        proof {
            lemma_u32_product(width as nat, height as nat);
        }
        if width as u64 * height as u64 == pixels.len() as u64 {
            Some(Raster { width, height, pixels })
        } else {
            None
        }
    }

    pub fn width(&self) -> (r: u32)
        ensures
            r == self@.width,
    {
        self.width
    }

    pub fn height(&self) -> (r: u32)
        ensures
            r == self@.height,
    {
        self.height
    }

    /// The pixels, row by row.
    pub fn pixels(&self) -> (r: &Vec<[u8; 4]>)
        ensures
            r@ == self@.pixels,
    {
        &self.pixels
    }

    /// The pixel at column `x` and row `y`.
    pub fn get_pixel(&self, x: u32, y: u32) -> (r: [u8; 4])
        requires
            self.wf(),
            x < self@.width,
            y < self@.height,
        ensures
            r@ == pixel_at(self@, x as int, y as int),
    {
        proof {
            lemma_index_in_range(self.width as nat, self.height as nat, x as nat, y as nat);
            lemma_u32_product(y as nat, self.width as nat);
        }
        let i: usize = (y as u64 * self.width as u64 + x as u64) as usize;
        assert(i as int == y as int * self@.width + x as int);
        self.pixels[i]
    }

    /// Replaces the pixel at column `x` and row `y`; every other pixel stays.
    pub fn put_pixel(&mut self, x: u32, y: u32, p: [u8; 4])
        requires
            old(self).wf(),
            x < old(self)@.width,
            y < old(self)@.height,
        ensures
            final(self).wf(),
            final(self)@.width == old(self)@.width,
            final(self)@.height == old(self)@.height,
            pixel_at(final(self)@, x as int, y as int) == p@,
            forall|x2: int, y2: int|
                0 <= x2 < old(self)@.width && 0 <= y2 < old(self)@.height && (x2 != x || y2
                    != y) ==> #[trigger] pixel_at(final(self)@, x2, y2) == pixel_at(
                    old(self)@,
                    x2,
                    y2,
                ),
    {
        proof {
            lemma_index_in_range(self.width as nat, self.height as nat, x as nat, y as nat);
            lemma_u32_product(y as nat, self.width as nat);
        }
        let i: usize = (y as u64 * self.width as u64 + x as u64) as usize;
        self.pixels.set(i, p);
        proof {
            assert forall|x2: int, y2: int|
                0 <= x2 < old(self)@.width && 0 <= y2 < old(self)@.height && (x2 != x || y2
                    != y) implies #[trigger] pixel_at(self@, x2, y2) == pixel_at(
                old(self)@,
                x2,
                y2,
            ) by {
                lemma_index_in_range(self.width as nat, self.height as nat, x2 as nat, y2 as nat);
                lemma_index_distinct(self.width as nat, x as nat, y as nat, x2 as nat, y2 as nat);
            }
        }
    }
}

} // verus!
