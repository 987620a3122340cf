use vstd::prelude::*;

use crate::color::{background, spec_background, Rgba8};

verus! {

/// Where pixel (x, y) of a raster `width` pixels wide sits in row-major order.
pub open spec fn spec_index(width: int, x: int, y: int) -> int {
    y * width + x
}

/// A pixel in a `width` by `height` raster has its row-major index inside
/// the `width * height` pixels.
pub proof fn lemma_index_in_bounds(width: int, height: int, x: int, y: int)
    requires
        0 <= x < width,
        0 <= y < height,
    ensures
        0 <= spec_index(width, x, y) < width * height,
{
    assert(0 <= y * width + x < width * height) by (nonlinear_arith)
        requires
            0 <= x < width,
            0 <= y < height,
    ;
}

/// Two distinct pixels of a raster have distinct row-major indices.
pub proof fn lemma_index_injective(width: int, x1: int, y1: int, x2: int, y2: int)
    requires
        0 <= x1 < width,
        0 <= x2 < width,
        0 <= y1,
        0 <= y2,
        spec_index(width, x1, y1) == spec_index(width, x2, y2),
    ensures
        x1 == x2,
        y1 == y2,
{
    assert(y1 == y2) by (nonlinear_arith)
        requires
            0 <= x1 < width,
            0 <= x2 < width,
            0 <= y1,
            0 <= y2,
            y1 * width + x1 == y2 * width + x2,
    ;
}

/// A `width` by `height` grid of pixels, stored row by row with (0, 0) at the
/// top left.
pub struct Raster {
    width: u32,
    height: u32,
    pixels: Vec<Rgba8>,
}

impl Raster {
    /// Number of columns.
    pub closed spec fn spec_width(&self) -> nat {
        self.width as nat
    }

    /// Number of rows.
    pub closed spec fn spec_height(&self) -> nat {
        self.height as nat
    }

    /// The pixels in row-major order.
    pub closed spec fn view(&self) -> Seq<Rgba8> {
        self.pixels@
    }

    /// Every pixel of the grid is stored, and no other.
    pub open spec fn wf(&self) -> bool {
        self@.len() == self.spec_width() * self.spec_height()
    }

    /// The pixel in column `x` of row `y`.
    pub open spec fn spec_pixel(&self, x: int, y: int) -> Rgba8 {
        self@[spec_index(self.spec_width() as int, x, y)]
    }

    /// Whether (x, y) lies inside the grid.
    pub open spec fn spec_contains(&self, x: int, y: int) -> bool {
        0 <= x < self.spec_width() && 0 <= y < self.spec_height()
    }

    /// A raster whose every pixel is the background.
    pub fn new(width: u32, height: u32) -> (r: Raster)
        requires
            width as int * height as int <= usize::MAX,
        ensures
            r.wf(),
            r.spec_width() == width,
            r.spec_height() == height,
            forall|x: int, y: int| r.spec_contains(x, y) ==> #[trigger] r.spec_pixel(x, y) == spec_background(),
    {
        let n: usize = (width as usize) * (height as usize);
        let fill = background();
        let mut pixels: Vec<Rgba8> = Vec::new();
        let mut i: usize = 0;
        while i < n
            invariant
                i <= n,
                pixels@.len() == i,
                fill == spec_background(),
                forall|j: int| 0 <= j < i ==> #[trigger] pixels@[j] == spec_background(),
            decreases n - i,
        {
            pixels.push(fill);
            i = i + 1;
        }
        let r = Raster { width, height, pixels };
        assert forall|x: int, y: int| r.spec_contains(x, y) implies #[trigger] r.spec_pixel(x, y) == spec_background() by {
            lemma_index_in_bounds(width as int, height as int, x, y);
        }
        r
    }

    /// A raster holding the given pixels, row by row.
    pub fn from_pixels(width: u32, height: u32, pixels: Vec<Rgba8>) -> (r: Raster)
        requires
            pixels@.len() == width as int * height as int,
        ensures
            r.wf(),
            r.spec_width() == width,
            r.spec_height() == height,
            r@ == pixels@,
    {
        Raster { width, height, pixels }
    }

    /// Number of columns.
    pub fn width(&self) -> (w: u32)
        ensures
            w == self.spec_width(),
    {
        self.width
    }

    /// Number of rows.
    pub fn height(&self) -> (h: u32)
        ensures
            h == self.spec_height(),
    {
        self.height
    }

    /// The pixels, row by row.
    pub fn pixels(&self) -> (p: &Vec<Rgba8>)
        ensures
            p@ == self@,
    {
        &self.pixels
    }

    /// Row-major position of (x, y).
    fn index(&self, x: u32, y: u32) -> (i: usize)
        requires
            self.wf(),
            self.spec_contains(x as int, y as int),
        ensures
            i == spec_index(self.spec_width() as int, x as int, y as int),
            i < self@.len(),
    {
        let n = self.pixels.len();
        proof {
            lemma_index_in_bounds(self.width as int, self.height as int, x as int, y as int);
            assert(y as int * self.width as int <= y as int * self.width as int + x as int);
            assert((y as int) * (self.width as int) + (x as int) < n);
        }
        (y as usize) * (self.width as usize) + (x as usize)
    }

    /// The pixel in column `x` of row `y`.
    pub fn get_pixel(&self, x: u32, y: u32) -> (p: Rgba8)
        requires
            self.wf(),
            self.spec_contains(x as int, y as int),
        ensures
            p == self.spec_pixel(x as int, y as int),
    {
        let i = self.index(x, y);
        self.pixels[i]
    }

    /// Writes the pixel in column `x` of row `y`, leaving every other pixel
    /// as it was.
    pub fn put_pixel(&mut self, x: u32, y: u32, p: Rgba8)
        requires
            old(self).wf(),
            old(self).spec_contains(x as int, y as int),
        ensures
            final(self).wf(),
            final(self).spec_width() == old(self).spec_width(),
            final(self).spec_height() == old(self).spec_height(),
            final(self).spec_pixel(x as int, y as int) == p,
            forall|u: int, v: int|
                old(self).spec_contains(u, v) && !(u == x && v == y) ==> #[trigger] final(self).spec_pixel(u, v)
                    == old(self).spec_pixel(u, v),
    {
        let i = self.index(x, y);
        self.pixels.set(i, p);
        proof {
            assert forall|u: int, v: int|
                old(self).spec_contains(u, v) && !(u == x && v == y) implies #[trigger] self.spec_pixel(u, v)
                    == old(self).spec_pixel(u, v) by {
                lemma_index_in_bounds(self.width as int, self.height as int, u, v);
                if spec_index(self.width as int, u, v) == i as int {
                    lemma_index_injective(self.width as int, u, v, x as int, y as int);
                }
            }
        }
    }
}

} // verus!
