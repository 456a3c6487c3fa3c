use vstd::prelude::*;

verus! {

/// One channel of a canvas pixel, read from the flat row-major RGBA buffer.
/// `ch` is 0 for red, 1 for green, 2 for blue, 3 for alpha.
pub open spec fn px(pixels: Seq<u8>, width: int, x: int, y: int, ch: int) -> u8 {
    pixels[4 * (y * width + x) + ch]
}

/// A full-size RGBA raster: four bytes per pixel, row-major, with fixed
/// dimensions for the whole animation.
#[derive(Debug)]
pub struct Canvas {
    pub width: u16,
    pub height: u16,
    pub pixels: Vec<u8>,
}

impl Canvas {
    /// The buffer holds exactly four bytes for each pixel of the raster.
    pub open spec fn wf(&self) -> bool {
        self.pixels@.len() == 4 * (self.width as int) * (self.height as int)
    }

    pub open spec fn spec_channel(&self, x: int, y: int, ch: int) -> u8 {
        px(self.pixels@, self.width as int, x, y, ch)
    }

    /// A fully transparent black canvas of the given dimensions.
    pub fn new(width: u16, height: u16) -> (r: Canvas)
        requires
            4 * (width as int) * (height as int) <= usize::MAX,
        ensures
            r.wf(),
            r.width == width,
            r.height == height,
            forall|i: int| 0 <= i < r.pixels@.len() ==> r.pixels@[i] == 0u8,
    {
        let n: usize = 4 * (width as usize) * (height as usize);
        let mut pixels: Vec<u8> = Vec::new();
        let mut i: usize = 0;
        while i < n
            invariant
                i <= n,
                pixels@.len() == i,
                forall|j: int| 0 <= j < i ==> pixels@[j] == 0u8,
            decreases n - i,
        {
            pixels.push(0u8);
            i = i + 1;
        }
        Canvas { width, height, pixels }
    }

    /// Reads the four channels of the pixel at `(x, y)`.
    pub fn get_pixel(&self, x: u16, y: u16) -> (r: (u8, u8, u8, u8))
        requires
            self.wf(),
            x < self.width,
            y < self.height,
        ensures
            r.0 == self.spec_channel(x as int, y as int, 0),
            r.1 == self.spec_channel(x as int, y as int, 1),
            r.2 == self.spec_channel(x as int, y as int, 2),
            r.3 == self.spec_channel(x as int, y as int, 3),
    {
        let _buf_len: usize = self.pixels.len();
        proof {
            lemma_pixel_index_in_bounds(
                self.width as int,
                self.height as int,
                x as int,
                y as int,
            );
        }
        let base: usize = 4 * ((y as usize) * (self.width as usize) + (x as usize));
        (
            self.pixels[base],
            self.pixels[base + 1],
            self.pixels[base + 2],
            self.pixels[base + 3],
        )
    }

    /// Overwrites the four channels of the pixel at `(x, y)`, leaving every
    /// other byte of the buffer unchanged.
    pub fn set_pixel(&mut self, x: u16, y: u16, r: u8, g: u8, b: u8, a: u8)
        requires
            old(self).wf(),
            x < old(self).width,
            y < old(self).height,
        ensures
            final(self).wf(),
            final(self).width == old(self).width,
            final(self).height == old(self).height,
            final(self).pixels@ == old(self).pixels@
                .update(4 * ((y as int) * (old(self).width as int) + (x as int)), r)
                .update(4 * ((y as int) * (old(self).width as int) + (x as int)) + 1, g)
                .update(4 * ((y as int) * (old(self).width as int) + (x as int)) + 2, b)
                .update(4 * ((y as int) * (old(self).width as int) + (x as int)) + 3, a),
    {
        let _buf_len: usize = self.pixels.len();
        proof {
            lemma_pixel_index_in_bounds(
                self.width as int,
                self.height as int,
                x as int,
                y as int,
            );
        }
        let base: usize = 4 * ((y as usize) * (self.width as usize) + (x as usize));
        self.pixels.set(base, r);
        self.pixels.set(base + 1, g);
        self.pixels.set(base + 2, b);
        self.pixels.set(base + 3, a);
    }
}

/// Distinct pixel positions of one raster occupy disjoint byte ranges.
pub proof fn lemma_pixel_index_injective(width: int, x1: int, y1: int, x2: int, y2: int)
    requires
        0 <= x1 < width,
        0 <= x2 < width,
        0 <= y1,
        0 <= y2,
        !(x1 == x2 && y1 == y2),
    ensures
        y1 * width + x1 != y2 * width + x2,
{
    if y1 == y2 {
    } else {
        assert(y1 * width + x1 != y2 * width + x2) by (nonlinear_arith)
            requires
                0 <= x1 < width,
                0 <= x2 < width,
                y1 != y2,
        ;
    }
}

/// After `set_pixel` at `(x, y)`, that pixel holds the four written channel
/// values and every other pixel of the raster reads as before.
pub proof fn lemma_set_pixel_px(
    old_pixels: Seq<u8>,
    new_pixels: Seq<u8>,
    width: int,
    height: int,
    x: int,
    y: int,
    r: u8,
    g: u8,
    b: u8,
    a: u8,
)
    requires
        old_pixels.len() == 4 * width * height,
        0 <= x < width,
        0 <= y < height,
        new_pixels == old_pixels
            .update(4 * (y * width + x), r)
            .update(4 * (y * width + x) + 1, g)
            .update(4 * (y * width + x) + 2, b)
            .update(4 * (y * width + x) + 3, a),
    ensures
        px(new_pixels, width, x, y, 0) == r,
        px(new_pixels, width, x, y, 1) == g,
        px(new_pixels, width, x, y, 2) == b,
        px(new_pixels, width, x, y, 3) == a,
        forall|x2: int, y2: int, ch2: int|
            0 <= x2 < width && 0 <= y2 < height && 0 <= ch2 < 4 && !(x2 == x && y2 == y)
                ==> #[trigger] px(new_pixels, width, x2, y2, ch2)
                    == px(old_pixels, width, x2, y2, ch2),
{
    lemma_pixel_index_in_bounds(width, height, x, y);
    assert forall|x2: int, y2: int, ch2: int|
        0 <= x2 < width && 0 <= y2 < height && 0 <= ch2 < 4 && !(x2 == x && y2 == y)
            implies #[trigger] px(new_pixels, width, x2, y2, ch2)
                == px(old_pixels, width, x2, y2, ch2) by {
        lemma_pixel_index_in_bounds(width, height, x2, y2);
        lemma_pixel_index_injective(width, x, y, x2, y2);
        let p1: int = y * width + x;
        let p2: int = y2 * width + x2;
        assert(4 * p2 + ch2 < 4 * p1 || 4 * p2 + ch2 > 4 * p1 + 3);
    }
}

/// The flat index of a pixel's last channel stays inside a well-formed buffer.
pub proof fn lemma_pixel_index_in_bounds(width: int, height: int, x: int, y: int)
    requires
        0 <= x < width,
        0 <= y < height,
    ensures
        4 * (y * width + x) + 3 < 4 * width * height,
{
    let p: int = y * width + x;
    let q: int = width * height;
    assert(p < q) by (nonlinear_arith)
        requires
            0 <= x < width,
            0 <= y < height,
            p == y * width + x,
            q == width * height,
    ;
    assert(4 * width * height == 4 * q) by (nonlinear_arith)
        requires
            q == width * height,
    ;
}

} // verus!
