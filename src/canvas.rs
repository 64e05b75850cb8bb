use vstd::prelude::*;
use crate::layout::{cell, fill_row_major, lemma_row_major};

verus! {

/// A pixel as three 8-bit channels.
#[derive(Debug, Clone, Copy, PartialEq, Eq, Structural)]
pub struct Rgb8 {
    pub r: u8,
    pub g: u8,
    pub b: u8,
}

impl Rgb8 {
    pub fn new(r: u8, g: u8, b: u8) -> (c: Rgb8)
        ensures
            c == (Rgb8 { r, g, b }),
    {
        Rgb8 { r, g, b }
    }
}

/// Where a requested coordinate lands: coordinates past the last row or
/// column are held at the last one.
pub open spec fn clamp(v: int, size: int) -> int {
    if v < size - 1 {
        v
    } else {
        size - 1
    }
}

/// A grid of `width` columns and `height` rows of pixels, stored row by row:
/// the pixel at column `x`, row `y` sits at position `y * width + x`.
///
/// This is the pixel sink that rendering fills; the pixel type is left open.
#[derive(Debug, Clone, PartialEq)]
pub struct Canvas<P> {
    width: usize,
    height: usize,
    pixels: Vec<P>,
}

impl<P> Canvas<P> {
    /// There are exactly `width * height` pixels.
    pub closed spec fn wf(&self) -> bool {
        self.pixels.len() == self.width * self.height
    }

    pub closed spec fn spec_width(&self) -> nat {
        self.width as nat
    }

    pub closed spec fn spec_height(&self) -> nat {
        self.height as nat
    }

    /// The pixels, row by row.
    pub closed spec fn view(&self) -> Seq<P> {
        self.pixels@
    }

    /// Position of the pixel at column `x`, row `y`.
    pub open spec fn spec_index(&self, x: int, y: int) -> int {
        y * self.spec_width() + x
    }

    /// The pixel at column `x`, row `y`.
    pub open spec fn pixel(&self, x: int, y: int) -> P {
        cell(self@, self.spec_width() as int, y, x)
    }

    pub fn width(&self) -> (r: usize)
        ensures
            r == self.spec_width(),
    {
        self.width
    }

    pub fn height(&self) -> (r: usize)
        ensures
            r == self.spec_height(),
    {
        self.height
    }
}

impl<P> Canvas<P> {
    /// A canvas of `width` columns and `height` rows whose pixel at column
    /// `x`, row `y` is `f(x, y)`.
    ///
    /// This is the render loop: each coordinate is visited exactly once,
    /// row by row, and its value written at that coordinate.
    pub fn from_fn<F: Fn(usize, usize) -> P>(width: usize, height: usize, f: F) -> (r: Canvas<P>)
        requires
            width * height <= usize::MAX,
            forall|x: usize, y: usize| x < width && y < height ==> #[trigger] f.requires((x, y)),
        ensures
            r.wf(),
            r.spec_width() == width,
            r.spec_height() == height,
            forall|x: int, y: int|
                0 <= x < width && 0 <= y < height ==> f.ensures(
                    (x as usize, y as usize),
                    #[trigger] r.pixel(x, y),
                ),
    {
        let g = &f;
        let at = |y: usize, x: usize| -> (p: P)
            requires
                x < width,
                y < height,
            ensures
                g.ensures((x, y), p),
            { g(x, y) };
        let pixels = fill_row_major(height, width, at);
        proof {
            assert(height * width == width * height) by (nonlinear_arith);
        }
        Canvas { width, height, pixels }
    }

    /// Position of the pixel that the coordinate `(x, y)` stands for;
    /// coordinates past the last column or row are held at the last one.
    pub fn pixel_idx(&self, x: usize, y: usize) -> (r: usize)
        requires
            self.wf(),
            self.spec_width() >= 1,
            self.spec_height() >= 1,
        ensures
            r == self.spec_index(
                clamp(x as int, self.spec_width() as int),
                clamp(y as int, self.spec_height() as int),
            ),
            r < self@.len(),
    {
        let col: usize = if x < self.width - 1 {
            x
        } else {
            self.width - 1
        };
        let row: usize = if y < self.height - 1 {
            y
        } else {
            self.height - 1
        };
        proof {
            lemma_row_major(row as int, col as int, self.height as int, self.width as int);
            assert(self.height * self.width == self.width * self.height) by (nonlinear_arith);
        }
        row * self.width + col
    }

    /// Makes the pixel that the coordinate `(x, y)` stands for equal to `p`
    /// (see [`Canvas::pixel_idx`]); every other pixel keeps its value.
    pub fn set(&mut self, x: usize, y: usize, p: P)
        requires
            old(self).wf(),
            old(self).spec_width() >= 1,
            old(self).spec_height() >= 1,
        ensures
            final(self).wf(),
            final(self).spec_width() == old(self).spec_width(),
            final(self).spec_height() == old(self).spec_height(),
            final(self)@ == old(self)@.update(
                old(self).spec_index(
                    clamp(x as int, old(self).spec_width() as int),
                    clamp(y as int, old(self).spec_height() as int),
                ),
                p,
            ),
    {
        let k = self.pixel_idx(x, y);
        self.pixels.set(k, p);
    }
}

impl<P: Copy> Canvas<P> {
    /// A canvas of `width` columns and `height` rows, every pixel `fill`.
    pub fn new(width: usize, height: usize, fill: P) -> (r: Canvas<P>)
        requires
            width * height <= usize::MAX,
        ensures
            r.wf(),
            r.spec_width() == width,
            r.spec_height() == height,
            r@.len() == width * height,
            forall|i: int| 0 <= i < r@.len() ==> #[trigger] r@[i] == fill,
    {
        let n = width * height;
        let mut pixels: Vec<P> = Vec::new();
        let mut i: usize = 0;
        while i < n
            invariant
                i <= n,
                pixels@.len() == i,
                forall|k: int| 0 <= k < i ==> #[trigger] pixels@[k] == fill,
            decreases n - i,
        {
            pixels.push(fill);
            i = i + 1;
        }
        Canvas { width, height, pixels }
    }

    /// The pixel that the coordinate `(x, y)` stands for (see
    /// [`Canvas::pixel_idx`]).
    pub fn get(&self, x: usize, y: usize) -> (r: P)
        requires
            self.wf(),
            self.spec_width() >= 1,
            self.spec_height() >= 1,
        ensures
            r == self.pixel(
                clamp(x as int, self.spec_width() as int),
                clamp(y as int, self.spec_height() as int),
            ),
    {
        let k = self.pixel_idx(x, y);
        self.pixels[k]
    }

    /// Makes every pixel equal to `p`.
    pub fn backgound(&mut self, p: P)
        requires
            old(self).wf(),
        ensures
            final(self).wf(),
            final(self).spec_width() == old(self).spec_width(),
            final(self).spec_height() == old(self).spec_height(),
            final(self)@.len() == old(self)@.len(),
            forall|i: int| 0 <= i < final(self)@.len() ==> #[trigger] final(self)@[i] == p,
    {
        let n = self.pixels.len();
        let mut i: usize = 0;
        while i < n
            invariant
                self.wf(),
                self.width == old(self).width,
                self.height == old(self).height,
                n == self.pixels@.len(),
                i <= n,
                forall|k: int| 0 <= k < i ==> #[trigger] self.pixels@[k] == p,
            decreases n - i,
        {
            self.pixels.set(i, p);
            i = i + 1;
        }
    }

    /// The canvas of the same size whose pixels are `f` of the pixels of
    /// `self`, each at its own position.
    pub fn map<Q, F: Fn(P) -> Q>(&self, f: F) -> (r: Canvas<Q>)
        requires
            self.wf(),
            forall|p: P| #[trigger] f.requires((p,)),
        ensures
            r.wf(),
            r.spec_width() == self.spec_width(),
            r.spec_height() == self.spec_height(),
            r@.len() == self@.len(),
            forall|i: int| 0 <= i < self@.len() ==> f.ensures((self@[i],), #[trigger] r@[i]),
    {
        let n = self.pixels.len();
        let mut out: Vec<Q> = Vec::new();
        let mut i: usize = 0;
        while i < n
            invariant
                n == self.pixels@.len(),
                i <= n,
                out@.len() == i,
                forall|p: P| #[trigger] f.requires((p,)),
                forall|k: int| 0 <= k < i ==> f.ensures((self.pixels@[k],), #[trigger] out@[k]),
            decreases n - i,
        {
            let q = f(self.pixels[i]);
            out.push(q);
            i = i + 1;
        }
        Canvas { width: self.width, height: self.height, pixels: out }
    }
}

/// Pixel `i` of `pixels` occupies bytes `3 * i` (red), `3 * i + 1` (green)
/// and `3 * i + 2` (blue) of `raw`, which holds nothing else.
pub open spec fn is_raw_rgb(raw: Seq<u8>, pixels: Seq<Rgb8>) -> bool {
    &&& raw.len() == 3 * pixels.len()
    &&& forall|i: int|
        0 <= i < pixels.len() ==> {
            &&& raw[3 * i] == (#[trigger] pixels[i]).r
            &&& raw[3 * i + 1] == pixels[i].g
            &&& raw[3 * i + 2] == pixels[i].b
        }
}

impl Canvas<Rgb8> {
    /// The pixels as a flat buffer of bytes, three per pixel (red, green,
    /// blue), row by row: the layout that image encoders take.
    pub fn to_raw_buffer(&self) -> (r: Vec<u8>)
        ensures
            is_raw_rgb(r@, self@),
    {
        let n = self.pixels.len();
        let mut out: Vec<u8> = Vec::new();
        let mut i: usize = 0;
        while i < n
            invariant
                n == self.pixels@.len(),
                i <= n,
                is_raw_rgb(out@, self.pixels@.subrange(0, i as int)),
            decreases n - i,
        {
            let p = self.pixels[i];
            out.push(p.r);
            out.push(p.g);
            out.push(p.b);
            i = i + 1;
            proof {
                let done = self.pixels@.subrange(0, i as int);
                assert forall|k: int| 0 <= k < done.len() implies {
                    &&& out@[3 * k] == (#[trigger] done[k]).r
                    &&& out@[3 * k + 1] == done[k].g
                    &&& out@[3 * k + 2] == done[k].b
                } by {
                    if k < i - 1 {
                        assert(done[k] == self.pixels@.subrange(0, i - 1)[k]);
                    }
                }
            }
        }
        proof {
            assert(self.pixels@.subrange(0, n as int) =~= self.pixels@);
        }
        out
    }
}

} // verus!
