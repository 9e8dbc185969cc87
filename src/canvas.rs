//! A rectangular grid of pixels, stored row by row.

use vstd::prelude::*;

verus! {

/// `y * width + x` lies below `width * height` for a pixel inside the grid.
proof fn lemma_index_in_grid(x: int, y: int, width: int, height: int)
    requires
        0 <= x < width,
        0 <= y < height,
    ensures
        0 <= y * width + x < width * height,
        y * width + x < height * width,
        y * width + x < (y + 1) * width,
        y * width <= y * width + x,
{
    assert(y * width + x < (y + 1) * width) by (nonlinear_arith)
        requires x < width;
    assert((y + 1) * width <= width * height) by (nonlinear_arith)
        requires y + 1 <= height, 0 < width;
    assert(width * height == height * width) by (nonlinear_arith);
    assert(0 <= y * width) by (nonlinear_arith)
        requires 0 <= y, 0 < width;
}

/// A canvas of `width` by `height` pixels; the pixel at column `x` and row `y`
/// is `pixels[y * width + x]`.
#[derive(Clone, Debug, PartialEq)]
pub struct Canvas<P> {
    pub width: usize,
    pub height: usize,
    pub pixels: Vec<P>,
}

impl<P: Copy> Canvas<P> {
    /// The canvas holds one pixel for each column and row.
    pub open spec fn wf(&self) -> bool {
        &&& self.width * self.height <= usize::MAX
        &&& self.pixels@.len() == self.width * self.height
    }

    /// The pixel at column `x` and row `y`.
    pub open spec fn pixel(&self, x: int, y: int) -> P {
        self.pixels@[y * self.width + x]
    }

    /// A canvas of `width` by `height` pixels, each of them `background`.
    pub fn new(width: usize, height: usize, background: P) -> (r: Canvas<P>)
        requires
            width * height <= usize::MAX,
        ensures
            r.wf(),
            r.width == width,
            r.height == height,
            forall|i: int| 0 <= i < r.pixels@.len() ==> r.pixels@[i] == background,
    {
        let n: usize = width * height;
        let mut pixels: Vec<P> = Vec::new();
        let mut i: usize = 0;
        while i < n
            invariant
                i <= n,
                pixels@.len() == i,
                forall|j: int| 0 <= j < i ==> pixels@[j] == background,
            decreases n - i,
        {
            pixels.push(background);
            i += 1;
        }
        Canvas { width, height, pixels }
    }

    /// Sets the pixel at column `x` and row `y` to `color`.
    pub fn set_color_at(&mut self, x: usize, y: usize, color: P)
        requires
            old(self).wf(),
            x < old(self).width,
            y < old(self).height,
        ensures
            final(self).wf(),
            final(self).width == old(self).width,
            final(self).height == old(self).height,
            final(self).pixels@ == old(self).pixels@.update(y * old(self).width + x, color),
    {
        proof {
            lemma_index_in_grid(x as int, y as int, self.width as int, self.height as int);
        }
        let i = y * self.width + x;
        self.pixels.set(i, color);
    }

    /// The pixel at column `x` and row `y`.
    pub fn get_color_at(&self, x: usize, y: usize) -> (r: P)
        requires
            self.wf(),
            x < self.width,
            y < self.height,
        ensures
            r == self.pixel(x as int, y as int),
    {
        proof {
            lemma_index_in_grid(x as int, y as int, self.width as int, self.height as int);
        }
        self.pixels[y * self.width + x]
    }

    /// The canvas whose pixel at column `x` and row `y` is `color_at(x, y)`;
    /// the pixels are computed row by row, each row from left to right.
    pub fn from_fn<F: Fn(usize, usize) -> P>(width: usize, height: usize, color_at: F) -> (r: Canvas<P>)
        requires
            width * height <= usize::MAX,
            forall|x: usize, y: usize| x < width && y < height ==> color_at.requires((x, y)),
        ensures
            r.wf(),
            r.width == width,
            r.height == height,
            forall|x: usize, y: usize| x < width && y < height
                ==> color_at.ensures((x, y), #[trigger] r.pixel(x as int, y as int)),
    {
        let mut pixels: Vec<P> = Vec::new();
        let mut y: usize = 0;
        while y < height
            invariant
                y <= height,
                width * height <= usize::MAX,
                pixels@.len() == y * width,
                forall|x: usize, y: usize| x < width && y < height ==> color_at.requires((x, y)),
                forall|xx: usize, yy: usize| xx < width && yy < y
                    ==> color_at.ensures((xx, yy), #[trigger] pixels@[yy * width + xx]),
            decreases height - y,
        {
            let mut x: usize = 0;
            while x < width
                invariant
                    x <= width,
                    y < height,
                    width * height <= usize::MAX,
                    pixels@.len() == y * width + x,
                    forall|x: usize, y: usize| x < width && y < height ==> color_at.requires((x, y)),
                    forall|xx: usize, yy: usize| xx < width && yy < y
                        ==> color_at.ensures((xx, yy), #[trigger] pixels@[yy * width + xx]),
                    forall|xx: usize| xx < x
                        ==> color_at.ensures((xx, y), #[trigger] pixels@[y * width + xx]),
                decreases width - x,
            {
                let c = color_at(x, y);
                proof {
                    lemma_index_in_grid(x as int, y as int, width as int, height as int);
                    assert forall|xx: usize, yy: usize| xx < width && yy < y implies
                        #[trigger] pixels@.push(c)[yy * width + xx] == pixels@[yy * width + xx] by {
                        lemma_index_in_grid(xx as int, yy as int, width as int, y as int);
                    }
                }
                pixels.push(c);
                x += 1;
            }
            proof {
                assert((y + 1) * width == y * width + width) by (nonlinear_arith);
            }
            y += 1;
        }
        assert(height * width == width * height) by (nonlinear_arith);
        Canvas { width, height, pixels }
    }
}

} // verus!
