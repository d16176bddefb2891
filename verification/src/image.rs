use vstd::prelude::*;
use vstd::pervasive::VecAdditionalExecFns;
use crate::colour::Colour;

verus! {

/// A render target: a row-major buffer of colours, top row first,
/// created once per render, filled pixel by pixel and then handed to an
/// encoder.
#[derive(Clone, Debug)]
pub struct Image {
    pub width: usize,
    pub height: usize,
    pub pixels: Vec<Colour>,
}

impl Image {
    /// A well-formed image: positive dimensions, one colour per pixel.
    pub open spec fn wf(self) -> bool {
        &&& self.width > 0
        &&& self.height > 0
        &&& self.width * self.height <= usize::MAX
        &&& self.pixels@.len() == self.width * self.height
    }

    /// A fresh buffer of the given dimensions, every pixel the fill
    /// colour.
    pub fn new(width: usize, height: usize, fill: Colour) -> (r: Self)
        requires
            width > 0,
            height > 0,
            width * height <= usize::MAX,
        ensures
            r.width == width,
            r.height == height,
            r.wf(),
            forall|i: int| 0 <= i < width * height ==> r.pixels@[i] == fill,
    {
        let n = width * height;
        let mut pixels: Vec<Colour> = Vec::new();
        let mut i: usize = 0;
        while i < n
            invariant
                i <= n,
                pixels@.len() == i,
                forall|k: int| 0 <= k < i ==> pixels@[k] == fill,
            decreases n - i,
        {
            pixels.push(fill);
            i = i + 1;
        }
        Image { width, height, pixels }
    }

    /// The pixel at column `x` of row `y`.
    pub fn pixel(&self, x: usize, y: usize) -> (r: Colour)
        requires
            self.wf(),
            x < self.width,
            y < self.height,
        ensures
            r == self.pixels@[y * self.width + x],
    {
        proof {
            lemma_row_major_index(self.width as int, self.height as int, x as int, y as int);
        }
        self.pixels[y * self.width + x]
    }

    /// Replaces the pixel at column `x` of row `y`.
    pub fn set_pixel(&mut self, x: usize, y: usize, colour: Colour)
        requires
            old(self).wf(),
            x < old(self).width,
            y < old(self).height,
        ensures
            final(self).width == old(self).width,
            final(self).height == old(self).height,
            final(self).wf(),
            final(self).pixels@ == old(self).pixels@.update(
                y * old(self).width + x,
                colour,
            ),
    {
        proof {
            lemma_row_major_index(self.width as int, self.height as int, x as int, y as int);
        }
        let i = y * self.width + x;
        self.pixels.set(i, colour);
    }
}

/// A row-major pixel slot index stays inside the buffer.
proof fn lemma_row_major_index(width: int, height: int, x: int, y: int)
    requires
        0 <= x < width,
        0 <= y < height,
    ensures
        0 <= y * width + x < width * height,
{
    assert(0 <= y * width + x < width * height) by (nonlinear_arith)
        requires 0 <= x < width, 0 <= y < height;
}

/// Walks the pixel coordinates of an image in row-major order, yielding
/// column and row for each slot.
#[derive(Clone, Copy, Debug)]
pub struct PixelIterator {
    pub width: usize,
    pub height: usize,
    pub index: usize,
}

impl PixelIterator {
    /// A walk over all pixels of a `width` by `height` image.
    pub fn new(width: usize, height: usize) -> (r: Self)
        requires
            width > 0,
            height > 0,
            width * height <= usize::MAX,
        ensures
            r == (PixelIterator { width, height, index: 0usize }),
    {
        PixelIterator { width, height, index: 0 }
    }

    /// The next pixel's column and row, or nothing when the walk is done.
    pub fn next(&mut self) -> (r: Option<(usize, usize)>)
        requires
            old(self).width > 0,
            old(self).height > 0,
            old(self).width * old(self).height <= usize::MAX,
        ensures
            final(self).width == old(self).width,
            final(self).height == old(self).height,
            old(self).index >= old(self).width * old(self).height ==> r == None::<(
                usize,
                usize,
            )> && final(self).index == old(self).index,
            old(self).index < old(self).width * old(self).height ==> {
                &&& final(self).index == old(self).index + 1
                &&& r == Some(
                    (
                        (old(self).index % old(self).width) as usize,
                        (old(self).index / old(self).width) as usize,
                    ),
                )
            },
    {
        if self.index >= self.width * self.height {
            None
        } else {
            let index = self.index;
            self.index = index + 1;
            Some((index % self.width, index / self.width))
        }
    }
}

} // verus!
