pub mod color;

pub use color::Color;
pub use color::ColorError;

use vstd::prelude::*;

verus! {

/// One cell of the canvas: either a computed color or still untouched.
#[derive(Clone, Copy, Debug, PartialEq, Eq, Structural)]
pub enum Pixel {
    Data(Color),
    Blank,
}

/// A pixel together with the coordinates it belongs to, the record a tracer
/// hands to a display sink.
#[derive(Clone, Copy, Debug, PartialEq, Eq, Structural)]
pub struct CoordPixel {
    pub pixel: Pixel,
    pub x: usize,
    pub y: usize,
}

/// A flat grid of pixels, written one pixel at a time and remembering whether
/// anything changed since it was last presented.
#[derive(Clone)]
pub struct Canvas {
    pub width: usize,
    pub height: usize,
    pub pixels: Vec<Pixel>,
    pub dirty: bool,
}

impl Canvas {
    /// The canvas holds one pixel for each of its coordinates.
    pub open spec fn wf(self) -> bool {
        self.pixels@.len() == self.width * self.height
    }

    /// What `get` returns: the pixel at `(x, y)`, and a blank for coordinates
    /// off the canvas.
    pub open spec fn spec_get(self, x: usize, y: usize) -> Pixel {
        if x >= self.width || y >= self.height {
            Pixel::Blank
        } else {
            self.pixels@[x + y * self.width]
        }
    }

    /// A blank canvas of the given size.
    pub fn new(width: usize, height: usize) -> (r: Canvas)
        requires
            width * height <= usize::MAX,
        ensures
            r.width == width,
            r.height == height,
            r.wf(),
            forall|x: usize, y: usize| r.spec_get(x, y) == Pixel::Blank,
            !r.dirty,
    {
        proof {
            lemma_grid_index_bound(width as int, height as int);
        }
        let n: usize = width * height;
        let mut pixels: Vec<Pixel> = Vec::new();
        let mut i: usize = 0;
        while i < n
            invariant
                i <= n,
                pixels@.len() == i,
                forall|j: int| 0 <= j < i ==> pixels@[j] == Pixel::Blank,
            decreases n - i,
        {
            pixels.push(Pixel::Blank);
            i = i + 1;
        }
        let r = Canvas { width, height, pixels, dirty: false };
        proof {
            assert forall|x: usize, y: usize| r.spec_get(x, y) == Pixel::Blank by {
                if x < width && y < height {
                    lemma_cell_index(x as int, y as int, width as int, height as int);
                }
            }
        }
        r
    }

    /// The pixel at `(x, y)`; coordinates off the canvas read as blank.
    pub fn get(&self, x: usize, y: usize) -> (r: Pixel)
        requires
            self.wf(),
        ensures
            r == self.spec_get(x, y),
    {
        if x >= self.width || y >= self.height {
            Pixel::Blank
        } else {
            let n: usize = self.pixels.len();
            proof {
                lemma_cell_index(x as int, y as int, self.width as int, self.height as int);
            }
            let index: usize = x + y * self.width;
            self.pixels[index]
        }
    }

    /// Store a color at `(x, y)` and report whether the cell changed; the
    /// dirty mark is raised on any change. Coordinates off the canvas change
    /// nothing.
    pub fn set(&mut self, x: usize, y: usize, c: Color) -> (changed: bool)
        requires
            old(self).wf(),
        ensures
            final(self).wf(),
            final(self).width == old(self).width,
            final(self).height == old(self).height,
            final(self).spec_get(x, y) == if x < old(self).width && y < old(self).height {
                Pixel::Data(c)
            } else {
                old(self).spec_get(x, y)
            },
            forall|i: usize, j: usize|
                !(i == x && j == y) ==> final(self).spec_get(i, j) == old(self).spec_get(i, j),
            changed == (x < old(self).width && y < old(self).height && old(self).spec_get(x, y)
                != Pixel::Data(c)),
            final(self).dirty == (old(self).dirty || changed),
    {
        if x >= self.width || y >= self.height {
            false
        } else {
            let n: usize = self.pixels.len();
            proof {
                lemma_cell_index(x as int, y as int, self.width as int, self.height as int);
            }
            let index: usize = x + y * self.width;
            let old_pixel = self.pixels[index];
            let new_pixel = Pixel::Data(c);
            if old_pixel != new_pixel {
                self.pixels.set(index, new_pixel);
                self.dirty = true;
                proof {
                    assert forall|i: usize, j: usize| !(i == x && j == y) implies self.spec_get(
                        i,
                        j,
                    ) == old(self).spec_get(i, j) by {
                        if i < self.width && j < self.height {
                            lemma_cell_index(i as int, j as int, self.width as int, self.height as int);
                            lemma_cell_index_ne(x as int, y as int, i as int, j as int, self.width as int);
                        }
                    }
                }
                true
            } else {
                false
            }
        }
    }

    /// Blank the cell at `(x, y)` and report whether it held a color; the
    /// dirty mark is raised on any change. Coordinates off the canvas change
    /// nothing.
    pub fn unset(&mut self, x: usize, y: usize) -> (changed: bool)
        requires
            old(self).wf(),
        ensures
            final(self).wf(),
            final(self).width == old(self).width,
            final(self).height == old(self).height,
            final(self).spec_get(x, y) == Pixel::Blank,
            forall|i: usize, j: usize|
                !(i == x && j == y) ==> final(self).spec_get(i, j) == old(self).spec_get(i, j),
            changed == (x < old(self).width && y < old(self).height && old(self).spec_get(x, y)
                != Pixel::Blank),
            final(self).dirty == (old(self).dirty || changed),
    {
        if x >= self.width || y >= self.height {
            false
        } else {
            let n: usize = self.pixels.len();
            proof {
                lemma_cell_index(x as int, y as int, self.width as int, self.height as int);
            }
            let index: usize = x + y * self.width;
            let old_pixel = self.pixels[index];
            if old_pixel != Pixel::Blank {
                self.pixels.set(index, Pixel::Blank);
                self.dirty = true;
                proof {
                    assert forall|i: usize, j: usize| !(i == x && j == y) implies self.spec_get(
                        i,
                        j,
                    ) == old(self).spec_get(i, j) by {
                        if i < self.width && j < self.height {
                            lemma_cell_index(i as int, j as int, self.width as int, self.height as int);
                            lemma_cell_index_ne(x as int, y as int, i as int, j as int, self.width as int);
                        }
                    }
                }
                true
            } else {
                false
            }
        }
    }
}

/// The size of a drawing surface, read once before tracing begins.
pub struct Context {
    pub width: usize,
    pub height: usize,
}

impl Context {
    pub fn new(width: usize, height: usize) -> (r: Context)
        ensures
            r.width == width,
            r.height == height,
    {
        Context { width, height }
    }
}

/// A grid index stays within the grid's cell count.
proof fn lemma_grid_index_bound(w: int, h: int)
    requires
        w >= 0,
        h >= 0,
    ensures
        w * h >= 0,
{
    assert(w * h >= 0) by (nonlinear_arith)
        requires
            w >= 0,
            h >= 0,
    ;
}

/// The flat index of an in-range cell lands inside the pixel row.
proof fn lemma_cell_index(x: int, y: int, w: int, h: int)
    requires
        0 <= x < w,
        0 <= y < h,
    ensures
        0 <= y * w,
        0 <= x + y * w < w * h,
{
    assert(0 <= y * w && 0 <= x + y * w < w * h) by (nonlinear_arith)
        requires
            0 <= x < w,
            0 <= y < h,
    ;
}

/// Distinct in-range cells have distinct flat indices.
proof fn lemma_cell_index_ne(x: int, y: int, i: int, j: int, w: int)
    requires
        0 <= x < w,
        0 <= i < w,
        0 <= y,
        0 <= j,
        !(i == x && j == y),
    ensures
        i + j * w != x + y * w,
{
    if j != y {
        assert(i + j * w != x + y * w) by (nonlinear_arith)
            requires
                0 <= i < w,
                0 <= x < w,
                j != y,
                0 <= y,
                0 <= j,
        ;
    }
}

} // verus!
