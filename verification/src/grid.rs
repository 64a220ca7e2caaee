//! Terminal cells and the row-major grid that holds them.

use core::ops::{Index, Range};
use vstd::prelude::*;

verus! {

/// One character position of the output: a glyph and its two colours.
#[derive(Clone, Copy, Debug)]
pub struct Pixel {
    pub fg: [u8; 4],
    pub bg: [u8; 4],
    pub ch: char,
}

/// What a cell holds, with each colour as the sequence of its channels.
pub struct Cell {
    pub fg: Seq<u8>,
    pub bg: Seq<u8>,
    pub ch: char,
}

impl View for Pixel {
    type V = Cell;

    open spec fn view(&self) -> Cell {
        Cell { fg: self.fg@, bg: self.bg@, ch: self.ch }
    }
}

/// A grid of cells, `size.0` wide and `size.1` high, stored row by row.
pub struct Image {
    pub size: (u32, u32),
    pub pixels: Vec<Pixel>,
}

impl Image {
    /// The grid holds exactly one cell for each position.
    pub open spec fn wf(&self) -> bool {
        self.pixels@.len() == self.size.0 * self.size.1
    }

    /// Whether `(x, y)` is a position of the grid.
    pub open spec fn contains(&self, x: int, y: int) -> bool {
        0 <= x < self.size.0 && 0 <= y < self.size.1
    }

    /// The cell at column `x` of row `y`.
    pub open spec fn at(&self, x: int, y: int) -> Pixel {
        self.pixels@[y * self.size.0 + x]
    }
}

/// In a grid of width `w` and height `h`, the row-major index of a position
/// lies inside the storage, at or after the start of its row.
pub proof fn lemma_index_in_bounds(w: int, h: int, x: int, y: int)
    requires
        0 <= x < w,
        0 <= y < h,
    ensures
        0 <= y * w <= y * w + x < w * h,
{
    assert(y * w >= 0) by (nonlinear_arith)
        requires
            y >= 0,
            w >= 0,
    ;
    assert(y * w + w <= h * w) by (nonlinear_arith)
        requires
            y + 1 <= h,
            w >= 0,
    ;
    assert(h * w == w * h) by (nonlinear_arith);
}

/// Row-major indices grow with the row first and the column second.
pub proof fn lemma_row_major_order(w: int, x1: int, y1: int, x2: int, y2: int)
    requires
        0 <= x1 < w,
        0 <= x2 <= w,
        0 <= y1,
        y1 < y2 || (y1 == y2 && x1 < x2),
    ensures
        0 <= y1 * w + x1 < y2 * w + x2,
{
    assert(y1 * w >= 0) by (nonlinear_arith)
        requires
            y1 >= 0,
            w >= 0,
    ;
    if y1 < y2 {
        assert(y1 * w + w <= y2 * w) by (nonlinear_arith)
            requires
                y1 + 1 <= y2,
                w >= 0,
        ;
    }
}

impl vstd::std_specs::core::IndexSpecImpl<(u32, u32)> for Image {
    open spec fn index_req(&self, index: &(u32, u32)) -> bool {
        self.wf() && self.contains(index.0 as int, index.1 as int)
    }
}

impl Index<(u32, u32)> for Image {
    type Output = Pixel;

    /// The cell at column `index.0` of row `index.1`. A position outside the
    /// grid is not accepted.
    fn index(&self, index: (u32, u32)) -> (p: &Pixel)
        ensures
            *p == self.at(index.0 as int, index.1 as int),
    {
        let (x, y) = index;
        let w: usize = self.size.0 as usize;
        let n: usize = self.pixels.len();
        proof {
            lemma_index_in_bounds(self.size.0 as int, self.size.1 as int, x as int, y as int);
        }
        assert(y * w + x < n);
        let i: usize = y as usize * w + x as usize;
        &self.pixels[i]
    }
}

impl Image {
    /// A new grid that holds the cells of the columns `x` and the rows `y` of
    /// this one, in the same order. The grid itself is left as it is.
    pub fn sub_image(&self, x: Range<u32>, y: Range<u32>) -> (sub: Image)
        requires
            self.wf(),
            x.start <= x.end,
            y.start <= y.end,
            x.start < x.end && y.start < y.end ==> x.end <= self.size.0 && y.end <= self.size.1,
        ensures
            sub.wf(),
            sub.size.0 == x.end - x.start,
            sub.size.1 == y.end - y.start,
            forall|i: int, j: int|
                sub.contains(i, j) ==> #[trigger] sub.at(i, j) == self.at(x.start + i, y.start + j),
    {
        let w: u32 = x.end - x.start;
        let h: u32 = y.end - y.start;
        let mut pixels: Vec<Pixel> = Vec::new();
        let mut j: u32 = 0;
        while j < h
            invariant
                self.wf(),
                w == x.end - x.start,
                h == y.end - y.start,
                w > 0 && h > 0 ==> x.end <= self.size.0 && y.end <= self.size.1,
                j <= h,
                pixels@.len() == j * w,
                forall|a: int, b: int|
                    0 <= a < w && 0 <= b < j ==> #[trigger] pixels@[b * w + a] == self.at(
                        x.start + a,
                        y.start + b,
                    ),
            decreases h - j,
        {
            let mut i: u32 = 0;
            while i < w
                invariant
                    self.wf(),
                    w == x.end - x.start,
                    h == y.end - y.start,
                    w > 0 && h > 0 ==> x.end <= self.size.0 && y.end <= self.size.1,
                    j < h,
                    i <= w,
                    pixels@.len() == j * w + i,
                    forall|a: int, b: int|
                        0 <= a < w && (0 <= b < j || (b == j && a < i)) ==> #[trigger] pixels@[b * w
                            + a] == self.at(x.start + a, y.start + b),
                decreases w - i,
            {
                let ghost before = pixels@;
                let p: Pixel = self[(x.start + i, y.start + j)];
                pixels.push(p);
                proof {
                    assert forall|a: int, b: int|
                        0 <= a < w && (0 <= b < j || (b == j && a < i + 1)) implies #[trigger] pixels@[b
                        * w + a] == self.at(x.start + a, y.start + b) by {
                        if b == j && a == i {
                        } else {
                            lemma_row_major_order(w as int, a, b, i as int, j as int);
                            assert(pixels@[b * w + a] == before[b * w + a]);
                        }
                    }
                }
                i = i + 1;
            }
            proof {
                assert(j * w + w == (j + 1) * w) by (nonlinear_arith);
            }
            j = j + 1;
        }
        let sub = Image { size: (w, h), pixels };
        proof {
            assert(h * w == w * h) by (nonlinear_arith);
        }
        sub
    }
}

} // verus!
