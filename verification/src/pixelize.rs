//! From a bitmap to a grid of cells: size the grid, resample the bitmap to
//! two samples per cell in each direction, and reduce each block of four
//! samples to its cell.

use crate::bitmap::{color_at, nearest_samples, resize_fits, Bitmap};
use crate::config::Spec;
use crate::error::PixelizeError;
use crate::grid::{lemma_row_major_order, Image, Pixel};
use crate::quantize::{cell_of, quantize};
use crate::sizer::{degenerate, size, size_of};
use vstd::prelude::*;

verus! {

/// The block of four samples under the cell at column `x` of row `y`: top
/// left, top right, bottom left, bottom right. `width` is that of the rows of
/// `samples`.
pub open spec fn block_at(samples: Seq<u8>, width: int, x: int, y: int) -> Seq<[u8; 4]> {
    seq![
        color_at(samples, width, 2 * x, 2 * y),
        color_at(samples, width, 2 * x + 1, 2 * y),
        color_at(samples, width, 2 * x, 2 * y + 1),
        color_at(samples, width, 2 * x + 1, 2 * y + 1),
    ]
}

/// `grid` is `w` cells wide and `h` cells high, and each of its cells is the
/// one that `mode` makes of the block under it in `samples`, which has rows
/// of `2 * w` samples.
pub open spec fn is_grid_of(grid: Image, samples: Seq<u8>, w: int, h: int, mode: u8) -> bool {
    &&& grid.wf()
    &&& grid.size.0 == w
    &&& grid.size.1 == h
    &&& forall|x: int, y: int|
        0 <= x < w && 0 <= y < h ==> (#[trigger] grid.at(x, y))@ == cell_of(
            block_at(samples, 2 * w, x, y),
            mode,
        )
}

/// In the solid mode every cell of the grid is a space between two equal
/// colours.
pub proof fn lemma_solid_grid(grid: Image, samples: Seq<u8>, w: int, h: int)
    requires
        is_grid_of(grid, samples, w, h, 1),
    ensures
        forall|x: int, y: int|
            0 <= x < w && 0 <= y < h ==> (#[trigger] grid.at(x, y)).fg == grid.at(x, y).bg
                && grid.at(x, y).ch == ' ',
{
    assert forall|x: int, y: int| 0 <= x < w && 0 <= y < h implies (#[trigger] grid.at(x, y)).fg
        == grid.at(x, y).bg && grid.at(x, y).ch == ' ' by {
        let p = grid.at(x, y);
        assert(p@ == cell_of(block_at(samples, 2 * w, x, y), 1));
        assert(p.fg@ == p.bg@);
    }
}

/// The samples for a grid of `w` by `h` cells can be addressed and
/// allocated: twice `w` and twice `h` are coordinates, and the resampling of
/// a bitmap `image_w` wide to that size fits this machine.
pub open spec fn samples_fit(image_w: int, w: int, h: int) -> bool {
    2 * w <= u32::MAX && 2 * h <= u32::MAX && resize_fits(image_w, 2 * w, 2 * h)
}

/// The grid of `w` by `h` cells over a bitmap that holds two samples for each
/// cell in each direction.
pub fn quantize_grid(samples: &Bitmap, w: u32, h: u32, mode: u8) -> (grid: Image)
    requires
        samples.wf(),
        samples.width == 2 * w,
        samples.height == 2 * h,
    ensures
        is_grid_of(grid, samples.samples@, w as int, h as int, mode),
{
    let mut pixels: Vec<Pixel> = Vec::new();
    let mut y: u32 = 0;
    while y < h
        invariant
            samples.wf(),
            samples.width == 2 * w,
            samples.height == 2 * h,
            y <= h,
            pixels@.len() == y * w,
            forall|a: int, b: int|
                0 <= a < w && 0 <= b < y ==> (#[trigger] pixels@[b * w + a])@ == cell_of(
                    block_at(samples.samples@, 2 * w, a, b),
                    mode,
                ),
        decreases h - y,
    {
        let mut x: u32 = 0;
        while x < w
            invariant
                samples.wf(),
                samples.width == 2 * w,
                samples.height == 2 * h,
                y < h,
                x <= w,
                pixels@.len() == y * w + x,
                forall|a: int, b: int|
                    0 <= a < w && (0 <= b < y || (b == y && a < x)) ==> (#[trigger] pixels@[b * w
                        + a])@ == cell_of(block_at(samples.samples@, 2 * w, a, b), mode),
            decreases w - x,
        {
            let ghost before = pixels@;
            let block: [[u8; 4]; 4] = [
                samples.get_pixel(2 * x, 2 * y),
                samples.get_pixel(2 * x + 1, 2 * y),
                samples.get_pixel(2 * x, 2 * y + 1),
                samples.get_pixel(2 * x + 1, 2 * y + 1),
            ];
            assert(block@ =~= block_at(samples.samples@, 2 * w, x as int, y as int));
            pixels.push(quantize(&block, mode));
            proof {
                assert forall|a: int, b: int|
                    0 <= a < w && (0 <= b < y || (b == y && a < x + 1)) implies (#[trigger] pixels@[b
                    * w + a])@ == cell_of(block_at(samples.samples@, 2 * w, a, b), mode) by {
                    if b == y && a == x {
                    } else {
                        lemma_row_major_order(w as int, a, b, x as int, y as int);
                        assert(pixels@[b * w + a] == before[b * w + a]);
                    }
                }
            }
            x = x + 1;
        }
        proof {
            assert(y * w + w == (y + 1) * w) by (nonlinear_arith);
        }
        y = y + 1;
    }
    let grid = Image { size: (w, h), pixels };
    proof {
        assert(h * w == w * h) by (nonlinear_arith);
    }
    grid
}

/// The grid that renders `image` under `spec`.
///
/// The grid has the size that `size_of` gives. Its cells are read from
/// `image` resampled to two samples per cell in each direction, each block
/// of four samples reduced to one cell by the mode `spec.block`. The grid
/// stays within the box and fills its width or its height. No grid is made
/// where the dimensions are degenerate, nor where the resampled bitmap would
/// not fit this machine.
pub fn pixelize(image: &Bitmap, spec: Spec) -> (r: Result<Image, PixelizeError>)
    requires
        image.wf(),
    ensures
        degenerate(image.width as int, image.height as int, spec) <==> r == Err::<
            Image,
            PixelizeError,
        >(PixelizeError::InvalidDimensions),
        !degenerate(image.width as int, image.height as int, spec) && !samples_fit(
            image.width as int,
            size_of(image.width as int, image.height as int, spec).0,
            size_of(image.width as int, image.height as int, spec).1,
        ) <==> r == Err::<Image, PixelizeError>(PixelizeError::TooLarge),
        r is Ok ==> is_grid_of(
            r->Ok_0,
            nearest_samples(
                image.samples@,
                image.width,
                image.height,
                (2 * size_of(image.width as int, image.height as int, spec).0) as u32,
                (2 * size_of(image.width as int, image.height as int, spec).1) as u32,
            ),
            size_of(image.width as int, image.height as int, spec).0,
            size_of(image.width as int, image.height as int, spec).1,
            spec.block,
        ),
        r is Ok ==> r->Ok_0.size.0 <= spec.size.0 && r->Ok_0.size.1 <= spec.size.1,
        r is Ok ==> r->Ok_0.size.0 == spec.size.0 || r->Ok_0.size.1 == spec.size.1,
{
    let (w, h) = match size(image.width, image.height, spec) {
        Ok(d) => d,
        Err(e) => {
            return Err(e);
        },
    };
    if w > u32::MAX / 2 || h > u32::MAX / 2 {
        return Err(PixelizeError::TooLarge);
    }
    match image.resize_exact(2 * w, 2 * h) {
        Some(samples) => Ok(quantize_grid(&samples, w, h, spec.block)),
        None => Err(PixelizeError::TooLarge),
    }
}

} // verus!
