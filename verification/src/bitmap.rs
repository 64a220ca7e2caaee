//! The bitmap that is rendered: rows of samples with four 8-bit channels
//! each, and its resampling to another size.

use crate::grid::lemma_index_in_bounds;
use vstd::prelude::*;

verus! {

/// A bitmap of `width` by `height` samples. `samples` holds the rows from top
/// to bottom, each from left to right, and for each sample its red, green,
/// blue and alpha channel.
pub struct Bitmap {
    pub width: u32,
    pub height: u32,
    pub samples: Vec<u8>,
}

/// The colour at column `x` of row `y` in rows of `width` samples.
pub open spec fn color_at(samples: Seq<u8>, width: int, x: int, y: int) -> [u8; 4] {
    let i = 4 * (y * width + x);
    [samples[i], samples[i + 1], samples[i + 2], samples[i + 3]]
}

/// The samples that nearest-neighbour resampling gives for a bitmap of
/// `width` by `height` samples when it is brought to `new_width` by
/// `new_height` samples.
pub uninterp spec fn nearest_samples(
    samples: Seq<u8>,
    width: u32,
    height: u32,
    new_width: u32,
    new_height: u32,
) -> Seq<u8>;

/// Resampling a bitmap `width` wide to `new_width` by `new_height` samples
/// stays within what this machine can allocate: sixteen bytes for each
/// sample of the intermediate bitmap, which has the old width and the new
/// height, and four for each sample of the result.
pub open spec fn resize_fits(width: int, new_width: int, new_height: int) -> bool {
    16 * width * new_height <= isize::MAX && 4 * new_width * new_height <= isize::MAX
}

impl Bitmap {
    /// There are four channels for each sample.
    pub open spec fn wf(&self) -> bool {
        self.samples@.len() == 4 * self.width * self.height
    }

    /// Whether `(x, y)` is a position of the bitmap.
    pub open spec fn contains(&self, x: int, y: int) -> bool {
        0 <= x < self.width && 0 <= y < self.height
    }

    /// The colour at column `x` of row `y`.
    pub open spec fn color(&self, x: int, y: int) -> [u8; 4] {
        color_at(self.samples@, self.width as int, x, y)
    }
}

/// The four channels of a sample inside the bitmap lie inside its storage.
pub proof fn lemma_sample_in_bounds(w: int, h: int, x: int, y: int)
    requires
        0 <= x < w,
        0 <= y < h,
    ensures
        0 <= 4 * (y * w + x),
        4 * (y * w + x) + 3 < 4 * w * h,
{
    lemma_index_in_bounds(w, h, x, y);
    assert(4 * w * h == 4 * (w * h)) by (nonlinear_arith);
}

/// Calls `image::DynamicImage::resize_exact` with `FilterType::Nearest` on the
/// samples taken as an 8-bit RGBA image. The result is named, not described:
/// `nearest_samples` stands for the samples of the image that comes back,
/// which has the dimensions asked for and so four channels for each of its
/// samples. The call is made only on a bitmap that is not empty and within
/// `resize_fits`, where the buffers that the resampling allocates can exist.
#[verifier::external_body]
fn resize_nearest(
    samples: &Vec<u8>,
    width: u32,
    height: u32,
    new_width: u32,
    new_height: u32,
) -> (out: Vec<u8>)
    requires
        width > 0,
        height > 0,
        samples@.len() == 4 * width * height,
        resize_fits(width as int, new_width as int, new_height as int),
    ensures
        out@ == nearest_samples(samples@, width, height, new_width, new_height),
        out@.len() == 4 * new_width * new_height,
{
    let source = image::RgbaImage::from_raw(width, height, samples.clone()).unwrap();
    let resized = image::DynamicImage::ImageRgba8(source).resize_exact(
        new_width,
        new_height,
        image::imageops::FilterType::Nearest,
    );
    resized.into_rgba8().into_raw()
}

fn area(width: u32, height: u32) -> (a: u64)
    ensures
        a == width * height,
{
    assert(width * height <= 0xffff_ffff * 0xffff_ffff) by (nonlinear_arith)
        requires
            0 <= width <= 0xffff_ffff,
            0 <= height <= 0xffff_ffff,
    ;
    width as u64 * height as u64
}

/// Whether resampling a bitmap `width` wide to `new_width` by `new_height`
/// samples stays within what this machine can allocate.
fn fits(width: u32, new_width: u32, new_height: u32) -> (b: bool)
    ensures
        b == resize_fits(width as int, new_width as int, new_height as int),
{
    let limit: u128 = isize::MAX as u128;
    let between: u64 = area(width, new_height);
    let after: u64 = area(new_width, new_height);
    assert(16 * width * new_height == 16 * (width * new_height)) by (nonlinear_arith);
    assert(4 * new_width * new_height == 4 * (new_width * new_height)) by (nonlinear_arith);
    16 * (between as u128) <= limit && 4 * (after as u128) <= limit
}

impl Bitmap {
    /// The bitmap of the given size and samples, where there are four
    /// channels for each sample; else nothing.
    pub fn new(width: u32, height: u32, samples: Vec<u8>) -> (r: Option<Bitmap>)
        ensures
            r is Some <==> samples@.len() == 4 * width * height,
            r is Some ==> r->0.wf() && r->0.width == width && r->0.height == height
                && r->0.samples@ == samples@,
    {
        let n: u64 = area(width, height);
        assert(4 * width * height == 4 * (width * height)) by (nonlinear_arith);
        if samples.len() as u128 == 4 * (n as u128) {
            Some(Bitmap { width, height, samples })
        } else {
            None
        }
    }

    /// The colour at column `x` of row `y`. A position outside the bitmap is
    /// not accepted.
    pub fn get_pixel(&self, x: u32, y: u32) -> (c: [u8; 4])
        requires
            self.wf(),
            self.contains(x as int, y as int),
        ensures
            c == self.color(x as int, y as int),
    {
        let n: usize = self.samples.len();
        proof {
            lemma_sample_in_bounds(self.width as int, self.height as int, x as int, y as int);
            lemma_index_in_bounds(self.width as int, self.height as int, x as int, y as int);
        }
        let w: usize = self.width as usize;
        assert(4 * (y * w + x) + 3 < n);
        let i: usize = 4 * (y as usize * w + x as usize);
        let c: [u8; 4] = [
            self.samples[i],
            self.samples[i + 1],
            self.samples[i + 2],
            self.samples[i + 3],
        ];
        assert(c@ =~= self.color(x as int, y as int)@);
        c
    }

    /// The bitmap resampled to `new_width` by `new_height` samples, each
    /// sample taken from the nearest one of this bitmap. Nothing comes back
    /// for an empty bitmap, nor where the resampling would not fit this
    /// machine.
    pub fn resize_exact(&self, new_width: u32, new_height: u32) -> (r: Option<Bitmap>)
        requires
            self.wf(),
        ensures
            r is Some <==> self.width > 0 && self.height > 0 && resize_fits(
                self.width as int,
                new_width as int,
                new_height as int,
            ),
            r is Some ==> r->0.wf() && r->0.width == new_width && r->0.height == new_height
                && r->0.samples@ == nearest_samples(
                self.samples@,
                self.width,
                self.height,
                new_width,
                new_height,
            ),
    {
        if self.width == 0 || self.height == 0 || !fits(self.width, new_width, new_height) {
            return None;
        }
        let samples = resize_nearest(&self.samples, self.width, self.height, new_width, new_height);
        Some(Bitmap { width: new_width, height: new_height, samples })
    }
}

} // verus!
