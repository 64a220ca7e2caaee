//! The size of the grid: the largest one of the bitmap's shape, corrected for
//! the shape of a character cell, that fits the box.
//!
//! A cell is `font.num / font.den` times as wide as it is high, so a bitmap of
//! `image_w` by `image_h` samples keeps its shape on a grid that has
//! `image_h * font.num` rows for every `image_w * font.den` columns.

use crate::config::Spec;
use crate::error::PixelizeError;
use vstd::arithmetic::div_mod::{
    lemma_div_pos_is_pos, lemma_multiply_divide_le, lemma_multiply_divide_lt,
};
use vstd::prelude::*;

verus! {

/// No size can be derived: a dimension of the bitmap or of the box is zero,
/// or the shape of a character cell has a zero part.
pub open spec fn degenerate(image_w: int, image_h: int, spec: Spec) -> bool {
    image_w == 0 || image_h == 0 || spec.size.0 == 0 || spec.size.1 == 0 || spec.font.num == 0
        || spec.font.den == 0
}

/// The rows of the grid per `run` columns.
pub open spec fn rise(image_h: int, spec: Spec) -> int {
    image_h * spec.font.num
}

/// The columns of the grid per `rise` rows.
pub open spec fn run(image_w: int, spec: Spec) -> int {
    image_w * spec.font.den
}

/// A grid as wide as the box would be higher than the box.
pub open spec fn too_tall(image_w: int, image_h: int, spec: Spec) -> bool {
    spec.size.0 * rise(image_h, spec) > spec.size.1 * run(image_w, spec)
}

/// The size of the grid, as width and height. Where a grid as wide as the
/// box would be too high, the grid is as high as the box and its width
/// follows, else it is as wide as the box and its height follows. What
/// follows is rounded towards zero.
pub open spec fn size_of(image_w: int, image_h: int, spec: Spec) -> (int, int) {
    if too_tall(image_w, image_h, spec) {
        ((spec.size.1 * run(image_w, spec)) / rise(image_h, spec), spec.size.1 as int)
    } else {
        (spec.size.0 as int, (spec.size.0 * rise(image_h, spec)) / run(image_w, spec))
    }
}

/// The grid never exceeds the box, and it fills the box in width or in
/// height: in height where the full width would be too high, else in width.
pub proof fn lemma_size_within_box(image_w: int, image_h: int, spec: Spec)
    requires
        image_w >= 0,
        image_h >= 0,
        !degenerate(image_w, image_h, spec),
    ensures
        rise(image_h, spec) > 0,
        run(image_w, spec) > 0,
        0 <= size_of(image_w, image_h, spec).0 <= spec.size.0,
        0 <= size_of(image_w, image_h, spec).1 <= spec.size.1,
        too_tall(image_w, image_h, spec) ==> size_of(image_w, image_h, spec).0 < spec.size.0
            && size_of(image_w, image_h, spec).1 == spec.size.1,
        !too_tall(image_w, image_h, spec) ==> size_of(image_w, image_h, spec).0 == spec.size.0,
{
    let max_w = spec.size.0 as int;
    let max_h = spec.size.1 as int;
    let up = rise(image_h, spec);
    let along = run(image_w, spec);
    assert(up > 0) by (nonlinear_arith)
        requires
            up == image_h * spec.font.num,
            image_h > 0,
            spec.font.num > 0,
    ;
    assert(along > 0) by (nonlinear_arith)
        requires
            along == image_w * spec.font.den,
            image_w > 0,
            spec.font.den > 0,
    ;
    assert(max_h * along >= 0 && max_w * up >= 0) by (nonlinear_arith)
        requires
            max_h > 0,
            max_w > 0,
            along > 0,
            up > 0,
    ;
    if too_tall(image_w, image_h, spec) {
        assert(max_w * up == up * max_w) by (nonlinear_arith);
        lemma_multiply_divide_lt(max_h * along, up, max_w);
        lemma_div_pos_is_pos(max_h * along, up);
    } else {
        assert(max_h * along == along * max_h) by (nonlinear_arith);
        lemma_multiply_divide_le(max_w * up, along, max_h);
        lemma_div_pos_is_pos(max_w * up, along);
    }
}

fn times(a: u32, b: u32) -> (p: u64)
    ensures
        p == a * b,
{
    assert(a * b <= 0xffff_ffff * 0xffff_ffff) by (nonlinear_arith)
        requires
            0 <= a <= 0xffff_ffff,
            0 <= b <= 0xffff_ffff,
    ;
    a as u64 * b as u64
}

fn scaled(a: u32, b: u64) -> (p: u128)
    ensures
        p == a * b,
{
    assert(a * b <= 0xffff_ffff * 0xffff_ffff_ffff_ffff) by (nonlinear_arith)
        requires
            0 <= a <= 0xffff_ffff,
            0 <= b <= 0xffff_ffff_ffff_ffff,
    ;
    a as u128 * b as u128
}

/// The size of the grid for a bitmap of `image_w` by `image_h` samples, as
/// width and height, or `InvalidDimensions` where one of the numbers given
/// is zero.
pub fn size(image_w: u32, image_h: u32, spec: Spec) -> (r: Result<(u32, u32), PixelizeError>)
    ensures
        degenerate(image_w as int, image_h as int, spec) <==> r is Err,
        r is Err ==> r == Err::<(u32, u32), PixelizeError>(PixelizeError::InvalidDimensions),
        r is Ok ==> r->Ok_0.0 == size_of(image_w as int, image_h as int, spec).0 && r->Ok_0.1
            == size_of(image_w as int, image_h as int, spec).1,
        r is Ok ==> r->Ok_0.0 <= spec.size.0 && r->Ok_0.1 <= spec.size.1 && (r->Ok_0.0
            == spec.size.0 || r->Ok_0.1 == spec.size.1),
{
    let (max_w, max_h) = spec.size;
    if image_w == 0 || image_h == 0 || max_w == 0 || max_h == 0 || spec.font.num == 0
        || spec.font.den == 0 {
        return Err(PixelizeError::InvalidDimensions);
    }
    proof {
        lemma_size_within_box(image_w as int, image_h as int, spec);
    }
    let up: u64 = times(image_h, spec.font.num);
    let along: u64 = times(image_w, spec.font.den);
    let high: u128 = scaled(max_w, up);
    let wide: u128 = scaled(max_h, along);
    if high > wide {
        let w: u128 = wide / (up as u128);
        Ok((w as u32, max_h))
    } else {
        let h: u128 = high / (along as u128);
        Ok((max_w, h as u32))
    }
}

} // verus!
