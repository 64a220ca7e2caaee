//! What the caller asks for: the box to fill, the shape of a character cell
//! and the quantization mode.

use vstd::prelude::*;

verus! {

/// A positive ratio given as a fraction. It is degenerate where either part
/// is zero.
#[derive(Clone, Copy, Debug, PartialEq, Eq, Structural)]
pub struct Ratio {
    pub num: u32,
    pub den: u32,
}

/// The output wanted. `size` is the largest width and height in cells, `font`
/// the width of a character cell over its height, and `block` the mode: 1
/// for solid cells, 2 for half blocks, anything else for quadrants.
#[derive(Clone, Copy, Debug)]
pub struct Spec {
    pub size: (u32, u32),
    pub font: Ratio,
    pub block: u8,
}

impl Spec {
    /// A box of `w` by `h` cells, with cells twice as high as wide and the
    /// quadrant mode.
    pub fn new(w: u32, h: u32) -> (s: Spec)
        ensures
            s == (Spec { size: (w, h), font: Ratio { num: 1, den: 2 }, block: 4 }),
    {
        Spec { size: (w, h), font: Ratio { num: 1, den: 2 }, block: 4 }
    }

    /// The same, but for the box.
    pub fn size(&self, w: u32, h: u32) -> (s: Spec)
        ensures
            s == (Spec { size: (w, h), ..*self }),
    {
        Spec { size: (w, h), ..*self }
    }

    /// The same, but for the shape of a character cell.
    pub fn font(&self, font: Ratio) -> (s: Spec)
        ensures
            s == (Spec { font: font, ..*self }),
    {
        Spec { font: font, ..*self }
    }

    /// The same, but for the mode.
    pub fn block(&self, block: u8) -> (s: Spec)
        ensures
            s == (Spec { block: block, ..*self }),
    {
        Spec { block: block, ..*self }
    }
}

} // verus!
