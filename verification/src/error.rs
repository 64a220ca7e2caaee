//! What can keep a bitmap from being rendered.

use vstd::prelude::*;

verus! {

/// Why no grid was produced.
#[derive(Clone, Copy, Debug, PartialEq, Eq, Structural)]
pub enum PixelizeError {
    /// The bitmap, the box or the shape of a character cell has a zero in it.
    InvalidDimensions,
    /// The grid fits the box, but the samples it is read from would not fit
    /// this machine's memory or coordinates.
    TooLarge,
}

} // verus!
