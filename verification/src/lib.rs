//! Renders bitmaps as grids of coloured terminal cells.

pub mod bitmap;
pub mod color;
pub mod config;
pub mod error;
pub mod grid;
pub mod pixelize;
pub mod quantize;
pub mod render;
pub mod sizer;

pub use bitmap::Bitmap;
pub use config::{Ratio, Spec};
pub use error::PixelizeError;
pub use grid::{Image, Pixel};
pub use pixelize::pixelize;
