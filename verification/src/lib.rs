//! Deterministic, pixel-level raster image transformations with machine-checked contracts.

pub mod buffer;
pub mod cli;
pub mod color;
pub mod error;
pub mod fixed;
pub mod ops;
pub mod text;

pub use buffer::{GrayBuffer, Image, PixelBuffer, Rgba16, WideBuffer};
pub use cli::args::{Anchor, BlendMode, ImageFormat, ResizeFilter};
pub use cli::output::{ErrorResponse, OutputFormat};
pub use color::{parse_color, Rgba};
pub use error::ImgEditError;
pub use fixed::Milli;
