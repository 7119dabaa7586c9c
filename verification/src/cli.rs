//! What a front end hands to the operations, and what it reports back.

pub mod args;
pub mod command;
pub mod output;

pub use args::{Anchor, BlendMode, ImageFormat, ResizeFilter};
pub use output::{ErrorResponse, OutputFormat};
