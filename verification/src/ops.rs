//! The operations on pixel buffers.

pub mod adjust;
pub mod canvas;
pub mod color;
pub mod convert;
pub mod crop;
pub mod exif;
pub mod filter;
pub mod flip;
pub mod info;
pub mod resize;
pub mod rotate;

pub use adjust::{brightness, contrast, gamma, GammaTable};
pub use canvas::{calculate_anchor_offset, canvas_resize, composite, pad};
pub use color::{change_depth, grayscale, invert};
pub use convert::determine_format;
pub use crop::{calculate_crop_position, crop};
pub use exif::{
    format_exif_text, format_exif_verbose, get_exif_field, get_exif_map, ExifData, ExifField,
};
pub use filter::{check_blur, check_sharpen, sharpen};
pub use flip::flip;
pub use info::{format_file_size, ImageInfo};
pub use resize::{fit, resize};
pub use rotate::rotate;
