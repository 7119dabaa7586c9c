//! The failures that an operation of this library can report.

use vstd::prelude::*;

pub mod exit_codes;

verus! {

/// `std::io::Error`, carried through as it is.
#[verifier::external_type_specification]
#[verifier::external_body]
pub struct ExIoError(std::io::Error);

/// `image::ImageError`, carried through as it is.
#[verifier::external_type_specification]
#[verifier::external_body]
pub struct ExImageError(image::ImageError);

/// What went wrong, with the text that tells it.
#[derive(Debug)]
pub enum ImgEditError {
    /// An image file could not be read or decoded.
    ReadError { path: String, reason: String },
    /// An image file could not be written.
    WriteError { path: String, reason: String },
    /// There is no file where the input was expected.
    InputNotFound(String),
    /// Dimensions that are zero or cannot be.
    InvalidDimensions(String),
    /// A region to crop that does not lie inside the image.
    CropOutOfBounds(String),
    /// A file format that is unknown or cannot be written.
    UnsupportedFormat(String),
    /// A text that denotes no color.
    InvalidColor(String),
    /// A number outside its range, or options that leave nothing to do.
    InvalidParameter(String),
    /// An operation without any of the options it needs one of.
    MissingOption(String),
    /// A failure of the operating system.
    IoError(std::io::Error),
    /// A failure of a codec.
    ImageError(image::ImageError),
}

/// The text of an I/O error, as its `Display` impl writes it. Nothing is claimed of
/// that text: it may come from the operating system.
#[verifier::external_body]
fn io_error_text(e: &std::io::Error) -> (text: String) {
    format!("{}", e)
}

/// The text of a codec error, as its `Display` impl writes it. Nothing is claimed of
/// that text.
#[verifier::external_body]
fn image_error_text(e: &image::ImageError) -> (text: String) {
    format!("{}", e)
}

impl ImgEditError {
    /// The machine-readable name of the error's kind.
    pub open spec fn code_spec(&self) -> Seq<char> {
        match self {
            ImgEditError::ReadError { .. } => "READ_ERROR"@,
            ImgEditError::WriteError { .. } => "WRITE_ERROR"@,
            ImgEditError::InputNotFound(_) => "INPUT_NOT_FOUND"@,
            ImgEditError::InvalidDimensions(_) => "INVALID_DIMENSIONS"@,
            ImgEditError::CropOutOfBounds(_) => "CROP_OUT_OF_BOUNDS"@,
            ImgEditError::UnsupportedFormat(_) => "UNSUPPORTED_FORMAT"@,
            ImgEditError::InvalidColor(_) => "INVALID_COLOR"@,
            ImgEditError::InvalidParameter(_) => "INVALID_PARAMETER"@,
            ImgEditError::MissingOption(_) => "MISSING_OPTION"@,
            ImgEditError::IoError(_) => "IO_ERROR"@,
            ImgEditError::ImageError(_) => "IMAGE_ERROR"@,
        }
    }

    /// The process exit code that belongs to the error's kind.
    pub open spec fn exit_code_spec(&self) -> int {
        match self {
            ImgEditError::InputNotFound(_) | ImgEditError::ReadError { .. } => 2,
            ImgEditError::WriteError { .. } => 3,
            ImgEditError::UnsupportedFormat(_) => 4,
            ImgEditError::InvalidDimensions(_)
            | ImgEditError::CropOutOfBounds(_)
            | ImgEditError::InvalidColor(_)
            | ImgEditError::InvalidParameter(_)
            | ImgEditError::MissingOption(_) => 5,
            ImgEditError::IoError(_) | ImgEditError::ImageError(_) => 1,
        }
    }

    /// What the message starts with: everything but the part that a wrapped error of
    /// another crate contributes.
    pub open spec fn message_head(&self) -> Seq<char> {
        match self {
            ImgEditError::ReadError { path, reason } => "Failed to read image '"@ + path@ + "': "@
                + reason@,
            ImgEditError::WriteError { path, reason } => "Failed to write image '"@ + path@
                + "': "@ + reason@,
            ImgEditError::InputNotFound(m) => "Input file not found: "@ + m@,
            ImgEditError::InvalidDimensions(m) => "Invalid dimensions: "@ + m@,
            ImgEditError::CropOutOfBounds(m) => "Crop region out of bounds: "@ + m@,
            ImgEditError::UnsupportedFormat(m) => "Unsupported format: "@ + m@,
            ImgEditError::InvalidColor(m) => "Invalid color specification: "@ + m@,
            ImgEditError::InvalidParameter(m) => "Invalid parameter: "@ + m@,
            ImgEditError::MissingOption(m) => "Operation requires at least one option: "@ + m@,
            ImgEditError::IoError(_) => "IO error: "@,
            ImgEditError::ImageError(_) => "Image processing error: "@,
        }
    }

    /// Whether the error wraps one of another crate, whose text ends the message.
    pub open spec fn is_wrapped(&self) -> bool {
        self is IoError || self is ImageError
    }

    pub fn code(&self) -> (code: &'static str)
        ensures
            code@ == self.code_spec(),
    {
        match self {
            ImgEditError::ReadError { .. } => "READ_ERROR",
            ImgEditError::WriteError { .. } => "WRITE_ERROR",
            ImgEditError::InputNotFound(_) => "INPUT_NOT_FOUND",
            ImgEditError::InvalidDimensions(_) => "INVALID_DIMENSIONS",
            ImgEditError::CropOutOfBounds(_) => "CROP_OUT_OF_BOUNDS",
            ImgEditError::UnsupportedFormat(_) => "UNSUPPORTED_FORMAT",
            ImgEditError::InvalidColor(_) => "INVALID_COLOR",
            ImgEditError::InvalidParameter(_) => "INVALID_PARAMETER",
            ImgEditError::MissingOption(_) => "MISSING_OPTION",
            ImgEditError::IoError(_) => "IO_ERROR",
            ImgEditError::ImageError(_) => "IMAGE_ERROR",
        }
    }

    pub fn exit_code(&self) -> (code: i32)
        ensures
            code == self.exit_code_spec(),
            0 <= code <= 5,
    {
        match self {
            ImgEditError::InputNotFound(_) => exit_codes::INPUT_NOT_FOUND,
            ImgEditError::ReadError { .. } => exit_codes::INPUT_NOT_FOUND,
            ImgEditError::WriteError { .. } => exit_codes::OUTPUT_WRITE_FAILED,
            ImgEditError::UnsupportedFormat(_) => exit_codes::UNSUPPORTED_FORMAT,
            ImgEditError::InvalidDimensions(_)
            | ImgEditError::CropOutOfBounds(_)
            | ImgEditError::InvalidColor(_)
            | ImgEditError::InvalidParameter(_)
            | ImgEditError::MissingOption(_) => exit_codes::INVALID_PARAMETERS,
            ImgEditError::IoError(_) | ImgEditError::ImageError(_) => exit_codes::GENERAL_ERROR,
        }
    }

    /// The message for a person to read.
    pub fn to_string(&self) -> (text: String)
        ensures
            !self.is_wrapped() ==> text@ == self.message_head(),
            self.is_wrapped() ==> self.message_head().is_prefix_of(text@),
    {
        match self {
            ImgEditError::ReadError { path, reason } => {
                let s = String::from_str("Failed to read image '");
                let s = s.concat(path.as_str());
                let s = s.concat("': ");
                s.concat(reason.as_str())
            },
            ImgEditError::WriteError { path, reason } => {
                let s = String::from_str("Failed to write image '");
                let s = s.concat(path.as_str());
                let s = s.concat("': ");
                s.concat(reason.as_str())
            },
            ImgEditError::InputNotFound(m) => String::from_str("Input file not found: ").concat(
                m.as_str(),
            ),
            ImgEditError::InvalidDimensions(m) => String::from_str("Invalid dimensions: ").concat(
                m.as_str(),
            ),
            ImgEditError::CropOutOfBounds(m) => String::from_str(
                "Crop region out of bounds: ",
            ).concat(m.as_str()),
            ImgEditError::UnsupportedFormat(m) => String::from_str("Unsupported format: ").concat(
                m.as_str(),
            ),
            ImgEditError::InvalidColor(m) => String::from_str(
                "Invalid color specification: ",
            ).concat(m.as_str()),
            ImgEditError::InvalidParameter(m) => String::from_str("Invalid parameter: ").concat(
                m.as_str(),
            ),
            ImgEditError::MissingOption(m) => String::from_str(
                "Operation requires at least one option: ",
            ).concat(m.as_str()),
            ImgEditError::IoError(e) => {
                let inner = io_error_text(e);
                String::from_str("IO error: ").concat(inner.as_str())
            },
            ImgEditError::ImageError(e) => {
                let inner = image_error_text(e);
                String::from_str("Image processing error: ").concat(inner.as_str())
            },
        }
    }
}

} // verus!
