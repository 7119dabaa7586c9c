//! Choosing the file format to write.

use vstd::prelude::*;
use crate::cli::args::ImageFormat;
use crate::error::ImgEditError;
use crate::text::{all_ascii, chars_equal, chars_of, labelled, lower, lowercase_text, unicode_lower};

verus! {

/// The format that a file name extension, in lower case, stands for.
pub open spec fn format_of_extension(ext: Seq<char>) -> Option<ImageFormat> {
    if ext == "png"@ {
        Some(ImageFormat::Png)
    } else if ext == "jpg"@ || ext == "jpeg"@ {
        Some(ImageFormat::Jpeg)
    } else if ext == "gif"@ {
        Some(ImageFormat::Gif)
    } else if ext == "bmp"@ {
        Some(ImageFormat::Bmp)
    } else if ext == "tiff"@ || ext == "tif"@ {
        Some(ImageFormat::Tiff)
    } else if ext == "webp"@ {
        Some(ImageFormat::Webp)
    } else if ext == "ico"@ {
        Some(ImageFormat::Ico)
    } else {
        None
    }
}

/// The format to write, given the extension in lower case: the one asked for, if any;
/// else the one that the extension stands for; else the message that refuses.
pub open spec fn format_choice(
    lowered: Option<Seq<char>>,
    explicit_format: Option<ImageFormat>,
) -> Result<ImageFormat, Seq<char>> {
    match explicit_format {
        Some(format) => Ok(format),
        None => match lowered {
            Some(ext) => match format_of_extension(ext) {
                Some(format) => Ok(format),
                None => Err("Unknown extension: ."@ + ext),
            },
            None => Err("No file extension and no --format specified"@),
        },
    }
}

/// The lower-case form of an extension, if there is one.
pub open spec fn lowered_extension(extension: Option<Seq<char>>) -> Option<Seq<char>> {
    match extension {
        Some(ext) => Some(unicode_lower(ext)),
        None => None,
    }
}

/// What `lowered_extension` comes to for an extension of ASCII characters.
pub open spec fn ascii_lowered_extension(extension: Option<Seq<char>>) -> Option<Seq<char>> {
    match extension {
        Some(ext) => Some(lower(ext)),
        None => None,
    }
}

/// Whether the extension, if there is one, is a text of ASCII characters.
pub open spec fn ascii_extension(extension: Option<Seq<char>>) -> bool {
    match extension {
        Some(ext) => all_ascii(ext),
        None => true,
    }
}

/// Whether a format that was chosen is the one that was specified, or was refused as
/// `UnsupportedFormat` with the message specified.
pub open spec fn format_agrees(
    res: Result<ImageFormat, ImgEditError>,
    spec: Result<ImageFormat, Seq<char>>,
) -> bool {
    match (res, spec) {
        (Ok(format), Ok(expected)) => format == expected,
        (Err(ImgEditError::UnsupportedFormat(m)), Err(t)) => m@ == t,
        _ => false,
    }
}

/// The text of an extension that may be absent.
pub open spec fn extension_text(extension: Option<&str>) -> Option<Seq<char>> {
    match extension {
        Some(e) => Some(e@),
        None => None,
    }
}

/// The format to write a file in, given the extension of its name in lower case, if it
/// has one, and the format asked for, if any.
pub fn choose_format(lowered: Option<&str>, explicit_format: Option<ImageFormat>) -> (res: Result<
    ImageFormat,
    ImgEditError,
>)
    ensures
        format_agrees(res, format_choice(extension_text(lowered), explicit_format)),
{
    match explicit_format {
        Some(format) => {
            return Ok(format);
        },
        None => {},
    }
    match lowered {
        Some(e) => {
            let ext = chars_of(e);
            if chars_equal(&ext, "png") {
                Ok(ImageFormat::Png)
            } else if chars_equal(&ext, "jpg") || chars_equal(&ext, "jpeg") {
                Ok(ImageFormat::Jpeg)
            } else if chars_equal(&ext, "gif") {
                Ok(ImageFormat::Gif)
            } else if chars_equal(&ext, "bmp") {
                Ok(ImageFormat::Bmp)
            } else if chars_equal(&ext, "tiff") || chars_equal(&ext, "tif") {
                Ok(ImageFormat::Tiff)
            } else if chars_equal(&ext, "webp") {
                Ok(ImageFormat::Webp)
            } else if chars_equal(&ext, "ico") {
                Ok(ImageFormat::Ico)
            } else {
                Err(ImgEditError::UnsupportedFormat(labelled("Unknown extension: .", &ext)))
            }
        },
        None => Err(
            ImgEditError::UnsupportedFormat(
                String::from_str("No file extension and no --format specified"),
            ),
        ),
    }
}

/// The format to write a file in, given the extension of its name, if it has one, and
/// the format asked for, if any. The case of the extension's letters does not count. A
/// file whose format cannot be told is refused as `UnsupportedFormat`.
pub fn determine_format(extension: Option<&str>, explicit_format: Option<ImageFormat>) -> (res:
    Result<ImageFormat, ImgEditError>)
    ensures
        format_agrees(
            res,
            format_choice(lowered_extension(extension_text(extension)), explicit_format),
        ),
        ascii_extension(extension_text(extension)) ==> format_agrees(
            res,
            format_choice(ascii_lowered_extension(extension_text(extension)), explicit_format),
        ),
{
    match extension {
        Some(e) => {
            let low = lowercase_text(e);
            choose_format(Some(low.as_str()), explicit_format)
        },
        None => choose_format(None, explicit_format),
    }
}

} // verus!
