//! The decisions that a command takes before it touches an image.

use vstd::prelude::*;
use crate::error::ImgEditError;

verus! {

/// The first of three values that is given, or 0 if none is.
pub open spec fn first_given(a: Option<u32>, b: Option<u32>, c: Option<u32>) -> u32 {
    match (a, b, c) {
        (Some(v), _, _) => v,
        (None, Some(v), _) => v,
        (None, None, Some(v)) => v,
        (None, None, None) => 0,
    }
}

fn choose_first(a: Option<u32>, b: Option<u32>, c: Option<u32>) -> (v: u32)
    ensures
        v == first_given(a, b, c),
{
    match (a, b, c) {
        (Some(v), _, _) => v,
        (None, Some(v), _) => v,
        (None, None, Some(v)) => v,
        (None, None, None) => 0,
    }
}

/// The margins at the top, the bottom, the left and the right that the options of a
/// padding command come to. The option for one side goes before the one for its axis,
/// and that one before the option for all sides.
pub open spec fn margins(
    all: Option<u32>,
    top: Option<u32>,
    bottom: Option<u32>,
    left: Option<u32>,
    right: Option<u32>,
    horizontal: Option<u32>,
    vertical: Option<u32>,
) -> (u32, u32, u32, u32) {
    (
        first_given(top, vertical, all),
        first_given(bottom, vertical, all),
        first_given(left, horizontal, all),
        first_given(right, horizontal, all),
    )
}

/// The message for a padding command without any margin.
pub open spec fn no_padding_message() -> Seq<char> {
    "At least one padding value must be specified"@
}

/// The margins that the options of a padding command come to, as top, bottom, left and
/// right. Options that leave every margin at 0 are refused.
pub fn pad_margins(
    all: Option<u32>,
    top: Option<u32>,
    bottom: Option<u32>,
    left: Option<u32>,
    right: Option<u32>,
    horizontal: Option<u32>,
    vertical: Option<u32>,
) -> (res: Result<(u32, u32, u32, u32), ImgEditError>)
    ensures
        res is Err <==> margins(all, top, bottom, left, right, horizontal, vertical) == (
            0u32,
            0u32,
            0u32,
            0u32,
        ),
        res matches Ok(m) ==> m == margins(all, top, bottom, left, right, horizontal, vertical),
        res matches Err(e) ==> e matches ImgEditError::InvalidParameter(m) && m@
            == no_padding_message(),
{
    let pad_top = choose_first(top, vertical, all);
    let pad_bottom = choose_first(bottom, vertical, all);
    let pad_left = choose_first(left, horizontal, all);
    let pad_right = choose_first(right, horizontal, all);
    if pad_top == 0 && pad_bottom == 0 && pad_left == 0 && pad_right == 0 {
        return Err(
            ImgEditError::InvalidParameter(
                String::from_str("At least one padding value must be specified"),
            ),
        );
    }
    Ok((pad_top, pad_bottom, pad_left, pad_right))
}

/// The reason given for not writing over a file.
pub open spec fn overwrite_reason() -> Seq<char> {
    "File exists. Use --overwrite (-y) to replace."@
}

/// Whether a command may write its output to `path`: it may not where a file exists
/// there already and overwriting was not asked for.
pub fn check_output_overwrite(path: &str, exists: bool, overwrite: bool) -> (res: Result<
    (),
    ImgEditError,
>)
    ensures
        res is Err <==> exists && !overwrite,
        res matches Err(e) ==> e matches ImgEditError::WriteError { path: p, reason } && p@
            == path@ && reason@ == overwrite_reason(),
{
    if exists && !overwrite {
        return Err(
            ImgEditError::WriteError {
                path: String::from_str(path),
                reason: String::from_str("File exists. Use --overwrite (-y) to replace."),
            },
        );
    }
    Ok(())
}

} // verus!
