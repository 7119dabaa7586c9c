//! Resizing: to given dimensions, by a factor, or to fit within bounds.

use vstd::prelude::*;
use crate::buffer::{PixelBuffer, PixelGrid};
use crate::cli::args::ResizeFilter;
use crate::error::ImgEditError;
use crate::fixed::{round_div, Milli};

verus! {

/// `v`, or the greatest 32-bit number if `v` is beyond it.
pub open spec fn saturated(v: int) -> int {
    if v > u32::MAX {
        u32::MAX as int
    } else {
        v
    }
}

/// `length * numerator / denominator` to the nearest integer, held to 32 bits. A zero
/// denominator stands for a factor beyond all bounds.
pub open spec fn scaled_length(length: int, numerator: int, denominator: int) -> int {
    if denominator == 0 {
        if length == 0 || numerator == 0 {
            0
        } else {
            u32::MAX as int
        }
    } else {
        saturated(round_div(length * numerator, denominator))
    }
}

/// Why a request for new dimensions is refused.
pub enum SizeError {
    /// A parameter is missing or out of range.
    Parameter(Seq<char>),
    /// The dimensions asked for, or arrived at, are zero.
    Dimensions(Seq<char>),
}

/// The dimensions that `resize` gives an image `img_width` by `img_height`. A `scale`
/// goes before everything else; a width or a height alone keeps the image's
/// proportions, and gives at least one pixel along the other axis.
pub open spec fn resize_target(
    img_width: int,
    img_height: int,
    width: Option<u32>,
    height: Option<u32>,
    scale: Option<Milli>,
) -> Result<(int, int), SizeError> {
    match scale {
        Some(s) => {
            if s.thousandths() <= 0 {
                Err(SizeError::Parameter("Scale must be positive"@))
            } else {
                let w = scaled_length(img_width, s.thousandths(), 1000);
                let h = scaled_length(img_height, s.thousandths(), 1000);
                if w == 0 || h == 0 {
                    Err(SizeError::Dimensions("Scaled dimensions would be zero"@))
                } else {
                    Ok((w, h))
                }
            }
        },
        None => match (width, height) {
            (Some(w), Some(h)) => if w == 0 || h == 0 {
                Err(SizeError::Dimensions("Width and height must be positive"@))
            } else {
                Ok((w as int, h as int))
            },
            (Some(w), None) => if w == 0 {
                Err(SizeError::Dimensions("Width must be positive"@))
            } else {
                let h = scaled_length(img_height, w as int, img_width);
                Ok((w as int, if h < 1 { 1 } else { h }))
            },
            (None, Some(h)) => if h == 0 {
                Err(SizeError::Dimensions("Height must be positive"@))
            } else {
                let w = scaled_length(img_width, h as int, img_height);
                Ok((if w < 1 { 1 } else { w }, h as int))
            },
            (None, None) => Err(SizeError::Parameter("Must specify width, height, or scale"@)),
        },
    }
}

/// Whether an error that was returned is the refusal that was specified.
pub open spec fn refusal_agrees(e: ImgEditError, refusal: SizeError) -> bool {
    match (e, refusal) {
        (ImgEditError::InvalidParameter(m), SizeError::Parameter(t)) => m@ == t,
        (ImgEditError::InvalidDimensions(m), SizeError::Dimensions(t)) => m@ == t,
        _ => false,
    }
}

/// `length * numerator / denominator` to the nearest integer, held to 32 bits.
fn scale_length(length: u32, numerator: u32, denominator: u32) -> (out: u32)
    ensures
        out == scaled_length(length as int, numerator as int, denominator as int),
{
    if denominator == 0 {
        if length == 0 || numerator == 0 {
            0
        } else {
            u32::MAX
        }
    } else {
        assert(0 <= length * numerator <= 0xffff_ffff * 0xffff_ffff) by (nonlinear_arith)
            requires
                0 <= length <= 0xffff_ffff,
                0 <= numerator <= 0xffff_ffff,
        ;
        let product: u64 = (length as u64) * (numerator as u64);
        let q: u128 = (2 * (product as u128) + denominator as u128) / (2 * (denominator as u128));
        if q > 0xffff_ffff {
            u32::MAX
        } else {
            q as u32
        }
    }
}

/// The dimensions that `resize` gives an image: see `resize_target`.
pub fn target_dimensions(
    img_width: u32,
    img_height: u32,
    width: Option<u32>,
    height: Option<u32>,
    scale: Option<Milli>,
) -> (res: Result<(u32, u32), ImgEditError>)
    ensures
        match (res, resize_target(img_width as int, img_height as int, width, height, scale)) {
            (Ok(d), Ok(t)) => d.0 == t.0 && d.1 == t.1 && d.0 > 0 && d.1 > 0,
            (Err(e), Err(refusal)) => refusal_agrees(e, refusal),
            _ => false,
        },
{
    match scale {
        Some(s) => {
            if s.0 <= 0 {
                return Err(ImgEditError::InvalidParameter(String::from_str("Scale must be positive")));
            }
            let w = scale_length_by(img_width, s);
            let h = scale_length_by(img_height, s);
            if w == 0 || h == 0 {
                return Err(
                    ImgEditError::InvalidDimensions(
                        String::from_str("Scaled dimensions would be zero"),
                    ),
                );
            }
            Ok((w, h))
        },
        None => match (width, height) {
            (Some(w), Some(h)) => {
                if w == 0 || h == 0 {
                    return Err(
                        ImgEditError::InvalidDimensions(
                            String::from_str("Width and height must be positive"),
                        ),
                    );
                }
                Ok((w, h))
            },
            (Some(w), None) => {
                if w == 0 {
                    return Err(
                        ImgEditError::InvalidDimensions(String::from_str("Width must be positive")),
                    );
                }
                let h = scale_length(img_height, w, img_width);
                Ok((w, if h < 1 { 1 } else { h }))
            },
            (None, Some(h)) => {
                if h == 0 {
                    return Err(
                        ImgEditError::InvalidDimensions(String::from_str("Height must be positive")),
                    );
                }
                let w = scale_length(img_width, h, img_height);
                Ok((if w < 1 { 1 } else { w }, h))
            },
            (None, None) => Err(
                ImgEditError::InvalidParameter(
                    String::from_str("Must specify width, height, or scale"),
                ),
            ),
        },
    }
}

/// `length` times a positive `scale`, to the nearest integer, held to 32 bits.
fn scale_length_by(length: u32, scale: Milli) -> (out: u32)
    requires
        scale.thousandths() > 0,
    ensures
        out == scaled_length(length as int, scale.thousandths(), 1000),
{
    assert(0 <= length * scale.0 <= 0xffff_ffff * 0x7fff_ffff_ffff_ffff) by (nonlinear_arith)
        requires
            0 <= length <= 0xffff_ffff,
            0 < scale.0 <= 0x7fff_ffff_ffff_ffff,
    ;
    let product: u128 = (length as u128) * (scale.0 as u128);
    let q: u128 = (2 * product + 1000) / 2000;
    if q > 0xffff_ffff {
        u32::MAX
    } else {
        q as u32
    }
}

/// `image::imageops::resize` on an RGBA image given by its samples, with the filter
/// that `filter` names: the samples of an image `new_width` by `new_height`. Where these are the dimensions it has already,
/// the samples are its own. Nothing else is claimed of them: they come of
/// floating-point sums that may differ between machines.
#[verifier::external_body]
fn resample_samples(
    width: u32,
    height: u32,
    samples: Vec<u8>,
    new_width: u32,
    new_height: u32,
    filter: ResizeFilter,
) -> (out: Vec<u8>)
    requires
        samples@.len() == 4 * (width * height),
        new_width > 0,
        new_height > 0,
        4 * (width * height) <= isize::MAX,
        4 * (new_width * new_height) <= isize::MAX,
        16 * (width * new_height) <= isize::MAX,
    ensures
        out@.len() == 4 * (new_width * new_height),
        new_width == width && new_height == height ==> out@ == samples@,
{
    let source = image::RgbaImage::from_raw(width, height, samples).unwrap();
    image::imageops::resize(&source, new_width, new_height, filter.to_image_filter()).into_raw()
}

/// `img` resampled to `width` by `height` with `filter`.
fn resample(img: &PixelBuffer, width: u32, height: u32, filter: ResizeFilter) -> (out: PixelBuffer)
    requires
        img.wf(),
        width > 0,
        height > 0,
        resample_fits(img@, width as int, height as int),
    ensures
        out.wf(),
        out@.width == width,
        out@.height == height,
        width == img@.width && height == img@.height ==> out@ == img@,
{
    let samples = img.to_raw();
    let resized = resample_samples(
        img.width(),
        img.height(),
        samples,
        width,
        height,
        filter,
    );
    let out = PixelBuffer::from_samples(width, height, &resized);
    proof {
        if width == img@.width && height == img@.height {
            assert(out@.pixels =~= img@.pixels);
        }
    }
    out
}

/// Whether the buffers that resampling `grid` to `width` by `height` goes through can
/// be allocated: the 8-bit samples of the image and of the result, and the 32-bit
/// samples of the image resampled along one axis only.
pub open spec fn resample_fits(grid: PixelGrid, width: int, height: int) -> bool {
    &&& 4 * (grid.width * grid.height) <= isize::MAX
    &&& 4 * (width * height) <= isize::MAX
    &&& 16 * (grid.width * height) <= isize::MAX
}

/// Resizes `img` to the dimensions that `resize_target` gives, resampling with
/// `filter`. The proportions are kept only where one of width and height is given
/// alone, or a scale.
pub fn resize(
    img: &PixelBuffer,
    width: Option<u32>,
    height: Option<u32>,
    scale: Option<Milli>,
    filter: ResizeFilter,
) -> (res: Result<PixelBuffer, ImgEditError>)
    requires
        img.wf(),
        resize_target(img@.width as int, img@.height as int, width, height, scale) matches Ok(t)
            ==> resample_fits(img@, t.0, t.1),
    ensures
        match (res, resize_target(img@.width as int, img@.height as int, width, height, scale)) {
            (Ok(out), Ok(t)) => {
                &&& out.wf()
                &&& out@.width == t.0
                &&& out@.height == t.1
                &&& (t.0 == img@.width && t.1 == img@.height ==> out@ == img@)
            },
            (Err(e), Err(refusal)) => refusal_agrees(e, refusal),
            _ => false,
        },
{
    match target_dimensions(img.width(), img.height(), width, height, scale) {
        Ok((w, h)) => Ok(resample(img, w, h, filter)),
        Err(e) => Err(e),
    }
}

/// What `fit` does to an image.
pub enum FitPlan {
    /// The image fits as it is, to one part in ten thousand.
    Keep,
    /// The image is resized to these dimensions.
    Resize(int, int),
    /// The request is refused.
    Refuse(SizeError),
}

/// The factor by which `fit` scales, as a numerator and a denominator: the smaller of
/// the factors that bring the width to `max_width` and the height to `max_height`, of
/// those that are given; 1 in place of a greater factor unless `upscale`.
pub open spec fn fit_scale(
    img_width: int,
    img_height: int,
    max_width: Option<u32>,
    max_height: Option<u32>,
    upscale: bool,
) -> (int, int) {
    let (numerator, denominator) = match (max_width, max_height) {
        (Some(w), Some(h)) => if w * img_height <= h * img_width {
            (w as int, img_width)
        } else {
            (h as int, img_height)
        },
        (Some(w), None) => (w as int, img_width),
        (None, Some(h)) => (h as int, img_height),
        (None, None) => (1, 1),
    };
    if !upscale && numerator > denominator {
        (1, 1)
    } else {
        (numerator, denominator)
    }
}

/// What `fit` does to an image `img_width` by `img_height`. An image without any pixel
/// cannot be fitted.
pub open spec fn fit_plan(
    img_width: int,
    img_height: int,
    max_width: Option<u32>,
    max_height: Option<u32>,
    upscale: bool,
) -> FitPlan {
    if max_width is None && max_height is None {
        FitPlan::Refuse(
            SizeError::Parameter("Must specify at least one of max-width or max-height"@),
        )
    } else if img_width == 0 || img_height == 0 {
        FitPlan::Refuse(SizeError::Dimensions("Resulting dimensions would be zero"@))
    } else {
        let (numerator, denominator) = fit_scale(
            img_width,
            img_height,
            max_width,
            max_height,
            upscale,
        );
        let difference = if numerator >= denominator {
            numerator - denominator
        } else {
            denominator - numerator
        };
        if difference * 10000 < denominator {
            FitPlan::Keep
        } else {
            let w = scaled_length(img_width, numerator, denominator);
            let h = scaled_length(img_height, numerator, denominator);
            if w == 0 || h == 0 {
                FitPlan::Refuse(SizeError::Dimensions("Resulting dimensions would be zero"@))
            } else {
                FitPlan::Resize(w, h)
            }
        }
    }
}

/// The dimensions to which `fit` resizes, or `None` where the image is kept.
pub fn fit_dimensions(
    img_width: u32,
    img_height: u32,
    max_width: Option<u32>,
    max_height: Option<u32>,
    upscale: bool,
) -> (res: Result<Option<(u32, u32)>, ImgEditError>)
    ensures
        match (res, fit_plan(img_width as int, img_height as int, max_width, max_height, upscale)) {
            (Ok(None), FitPlan::Keep) => true,
            (Ok(Some(d)), FitPlan::Resize(w, h)) => d.0 == w && d.1 == h && d.0 > 0 && d.1 > 0,
            (Err(e), FitPlan::Refuse(refusal)) => refusal_agrees(e, refusal),
            _ => false,
        },
{
    if max_width.is_none() && max_height.is_none() {
        return Err(
            ImgEditError::InvalidParameter(
                String::from_str("Must specify at least one of max-width or max-height"),
            ),
        );
    }
    if img_width == 0 || img_height == 0 {
        return Err(
            ImgEditError::InvalidDimensions(String::from_str("Resulting dimensions would be zero")),
        );
    }
    let (numerator, denominator): (u32, u32) = match (max_width, max_height) {
        (Some(w), Some(h)) => {
            assert(0 <= w * img_height <= 0xffff_ffff * 0xffff_ffff && 0 <= h * img_width
                <= 0xffff_ffff * 0xffff_ffff) by (nonlinear_arith)
                requires
                    0 <= w <= 0xffff_ffff,
                    0 <= h <= 0xffff_ffff,
                    0 <= img_width <= 0xffff_ffff,
                    0 <= img_height <= 0xffff_ffff,
            ;
            if (w as u64) * (img_height as u64) <= (h as u64) * (img_width as u64) {
                (w, img_width)
            } else {
                (h, img_height)
            }
        },
        (Some(w), None) => (w, img_width),
        (None, Some(h)) => (h, img_height),
        (None, None) => (1, 1),
    };
    let (numerator, denominator): (u32, u32) = if !upscale && numerator > denominator {
        (1, 1)
    } else {
        (numerator, denominator)
    };
    let difference: u64 = if numerator >= denominator {
        (numerator - denominator) as u64
    } else {
        (denominator - numerator) as u64
    };
    if difference * 10000 < denominator as u64 {
        return Ok(None);
    }
    let w = scale_length(img_width, numerator, denominator);
    let h = scale_length(img_height, numerator, denominator);
    if w == 0 || h == 0 {
        return Err(
            ImgEditError::InvalidDimensions(String::from_str("Resulting dimensions would be zero")),
        );
    }
    Ok(Some((w, h)))
}

/// Resizes `img`, keeping its proportions, to the greatest size within `max_width` and
/// `max_height`; an image that would have to grow stays as it is unless `upscale`.
pub fn fit(
    img: &PixelBuffer,
    max_width: Option<u32>,
    max_height: Option<u32>,
    upscale: bool,
    filter: ResizeFilter,
) -> (res: Result<PixelBuffer, ImgEditError>)
    requires
        img.wf(),
        fit_plan(img@.width as int, img@.height as int, max_width, max_height, upscale) matches FitPlan::Resize(
            w,
            h,
        ) ==> resample_fits(img@, w, h),
    ensures
        match (res, fit_plan(img@.width as int, img@.height as int, max_width, max_height, upscale)) {
            (Ok(out), FitPlan::Keep) => out@ == img@,
            (Ok(out), FitPlan::Resize(w, h)) => {
                &&& out.wf()
                &&& out@.width == w
                &&& out@.height == h
                &&& (w == img@.width && h == img@.height ==> out@ == img@)
            },
            (Err(e), FitPlan::Refuse(refusal)) => refusal_agrees(e, refusal),
            _ => false,
        },
{
    match fit_dimensions(img.width(), img.height(), max_width, max_height, upscale) {
        Ok(None) => Ok(img.duplicate()),
        Ok(Some((w, h))) => Ok(resample(img, w, h, filter)),
        Err(e) => Err(e),
    }
}

} // verus!
