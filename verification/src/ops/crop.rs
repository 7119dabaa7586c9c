//! Cropping: a rectangular region of an image as an image of its own.

use vstd::prelude::*;
use crate::buffer::{PixelBuffer, PixelGrid};
use crate::cli::args::{Alignment, Anchor};
use crate::color::Rgba;
use crate::error::ImgEditError;
use crate::ops::canvas::{aligned, place};
use crate::text::{decimal, push_decimal};

verus! {

/// How much longer the image is than the region along one axis, or 0 if it is shorter.
pub open spec fn spare(image: int, region: int) -> int {
    if image >= region {
        image - region
    } else {
        0
    }
}

/// Where a region `crop_width` by `crop_height` starts in an image `img_width` by
/// `img_height`: where `anchor` puts it, moved right by `x_offset` and down by
/// `y_offset`.
pub open spec fn crop_position(
    img_width: int,
    img_height: int,
    crop_width: int,
    crop_height: int,
    x_offset: int,
    y_offset: int,
    anchor: Anchor,
) -> (int, int) {
    (
        aligned(spare(img_width, crop_width), anchor.horizontal_spec()) + x_offset,
        aligned(spare(img_height, crop_height), anchor.vertical_spec()) + y_offset,
    )
}

fn anchored(image: u32, region: u32, alignment: Alignment) -> (start: u32)
    ensures
        start == aligned(spare(image as int, region as int), alignment),
        start <= image,
{
    let room: u32 = if image >= region {
        image - region
    } else {
        0
    };
    match alignment {
        Alignment::Start => 0,
        Alignment::Middle => room / 2,
        Alignment::End => room,
    }
}

/// Where a region starts in an image: see `crop_position`.
pub fn calculate_crop_position(
    img_width: u32,
    img_height: u32,
    crop_width: u32,
    crop_height: u32,
    x_offset: u32,
    y_offset: u32,
    anchor: Anchor,
) -> (position: (u32, u32))
    requires
        crop_position(
            img_width as int,
            img_height as int,
            crop_width as int,
            crop_height as int,
            x_offset as int,
            y_offset as int,
            anchor,
        ).0 <= u32::MAX,
        crop_position(
            img_width as int,
            img_height as int,
            crop_width as int,
            crop_height as int,
            x_offset as int,
            y_offset as int,
            anchor,
        ).1 <= u32::MAX,
    ensures
        position.0 == crop_position(
            img_width as int,
            img_height as int,
            crop_width as int,
            crop_height as int,
            x_offset as int,
            y_offset as int,
            anchor,
        ).0,
        position.1 == crop_position(
            img_width as int,
            img_height as int,
            crop_width as int,
            crop_height as int,
            x_offset as int,
            y_offset as int,
            anchor,
        ).1,
{
    let anchor_x: u32 = anchored(img_width, crop_width, anchor.horizontal());
    let anchor_y: u32 = anchored(img_height, crop_height, anchor.vertical());
    (anchor_x + x_offset, anchor_y + y_offset)
}

/// The region of `grid` that is `width` by `height` and starts at column `left` of row
/// `top`.
pub open spec fn cropped(grid: PixelGrid, left: int, top: int, width: nat, height: nat) -> PixelGrid {
    PixelGrid {
        width,
        height,
        pixels: Seq::new(
            width * height,
            |i: int| grid.at(left + i % (width as int), top + i / (width as int)),
        ),
    }
}

/// Whether the region lies inside the image.
pub open spec fn region_fits(grid: PixelGrid, left: int, top: int, width: int, height: int) -> bool {
    left + width <= grid.width && top + height <= grid.height
}

/// The message for a region without any pixel.
pub open spec fn crop_zero_message() -> Seq<char> {
    "Crop width and height must be greater than 0"@
}

/// The message for a region that leaves the image.
pub open spec fn crop_bounds_message(
    left: int,
    top: int,
    width: int,
    height: int,
    img_width: int,
    img_height: int,
) -> Seq<char> {
    "Crop region ("@ + decimal(left as nat) + ", "@ + decimal(top as nat) + ") + "@ + decimal(
        width as nat,
    ) + "x"@ + decimal(height as nat) + " exceeds image bounds "@ + decimal(img_width as nat)
        + "x"@ + decimal(img_height as nat)
}

fn bounds_message(left: u64, top: u64, width: u32, height: u32, img_width: u32, img_height: u32) -> (m:
    String)
    ensures
        m@ == crop_bounds_message(
            left as int,
            top as int,
            width as int,
            height as int,
            img_width as int,
            img_height as int,
        ),
{
    let mut m = String::from_str("Crop region (");
    push_decimal(&mut m, left);
    m.append(", ");
    push_decimal(&mut m, top);
    m.append(") + ");
    push_decimal(&mut m, width as u64);
    m.append("x");
    push_decimal(&mut m, height as u64);
    m.append(" exceeds image bounds ");
    push_decimal(&mut m, img_width as u64);
    m.append("x");
    push_decimal(&mut m, img_height as u64);
    m
}

/// Cuts the region `width` by `height` out of `img`, starting where `anchor` puts it,
/// moved right by `x` and down by `y`. A region without any pixel is refused as
/// `InvalidDimensions`; one that does not lie inside the image is refused as
/// `CropOutOfBounds`, never cut down to fit.
pub fn crop(img: &PixelBuffer, x: u32, y: u32, width: u32, height: u32, anchor: Anchor) -> (res:
    Result<PixelBuffer, ImgEditError>)
    requires
        img.wf(),
    ensures
        ({
            let position = crop_position(
                img@.width as int,
                img@.height as int,
                width as int,
                height as int,
                x as int,
                y as int,
                anchor,
            );
            let fits = region_fits(img@, position.0, position.1, width as int, height as int);
            match res {
                Ok(out) => {
                    &&& width > 0 && height > 0 && fits
                    &&& out.wf()
                    &&& out@ == cropped(img@, position.0, position.1, width as nat, height as nat)
                },
                Err(ImgEditError::InvalidDimensions(m)) => {
                    &&& width == 0 || height == 0
                    &&& m@ == crop_zero_message()
                },
                Err(ImgEditError::CropOutOfBounds(m)) => {
                    &&& width > 0 && height > 0 && !fits
                    &&& m@ == crop_bounds_message(
                        position.0,
                        position.1,
                        width as int,
                        height as int,
                        img@.width as int,
                        img@.height as int,
                    )
                },
                Err(_) => false,
            }
        }),
{
    let img_width: u32 = img.width();
    let img_height: u32 = img.height();
    if width == 0 || height == 0 {
        return Err(
            ImgEditError::InvalidDimensions(
                String::from_str("Crop width and height must be greater than 0"),
            ),
        );
    }
    let left: u64 = anchored(img_width, width, anchor.horizontal()) as u64 + x as u64;
    let top: u64 = anchored(img_height, height, anchor.vertical()) as u64 + y as u64;
    if left + width as u64 > img_width as u64 || top + height as u64 > img_height as u64 {
        return Err(
            ImgEditError::CropOutOfBounds(
                bounds_message(left, top, width, height, img_width, img_height),
            ),
        );
    }
    let total: usize = img.as_pixels().len();
    proof {
        assert(width * height <= img_width * img_height) by (nonlinear_arith)
            requires
                0 <= width <= img_width,
                0 <= height <= img_height,
        ;
        assert(total == img_width * img_height);
    }
    let out = place(
        img,
        width,
        height,
        -(left as i64),
        -(top as i64),
        Rgba { r: 0, g: 0, b: 0, a: 0 },
    );
    proof {
        let goal = cropped(img@, left as int, top as int, width as nat, height as nat);
        assert forall|i: int| 0 <= i < out@.pixels.len() implies out@.pixels[i]
            == goal.pixels[i] by {
            let w = width as int;
            vstd::arithmetic::div_mod::lemma_fundamental_div_mod(i, w);
            assert(w * (i / w) == (i / w) * w) by (nonlinear_arith);
            assert(0 <= i / w < height) by (nonlinear_arith)
                requires
                    i == (i / w) * w + i % w,
                    0 <= i % w < w,
                    0 <= i < w * height,
            ;
        }
        assert(out@.pixels =~= goal.pixels);
    }
    Ok(out)
}

} // verus!
