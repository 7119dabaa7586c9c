//! Blur and sharpening: the ranges of their parameters, and the unsharp mask.

use vstd::prelude::*;
use crate::buffer::{PixelBuffer, PixelGrid};
use crate::color::Rgba;
use crate::error::ImgEditError;
use crate::fixed::{clamp_sample, lemma_round_div_floor, round_div, Milli};

verus! {

/// The message for a blur radius outside the accepted range.
pub open spec fn blur_radius_message(radius: Milli) -> Seq<char> {
    "Blur radius must be between 0.1 and 100.0, got "@ + radius.text()
}

/// The message for a sharpening amount outside the accepted range.
pub open spec fn sharpen_amount_message(amount: Milli) -> Seq<char> {
    "Sharpen amount must be between 0.0 and 10.0, got "@ + amount.text()
}

/// The message for a sharpening radius outside the accepted range.
pub open spec fn sharpen_radius_message(radius: Milli) -> Seq<char> {
    "Sharpen radius must be between 0.1 and 10.0, got "@ + radius.text()
}

/// Accepts a blur radius from 0.1 to 100 and refuses any other.
pub fn check_blur(radius: Milli) -> (res: Result<(), ImgEditError>)
    ensures
        res is Ok <==> 100 <= radius.thousandths() <= 100000,
        res matches Err(e) ==> e matches ImgEditError::InvalidParameter(m) && m@
            == blur_radius_message(radius),
{
    if !radius.within(100, 100000) {
        let mut m = String::from_str("Blur radius must be between 0.1 and 100.0, got ");
        radius.push_text(&mut m);
        return Err(ImgEditError::InvalidParameter(m));
    }
    Ok(())
}

/// Accepts a sharpening amount from 0 to 10 with a radius from 0.1 to 10, and refuses
/// any other; the amount is looked at first. For what is accepted, tells whether there
/// is anything to do: an amount of 0 leaves every image as it is.
pub fn check_sharpen(amount: Milli, radius: Milli) -> (res: Result<bool, ImgEditError>)
    ensures
        res is Ok <==> 0 <= amount.thousandths() <= 10000 && 100 <= radius.thousandths() <= 10000,
        res matches Ok(needed) ==> needed == (amount.thousandths() != 0),
        res matches Err(e) ==> e matches ImgEditError::InvalidParameter(m) && m@ == if 0
            <= amount.thousandths() <= 10000 {
            sharpen_radius_message(radius)
        } else {
            sharpen_amount_message(amount)
        },
{
    if !amount.within(0, 10000) {
        let mut m = String::from_str("Sharpen amount must be between 0.0 and 10.0, got ");
        amount.push_text(&mut m);
        return Err(ImgEditError::InvalidParameter(m));
    }
    if !radius.within(100, 10000) {
        let mut m = String::from_str("Sharpen radius must be between 0.1 and 10.0, got ");
        radius.push_text(&mut m);
        return Err(ImgEditError::InvalidParameter(m));
    }
    Ok(amount.0 != 0)
}

/// A sample moved away from its blurred value by `amount` thousandths of their
/// difference: the integer nearest to `sample + amount / 1000 * (sample -
/// blurred)`, held to the range 0 to 255.
pub open spec fn sharpen_channel_spec(sample: u8, blurred: u8, amount: int) -> int {
    clamp_sample(round_div(sample * 1000 + amount * (sample - blurred), 1000))
}

/// A sample moved away from its blurred value by `amount` times their difference.
pub fn sharpen_channel(sample: u8, blurred: u8, amount: Milli) -> (out: u8)
    ensures
        out == sharpen_channel_spec(sample, blurred, amount.thousandths()),
{
    let difference: i128 = sample as i128 - blurred as i128;
    assert(-255 * 0x8000_0000_0000_0000 <= amount.0 * difference <= 255 * 0x8000_0000_0000_0000)
        by (nonlinear_arith)
        requires
            -255 <= difference <= 255,
            -0x8000_0000_0000_0000 <= amount.0 < 0x8000_0000_0000_0000,
    ;
    let scaled: i128 = (sample as i128) * 1000 + (amount.0 as i128) * difference + 500;
    let ghost exact = round_div(sample * 1000 + amount.0 * (sample - blurred), 1000);
    proof {
        lemma_round_div_floor(sample * 1000 + amount.0 * (sample - blurred), 1000);
    }
    assert(exact == (scaled as int) / 1000int);
    assert(scaled < 0 ==> exact < 0);
    if scaled < 0 {
        0
    } else if scaled / 1000 > 255 {
        255
    } else {
        (scaled / 1000) as u8
    }
}

/// A color sharpened against its blurred value; alpha stays.
pub open spec fn sharpen_color(sample: Rgba, blurred: Rgba, amount: int) -> Rgba {
    Rgba {
        r: sharpen_channel_spec(sample.r, blurred.r, amount) as u8,
        g: sharpen_channel_spec(sample.g, blurred.g, amount) as u8,
        b: sharpen_channel_spec(sample.b, blurred.b, amount) as u8,
        a: sample.a,
    }
}

/// `grid` sharpened against `blurred`, a grid of the same dimensions.
pub open spec fn sharpened(grid: PixelGrid, blurred: PixelGrid, amount: int) -> PixelGrid {
    PixelGrid {
        width: grid.width,
        height: grid.height,
        pixels: Seq::new(
            grid.pixels.len(),
            |i: int| sharpen_color(grid.pixels[i], blurred.pixels[i], amount),
        ),
    }
}

/// Sharpens `img` by an unsharp mask: every red, green and blue moves away from its
/// value in `blurred`, the same image after a Gaussian blur, by `amount` times their
/// difference. An amount of 0 gives the image back. Parameters out of range are
/// refused as `check_sharpen` tells.
pub fn sharpen(img: &PixelBuffer, blurred: &PixelBuffer, amount: Milli, radius: Milli) -> (res:
    Result<PixelBuffer, ImgEditError>)
    requires
        img.wf(),
        blurred.wf(),
        blurred@.width == img@.width,
        blurred@.height == img@.height,
    ensures
        res is Ok <==> 0 <= amount.thousandths() <= 10000 && 100 <= radius.thousandths() <= 10000,
        res matches Ok(out) ==> out.wf() && out@ == if amount.thousandths() == 0 {
            img@
        } else {
            sharpened(img@, blurred@, amount.thousandths())
        },
        res matches Err(e) ==> e matches ImgEditError::InvalidParameter(m) && m@ == if 0
            <= amount.thousandths() <= 10000 {
            sharpen_radius_message(radius)
        } else {
            sharpen_amount_message(amount)
        },
{
    match check_sharpen(amount, radius) {
        Err(e) => {
            return Err(e);
        },
        Ok(needed) => {
            if !needed {
                return Ok(img.duplicate());
            }
        },
    }
    let source = img.as_pixels();
    let soft = blurred.as_pixels();
    let mut pixels: Vec<Rgba> = Vec::new();
    let mut i: usize = 0;
    while i < source.len()
        invariant
            i <= source.len(),
            source.len() == soft.len(),
            pixels@.len() == i,
            forall|j: int|
                0 <= j < i ==> #[trigger] pixels@[j] == sharpen_color(
                    source@[j],
                    soft@[j],
                    amount.thousandths(),
                ),
        decreases source.len() - i,
    {
        let c = source[i];
        let s = soft[i];
        pixels.push(
            Rgba {
                r: sharpen_channel(c.r, s.r, amount),
                g: sharpen_channel(c.g, s.g, amount),
                b: sharpen_channel(c.b, s.b, amount),
                a: c.a,
            },
        );
        i = i + 1;
    }
    assert(pixels@ =~= sharpened(img@, blurred@, amount.thousandths()).pixels);
    Ok(PixelBuffer::new(img.width(), img.height(), pixels))
}

} // verus!
