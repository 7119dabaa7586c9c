//! Brightness, contrast and gamma: one transform of a sample's value, applied to the
//! red, green and blue of every pixel.

use vstd::prelude::*;
use crate::buffer::{PixelBuffer, PixelGrid};
use crate::color::Rgba;
use crate::error::ImgEditError;
use crate::fixed::{clamp_sample, lemma_round_div_floor, round_div, Milli};
use crate::text::{push_signed_decimal, signed_decimal};

verus! {

/// `color` with `table` applied to its red, green and blue, and to its alpha too if
/// `alpha_too`.
pub open spec fn map_color(color: Rgba, table: Seq<u8>, alpha_too: bool) -> Rgba {
    Rgba {
        r: table[color.r as int],
        g: table[color.g as int],
        b: table[color.b as int],
        a: if alpha_too {
            table[color.a as int]
        } else {
            color.a
        },
    }
}

/// `grid` with `table` applied to every color.
pub open spec fn map_grid(grid: PixelGrid, table: Seq<u8>, alpha_too: bool) -> PixelGrid {
    PixelGrid {
        width: grid.width,
        height: grid.height,
        pixels: Seq::new(grid.pixels.len(), |i: int| map_color(grid.pixels[i], table, alpha_too)),
    }
}

/// A copy of `img` with `table` applied to every color.
pub fn apply_table(img: &PixelBuffer, table: &Vec<u8>, alpha_too: bool) -> (out: PixelBuffer)
    requires
        img.wf(),
        table@.len() == 256,
    ensures
        out.wf(),
        out@ == map_grid(img@, table@, alpha_too),
{
    let source = img.as_pixels();
    let mut pixels: Vec<Rgba> = Vec::new();
    let mut i: usize = 0;
    while i < source.len()
        invariant
            i <= source.len(),
            table@.len() == 256,
            pixels@.len() == i,
            forall|j: int|
                0 <= j < i ==> #[trigger] pixels@[j] == map_color(source@[j], table@, alpha_too),
        decreases source.len() - i,
    {
        let c = source[i];
        let a: u8 = if alpha_too {
            table[c.a as usize]
        } else {
            c.a
        };
        pixels.push(
            Rgba { r: table[c.r as usize], g: table[c.g as usize], b: table[c.b as usize], a },
        );
        i = i + 1;
    }
    assert(pixels@ =~= map_grid(img@, table@, alpha_too).pixels);
    PixelBuffer::new(img.width(), img.height(), pixels)
}

/// A sample raised by `adjustment`, held to the range 0 to 255.
pub open spec fn adjust_channel_spec(value: u8, adjustment: int) -> int {
    clamp_sample(value + adjustment)
}

/// A sample raised by `adjustment`, held to the range 0 to 255.
pub fn adjust_channel(value: u8, adjustment: i32) -> (out: u8)
    ensures
        out == adjust_channel_spec(value, adjustment as int),
{
    let sum: i64 = value as i64 + adjustment as i64;
    if sum < 0 {
        0
    } else if sum > 255 {
        255
    } else {
        sum as u8
    }
}

/// The table of `adjust_channel` for every sample.
pub open spec fn brightness_table(adjustment: int) -> Seq<u8> {
    Seq::new(256, |v: int| adjust_channel_spec(v as u8, adjustment) as u8)
}

/// The message for a brightness outside the accepted range.
pub open spec fn brightness_range_message(value: int) -> Seq<char> {
    "Brightness value must be between -255 and 255, got "@ + signed_decimal(value)
}

/// Adds `value` to the red, green and blue of every pixel, holding each to the range
/// 0 to 255; alpha stays. A `value` outside -255 to 255 is refused.
pub fn brightness(img: &PixelBuffer, value: i32) -> (res: Result<PixelBuffer, ImgEditError>)
    requires
        img.wf(),
    ensures
        res is Ok <==> -255 <= value <= 255,
        res matches Ok(out) ==> out.wf() && out@ == map_grid(
            img@,
            brightness_table(value as int),
            false,
        ),
        res matches Err(e) ==> e matches ImgEditError::InvalidParameter(m) && m@
            == brightness_range_message(value as int),
{
    if value < -255 || value > 255 {
        let mut m = String::from_str("Brightness value must be between -255 and 255, got ");
        push_signed_decimal(&mut m, value as i64);
        return Err(ImgEditError::InvalidParameter(m));
    }
    let mut table: Vec<u8> = Vec::new();
    let mut v: usize = 0;
    while v < 256
        invariant
            v <= 256,
            table@.len() == v,
            forall|j: int|
                0 <= j < v ==> #[trigger] table@[j] == adjust_channel_spec(j as u8, value as int),
        decreases 256 - v,
    {
        table.push(adjust_channel(v as u8, value));
        v = v + 1;
    }
    assert(table@ =~= brightness_table(value as int));
    Ok(apply_table(img, &table, false))
}

/// A sample moved away from the midpoint 128, or toward it, by `factor` thousandths of
/// its distance: the integer nearest to `(value - 128) * factor / 1000 + 128`, held to
/// the range 0 to 255.
pub open spec fn contrast_channel_spec(value: u8, factor: int) -> int {
    clamp_sample(round_div((value - 128) * factor + 128 * 1000, 1000))
}

/// A sample moved away from the midpoint 128, or toward it, by `factor`.
pub fn contrast_channel(value: u8, factor: Milli) -> (out: u8)
    ensures
        out == contrast_channel_spec(value, factor.thousandths()),
{
    let distance: i128 = value as i128 - 128;
    assert(-128 * 0x8000_0000_0000_0000 <= distance * factor.0 <= 128 * 0x8000_0000_0000_0000)
        by (nonlinear_arith)
        requires
            -128 <= distance <= 127,
            -0x8000_0000_0000_0000 <= factor.0 < 0x8000_0000_0000_0000,
    ;
    let scaled: i128 = distance * (factor.0 as i128) + 128500;
    let ghost exact = round_div((value - 128) * factor.0 + 128 * 1000, 1000);
    proof {
        lemma_round_div_floor((value - 128) * factor.0 + 128 * 1000, 1000);
    }
    assert(exact == (scaled as int) / 1000int);
    assert(scaled < 0 ==> exact < 0);
    if scaled < 0 {
        0
    } else if scaled / 1000 > 255 {
        255
    } else {
        (scaled / 1000) as u8
    }
}

/// The table of `contrast_channel` for every sample.
pub open spec fn contrast_table(factor: int) -> Seq<u8> {
    Seq::new(256, |v: int| contrast_channel_spec(v as u8, factor) as u8)
}

/// The message for a contrast outside the accepted range.
pub open spec fn contrast_range_message(value: Milli) -> Seq<char> {
    "Contrast value must be between 0.0 and 10.0, got "@ + value.text()
}

/// Scales the distance of the red, green and blue of every pixel from the midpoint 128
/// by `value`; alpha stays. A `value` outside 0 to 10 is refused.
pub fn contrast(img: &PixelBuffer, value: Milli) -> (res: Result<PixelBuffer, ImgEditError>)
    requires
        img.wf(),
    ensures
        res is Ok <==> 0 <= value.thousandths() <= 10000,
        res matches Ok(out) ==> out.wf() && out@ == map_grid(
            img@,
            contrast_table(value.thousandths()),
            false,
        ),
        res matches Err(e) ==> e matches ImgEditError::InvalidParameter(m) && m@
            == contrast_range_message(value),
{
    if !value.within(0, 10000) {
        let mut m = String::from_str("Contrast value must be between 0.0 and 10.0, got ");
        value.push_text(&mut m);
        return Err(ImgEditError::InvalidParameter(m));
    }
    let mut table: Vec<u8> = Vec::new();
    let mut v: usize = 0;
    while v < 256
        invariant
            v <= 256,
            table@.len() == v,
            forall|j: int|
                0 <= j < v ==> #[trigger] table@[j] == contrast_channel_spec(
                    j as u8,
                    value.thousandths(),
                ),
        decreases 256 - v,
    {
        table.push(contrast_channel(v as u8, value));
        v = v + 1;
    }
    assert(table@ =~= contrast_table(value.thousandths()));
    Ok(apply_table(img, &table, false))
}

/// A gamma curve sampled at the 256 values of a sample. Black and white are fixed
/// points of every gamma curve, so a table must map 0 to 0 and 255 to 255.
pub struct GammaTable {
    entries: Vec<u8>,
}

impl View for GammaTable {
    type V = Seq<u8>;

    closed spec fn view(&self) -> Seq<u8> {
        self.entries@
    }
}

impl GammaTable {
    /// Whether `entries` can be a gamma curve: one entry for each value of a sample,
    /// black and white mapped to themselves.
    pub open spec fn valid(entries: Seq<u8>) -> bool {
        entries.len() == 256 && entries[0] == 0 && entries[255] == 255
    }

    pub open spec fn wf(&self) -> bool {
        Self::valid(self@)
    }

    /// The table with the given entries; `None` unless they can be a gamma curve.
    pub fn new(entries: Vec<u8>) -> (res: Option<GammaTable>)
        ensures
            res is Some <==> Self::valid(entries@),
            res matches Some(t) ==> t.wf() && t@ == entries@,
    {
        if entries.len() == 256 && entries[0] == 0 && entries[255] == 255 {
            Some(GammaTable { entries })
        } else {
            None
        }
    }

    /// The curve of gamma 1, which maps every value to itself.
    pub fn identity() -> (t: GammaTable)
        ensures
            t.wf(),
            forall|v: int| 0 <= v < 256 ==> #[trigger] t@[v] == v,
    {
        let mut entries: Vec<u8> = Vec::new();
        let mut v: usize = 0;
        while v < 256
            invariant
                v <= 256,
                entries@.len() == v,
                forall|j: int| 0 <= j < v ==> #[trigger] entries@[j] == j,
            decreases 256 - v,
        {
            entries.push(v as u8);
            v = v + 1;
        }
        GammaTable { entries }
    }

    /// What the curve maps `value` to.
    pub fn get(&self, value: u8) -> (out: u8)
        requires
            self.wf(),
        ensures
            out == self@[value as int],
    {
        self.entries[value as usize]
    }
}

/// The message for a gamma outside the accepted range.
pub open spec fn gamma_range_message(value: Milli) -> Seq<char> {
    "Gamma value must be between 0.1 and 10.0, got "@ + value.text()
}

/// The curve that `gamma` applies for the gamma `value`, in thousandths: for gamma 1
/// the curve that maps every sample to itself, whatever the table; else the table.
pub open spec fn gamma_curve(value: int, table: Seq<u8>) -> Seq<u8> {
    if value == 1000 {
        Seq::new(256, |v: int| v as u8)
    } else {
        table
    }
}

/// Applies a gamma curve to the red, green and blue of every pixel; alpha stays. Gamma
/// 1 leaves every image as it is. For any other gamma the curve is `table`, which the
/// caller has sampled for `value`. A `value` outside 0.1 to 10 is refused.
pub fn gamma(img: &PixelBuffer, value: Milli, table: &GammaTable) -> (res: Result<
    PixelBuffer,
    ImgEditError,
>)
    requires
        img.wf(),
        table.wf(),
    ensures
        res is Ok <==> 100 <= value.thousandths() <= 10000,
        res matches Ok(out) ==> out.wf() && out@ == map_grid(
            img@,
            gamma_curve(value.thousandths(), table@),
            false,
        ),
        res matches Ok(out) ==> (value.thousandths() == 1000 ==> out@ == img@),
        res matches Err(e) ==> e matches ImgEditError::InvalidParameter(m) && m@
            == gamma_range_message(value),
{
    if !value.within(100, 10000) {
        let mut m = String::from_str("Gamma value must be between 0.1 and 10.0, got ");
        value.push_text(&mut m);
        return Err(ImgEditError::InvalidParameter(m));
    }
    if value.0 == 1000 {
        let identity = GammaTable::identity();
        assert(identity@ =~= gamma_curve(1000, table@));
        proof {
            lemma_identity_table(img@, identity@);
        }
        return Ok(apply_table(img, &identity.entries, false));
    }
    Ok(apply_table(img, &table.entries, false))
}

/// Contrast leaves a sample at the midpoint 128 where it is, whatever the factor.
pub proof fn lemma_contrast_fixes_midpoint(factor: int)
    ensures
        contrast_channel_spec(128, factor) == 128,
        contrast_table(factor)[128] == 128,
{
    assert((128int - 128) * factor == 0) by (nonlinear_arith);
    lemma_round_div_floor(128000, 1000);
}

/// A table that maps every sample to itself leaves every image as it is: so does the
/// curve of gamma 1.
pub proof fn lemma_identity_table(grid: PixelGrid, table: Seq<u8>)
    requires
        grid.wf(),
        table.len() == 256,
        forall|v: int| 0 <= v < 256 ==> #[trigger] table[v] == v,
    ensures
        map_grid(grid, table, false) == grid,
{
    assert(map_grid(grid, table, false).pixels =~= grid.pixels);
}

/// Whatever the gamma, the curve that `gamma` applies keeps black black and white white,
/// in each channel.
pub proof fn lemma_gamma_fixes_extremes(color: Rgba, value: int, table: Seq<u8>)
    requires
        GammaTable::valid(table),
    ensures
        color.r == 0 ==> map_color(color, gamma_curve(value, table), false).r == 0,
        color.g == 0 ==> map_color(color, gamma_curve(value, table), false).g == 0,
        color.b == 0 ==> map_color(color, gamma_curve(value, table), false).b == 0,
        color.r == 255 ==> map_color(color, gamma_curve(value, table), false).r == 255,
        color.g == 255 ==> map_color(color, gamma_curve(value, table), false).g == 255,
        color.b == 255 ==> map_color(color, gamma_curve(value, table), false).b == 255,
{
}

/// Gamma 1 leaves every image as it is, whatever table comes with it.
pub proof fn lemma_gamma_one_is_identity(grid: PixelGrid, table: Seq<u8>)
    requires
        grid.wf(),
    ensures
        map_grid(grid, gamma_curve(1000, table), false) == grid,
{
    lemma_identity_table(grid, gamma_curve(1000, table));
}

} // verus!
