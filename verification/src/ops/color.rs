//! Grayscale, inversion and bit-depth reduction.

use vstd::prelude::*;
use vstd::arithmetic::div_mod::{lemma_fundamental_div_mod, lemma_fundamental_div_mod_converse};
use crate::buffer::{
    GrayBuffer, GrayGrid, Image, PixelBuffer, PixelGrid, Rgba16, WideBuffer, WideGrid,
};
use crate::color::Rgba;
use crate::error::ImgEditError;
use crate::ops::adjust::{apply_table, map_color, map_grid};
use crate::text::{decimal, push_decimal};
use crate::fixed::{clamp_sample, lemma_round_div_floor, round_div, trunc_div};

verus! {

/// The luminance of a color: the integer nearest to `0.299 R + 0.587 G + 0.114 B`.
pub open spec fn luminance(c: Rgba) -> int {
    round_div(299 * c.r + 587 * c.g + 114 * c.b, 1000)
}

/// The luminance of each color of a sequence.
pub open spec fn luminances(pixels: Seq<Rgba>) -> Seq<int> {
    Seq::new(pixels.len(), |i: int| luminance(pixels[i]))
}

/// The one-bit level of a sample: white above 127, else black.
pub open spec fn quantize(v: int) -> int {
    if v > 127 {
        255
    } else {
        0
    }
}

/// `buf` with `d` added at place `i`.
pub open spec fn add_at(buf: Seq<int>, i: int, d: int) -> Seq<int> {
    buf.update(i, buf[i] + d)
}

/// The error buffer after place `k` of a `w` by `h` grid has been visited: the
/// difference between its clamped value and its one-bit level goes to the neighbors
/// not yet visited, 7/16 to the right, 3/16 below to the left, 5/16 below and 1/16
/// below to the right, each share rounded toward zero, neighbors outside the grid
/// left out.
pub open spec fn diffuse(buf: Seq<int>, w: int, h: int, k: int) -> Seq<int> {
    let x = k % w;
    let y = k / w;
    let level = clamp_sample(buf[k]);
    let error = level - quantize(level);
    let right = if x + 1 < w {
        add_at(buf, k + 1, trunc_div(error * 7, 16))
    } else {
        buf
    };
    let below_left = if y + 1 < h && x > 0 {
        add_at(right, k + w - 1, trunc_div(error * 3, 16))
    } else {
        right
    };
    let below = if y + 1 < h {
        add_at(below_left, k + w, trunc_div(error * 5, 16))
    } else {
        below_left
    };
    if y + 1 < h && x + 1 < w {
        add_at(below, k + w + 1, trunc_div(error, 16))
    } else {
        below
    }
}

/// The error buffer, seeded with the luminances `lum`, after the first `n` places have
/// been visited in row-major order.
pub open spec fn errors_after(lum: Seq<int>, w: int, h: int, n: nat) -> Seq<int>
    decreases n,
{
    if n == 0 {
        lum
    } else {
        diffuse(errors_after(lum, w, h, (n - 1) as nat), w, h, n - 1)
    }
}

/// The level that Floyd-Steinberg dithering gives place `k`.
pub open spec fn dithered(lum: Seq<int>, w: int, h: int, k: int) -> int {
    quantize(clamp_sample(errors_after(lum, w, h, k as nat)[k]))
}

/// The one-bit level of place `k` of `grid`, with or without dithering.
pub open spec fn one_bit(grid: PixelGrid, dither: bool, k: int) -> int {
    if dither {
        dithered(luminances(grid.pixels), grid.width as int, grid.height as int, k)
    } else {
        quantize(luminance(grid.pixels[k]))
    }
}

/// How far the value at place `j` can be from its luminance once `k` places have been
/// visited: the largest shares that the neighbors visited so far can have sent.
spec fn slack(j: int, k: int, w: int) -> int {
    if k <= j - w - 1 {
        0
    } else if k <= j - w {
        7
    } else if k <= j - w + 1 {
        46
    } else if k <= j - 1 {
        69
    } else {
        124
    }
}

proof fn lemma_place(w: int, h: int, k: int)
    requires
        w > 0,
        0 <= k < w * h,
    ensures
        0 <= k % w < w,
        0 <= k / w < h,
        k == (k / w) * w + k % w,
        k % w + 1 < w ==> k + 1 < w * h,
        k / w + 1 < h ==> k + w < w * h,
        k / w + 1 < h && k % w + 1 < w ==> k + w + 1 < w * h,
{
    let x = k % w;
    let y = k / w;
    lemma_fundamental_div_mod(k, w);
    assert(w * y == y * w) by (nonlinear_arith);
    assert(0 <= y < h) by (nonlinear_arith)
        requires
            k == y * w + x,
            0 <= x < w,
            0 <= k < w * h,
            w > 0,
    ;
    assert((y + 1) * w <= h * w) by (nonlinear_arith)
        requires
            y + 1 <= h,
            w > 0,
    ;
    assert((y + 1) * w == y * w + w) by (nonlinear_arith);
    assert(h * w == w * h) by (nonlinear_arith);
    if y + 1 < h {
        assert((y + 2) * w <= h * w) by (nonlinear_arith)
            requires
                y + 2 <= h,
                w > 0,
        ;
        assert((y + 2) * w == y * w + w + w) by (nonlinear_arith);
    }
}

/// No value of the error buffer ever leaves the range from -124 to 379.
proof fn lemma_errors_bounded(lum: Seq<int>, w: int, h: int, n: nat)
    requires
        w >= 0,
        h >= 0,
        lum.len() == w * h,
        forall|j: int| 0 <= j < lum.len() ==> 0 <= #[trigger] lum[j] <= 255,
        n <= w * h,
    ensures
        errors_after(lum, w, h, n).len() == lum.len(),
        forall|j: int|
            0 <= j < lum.len() ==> lum[j] - slack(j, n as int, w) <= #[trigger] errors_after(
                lum,
                w,
                h,
                n,
            )[j] <= lum[j] + slack(j, n as int, w),
    decreases n,
{
    if n > 0 {
        let k = n - 1;
        let prev = errors_after(lum, w, h, k as nat);
        lemma_errors_bounded(lum, w, h, k as nat);
        assert(w > 0) by (nonlinear_arith)
            requires
                w >= 0,
                n <= w * h,
                n > 0,
        ;
        lemma_place(w, h, k);
        let x = k % w;
        let y = k / w;
        let level = clamp_sample(prev[k]);
        let error = level - quantize(level);
        assert(-127 <= error <= 127);
        assert(-55 <= trunc_div(error * 7, 16) <= 55);
        assert(-23 <= trunc_div(error * 3, 16) <= 23);
        assert(-39 <= trunc_div(error * 5, 16) <= 39);
        assert(-7 <= trunc_div(error, 16) <= 7);
        assert(prev.len() == lum.len());
        let next = diffuse(prev, w, h, k);
        assert(next == errors_after(lum, w, h, n));
        assert(next.len() == lum.len());
        assert forall|j: int| 0 <= j < lum.len() implies lum[j] - slack(j, n as int, w)
            <= #[trigger] next[j] <= lum[j] + slack(j, n as int, w) by {
            assert(lum[j] - slack(j, k, w) <= prev[j] <= lum[j] + slack(j, k, w));
        }
    }
}

/// The luminance of a color.
pub fn luma(c: Rgba) -> (l: u8)
    ensures
        l == luminance(c),
{
    let n: u32 = 299 * (c.r as u32) + 587 * (c.g as u32) + 114 * (c.b as u32) + 500;
    proof {
        lemma_round_div_floor(n - 500, 1000);
    }
    (n / 1000) as u8
}

/// The values of an error buffer as integers.
pub open spec fn as_ints(buf: Seq<i32>) -> Seq<int> {
    Seq::new(buf.len(), |i: int| buf[i] as int)
}

/// Adds `share` to the value at place `i`.
fn add_share(buf: &mut Vec<i32>, i: usize, share: i32, Ghost(bound): Ghost<int>)
    requires
        i < old(buf)@.len(),
        -127 <= share <= 127,
        0 <= bound <= 10000,
        forall|j: int| 0 <= j < old(buf)@.len() ==> -bound <= #[trigger] old(buf)@[j] <= bound,
    ensures
        as_ints(final(buf)@) == add_at(as_ints(old(buf)@), i as int, share as int),
        final(buf)@.len() == old(buf)@.len(),
        forall|j: int|
            0 <= j < final(buf)@.len() ==> -bound - 127 <= #[trigger] final(buf)@[j] <= bound + 127,
{
    let value: i32 = buf[i];
    buf.set(i, value + share);
    assert(as_ints(buf@) =~= add_at(as_ints(old(buf)@), i as int, share as int));
}

/// Visits place `k`, at column `x` of row `y`: returns whether its level is white, and
/// sends its error on to the neighbors not yet visited.
fn visit(buf: &mut Vec<i32>, w: usize, h: usize, k: usize, x: usize, y: usize) -> (white: bool)
    requires
        old(buf)@.len() == w * h,
        k == y * w + x,
        x < w,
        y < h,
        forall|j: int| 0 <= j < old(buf)@.len() ==> -124 <= #[trigger] old(buf)@[j] <= 379,
    ensures
        final(buf)@.len() == old(buf)@.len(),
        as_ints(final(buf)@) == diffuse(as_ints(old(buf)@), w as int, h as int, k as int),
        white == (quantize(clamp_sample(old(buf)@[k as int] as int)) == 255),
{
    let len: usize = buf.len();
    proof {
        assert(0 <= y * w <= k) by (nonlinear_arith)
            requires
                k == y * w + x,
                0 <= x,
                0 <= y,
                0 <= w,
        ;
        assert(k < w * h) by (nonlinear_arith)
            requires
                k == y * w + x,
                x < w,
                y < h,
        ;
        lemma_place(w as int, h as int, k as int);
        lemma_fundamental_div_mod_converse(k as int, w as int, y as int, x as int);
    }
    let ghost start = as_ints(buf@);
    let value: i32 = buf[k];
    let level: i32 = if value < 0 {
        0
    } else if value > 255 {
        255
    } else {
        value
    };
    let white: bool = level > 127;
    let error: i32 = if white {
        level - 255
    } else {
        level
    };
    assert(error == clamp_sample(start[k as int]) - quantize(clamp_sample(start[k as int])));
    if x + 1 < w {
        add_share(buf, k + 1, error * 7 / 16, Ghost(379));
    }
    let ghost right = as_ints(buf@);
    if y + 1 < h {
        if x > 0 {
            add_share(buf, k + w - 1, error * 3 / 16, Ghost(506));
        }
        let ghost below_left = as_ints(buf@);
        add_share(buf, k + w, error * 5 / 16, Ghost(633));
        if x + 1 < w {
            add_share(buf, k + w + 1, error / 16, Ghost(760));
        }
    }
    white
}

/// The one-bit levels of `img` by error diffusion, row by row.
fn dither_levels(img: &PixelBuffer) -> (out: Vec<u8>)
    requires
        img.wf(),
    ensures
        out@.len() == img@.pixels.len(),
        forall|k: int|
            0 <= k < out@.len() ==> #[trigger] out@[k] == dithered(
                luminances(img@.pixels),
                img@.width as int,
                img@.height as int,
                k,
            ),
{
    let pixels = img.as_pixels();
    let w: usize = img.width() as usize;
    let h: usize = img.height() as usize;
    let n: usize = pixels.len();
    let ghost lum = luminances(img@.pixels);
    let mut buf: Vec<i32> = Vec::new();
    let mut i: usize = 0;
    while i < n
        invariant
            i <= n,
            n == pixels@.len(),
            pixels@ == img@.pixels,
            buf@.len() == i,
            forall|j: int| 0 <= j < i ==> #[trigger] buf@[j] == luminance(pixels@[j]),
        decreases n - i,
    {
        buf.push(luma(pixels[i]) as i32);
        i = i + 1;
    }
    assert(as_ints(buf@) =~= lum);
    assert(n > 0 ==> w > 0) by (nonlinear_arith)
        requires
            n == w * h,
    ;
    let mut out: Vec<u8> = Vec::new();
    let mut k: usize = 0;
    let mut x: usize = 0;
    let mut y: usize = 0;
    while k < n
        invariant
            k <= n,
            n == w * h,
            w == img@.width,
            h == img@.height,
            lum == luminances(img@.pixels),
            lum.len() == n,
            k == y * w + x,
            k < n ==> x < w,
            buf@.len() == n,
            out@.len() == k,
            as_ints(buf@) == errors_after(lum, w as int, h as int, k as nat),
            forall|j: int|
                0 <= j < k ==> #[trigger] out@[j] == dithered(lum, w as int, h as int, j),
        decreases n - k,
    {
        proof {
            lemma_errors_bounded(lum, w as int, h as int, k as nat);
            lemma_place(w as int, h as int, k as int);
            lemma_fundamental_div_mod_converse(k as int, w as int, y as int, x as int);
            let prev = errors_after(lum, w as int, h as int, k as nat);
            assert forall|j: int| 0 <= j < n implies -124 <= #[trigger] buf@[j] <= 379 by {
                assert(as_ints(buf@)[j] == prev[j]);
                assert(0 <= lum[j] <= 255);
            }
            assert(as_ints(buf@)[k as int] == buf@[k as int]);
        }
        let white = visit(&mut buf, w, h, k, x, y);
        out.push(if white { 255u8 } else { 0u8 });
        k = k + 1;
        x = x + 1;
        if x == w {
            x = 0;
            y = y + 1;
            assert((y - 1) * w + w == y * w) by (nonlinear_arith);
        }
    }
    out
}

/// The one-bit image of `grid`: every place black or white.
pub open spec fn one_bit_grid(grid: PixelGrid, dither: bool) -> GrayGrid {
    GrayGrid {
        width: grid.width,
        height: grid.height,
        samples: Seq::new(grid.pixels.len(), |k: int| one_bit(grid, dither, k) as u8),
    }
}

/// Reduces `img` to black and white: by the level of each pixel's own luminance, or,
/// with `dither`, by Floyd-Steinberg error diffusion in row-major order. Every sample of
/// the result is 0 or 255.
pub fn convert_to_1bit(img: &PixelBuffer, dither: bool) -> (out: GrayBuffer)
    requires
        img.wf(),
    ensures
        out.wf(),
        out@ == one_bit_grid(img@, dither),
        forall|k: int| 0 <= k < out@.samples.len() ==> out@.samples[k] == 0 || out@.samples[k] == 255,
{
    let samples: Vec<u8> = if dither {
        dither_levels(img)
    } else {
        let pixels = img.as_pixels();
        let mut levels: Vec<u8> = Vec::new();
        let mut i: usize = 0;
        while i < pixels.len()
            invariant
                i <= pixels.len(),
                levels@.len() == i,
                forall|j: int|
                    0 <= j < i ==> #[trigger] levels@[j] == quantize(luminance(pixels@[j])),
            decreases pixels.len() - i,
        {
            levels.push(if luma(pixels[i]) > 127 { 255u8 } else { 0u8 });
            i = i + 1;
        }
        levels
    };
    assert(samples@ =~= one_bit_grid(img@, dither).samples);
    GrayBuffer::new(img.width(), img.height(), samples)
}

/// An 8-bit sample at 16 bits: 0 stays 0, 255 becomes 65535, and the steps between are
/// all equal.
pub open spec fn widen_sample(v: u8) -> int {
    v * 257
}

/// A color with every channel at 16 bits.
pub open spec fn widen_color(c: Rgba) -> Rgba16 {
    Rgba16 {
        r: widen_sample(c.r) as u16,
        g: widen_sample(c.g) as u16,
        b: widen_sample(c.b) as u16,
        a: widen_sample(c.a) as u16,
    }
}

/// `grid` with every channel at 16 bits.
pub open spec fn widen_grid(grid: PixelGrid) -> WideGrid {
    WideGrid {
        width: grid.width,
        height: grid.height,
        pixels: Seq::new(grid.pixels.len(), |i: int| widen_color(grid.pixels[i])),
    }
}

/// Widens every channel of `img` to 16 bits.
pub fn convert_to_16bit(img: &PixelBuffer) -> (out: WideBuffer)
    requires
        img.wf(),
    ensures
        out.wf(),
        out@ == widen_grid(img@),
{
    let source = img.as_pixels();
    let mut pixels: Vec<Rgba16> = Vec::new();
    let mut i: usize = 0;
    while i < source.len()
        invariant
            i <= source.len(),
            pixels@.len() == i,
            forall|j: int| 0 <= j < i ==> #[trigger] pixels@[j] == widen_color(source@[j]),
        decreases source.len() - i,
    {
        let c = source[i];
        pixels.push(
            Rgba16 {
                r: (c.r as u16) * 257,
                g: (c.g as u16) * 257,
                b: (c.b as u16) * 257,
                a: (c.a as u16) * 257,
            },
        );
        i = i + 1;
    }
    assert(pixels@ =~= widen_grid(img@).pixels);
    WideBuffer::new(img.width(), img.height(), pixels)
}

/// The message for a bit depth that is not offered.
pub open spec fn depth_message(bits: u8) -> Seq<char> {
    "Unsupported bit depth: "@ + decimal(bits as nat) + ". Use 1, 8, or 16."@
}

/// Changes the bit depth of `img`: 1 gives black and white (see `convert_to_1bit`), 8
/// gives the image unchanged, 16 gives it with widened channels. Any other depth is
/// refused.
pub fn change_depth(img: &PixelBuffer, bits: u8, dither: bool) -> (res: Result<
    Image,
    ImgEditError,
>)
    requires
        img.wf(),
    ensures
        res is Ok <==> bits == 1 || bits == 8 || bits == 16,
        res matches Ok(out) ==> out.wf() && match out {
            Image::Luma8(gray) => bits == 1 && gray@ == one_bit_grid(img@, dither),
            Image::Rgba8(same) => bits == 8 && same@ == img@,
            Image::Rgba16(wide) => bits == 16 && wide@ == widen_grid(img@),
        },
        res matches Err(e) ==> e matches ImgEditError::InvalidParameter(m) && m@ == depth_message(
            bits,
        ),
{
    if bits == 1 {
        Ok(Image::Luma8(convert_to_1bit(img, dither)))
    } else if bits == 8 {
        Ok(Image::Rgba8(img.duplicate()))
    } else if bits == 16 {
        Ok(Image::Rgba16(convert_to_16bit(img)))
    } else {
        let mut m = String::from_str("Unsupported bit depth: ");
        push_decimal(&mut m, bits as u64);
        let m = m.concat(". Use 1, 8, or 16.");
        Err(ImgEditError::InvalidParameter(m))
    }
}

/// A color as gray: its luminance in red, green and blue, its alpha kept.
pub open spec fn gray_color(c: Rgba) -> Rgba {
    Rgba { r: luminance(c) as u8, g: luminance(c) as u8, b: luminance(c) as u8, a: c.a }
}

/// `grid` as gray with its alpha kept.
pub open spec fn gray_with_alpha(grid: PixelGrid) -> PixelGrid {
    PixelGrid {
        width: grid.width,
        height: grid.height,
        pixels: Seq::new(grid.pixels.len(), |i: int| gray_color(grid.pixels[i])),
    }
}

/// `grid` as gray with its alpha dropped: one sample a pixel.
pub open spec fn gray_without_alpha(grid: PixelGrid) -> GrayGrid {
    GrayGrid {
        width: grid.width,
        height: grid.height,
        samples: Seq::new(grid.pixels.len(), |i: int| luminance(grid.pixels[i]) as u8),
    }
}

/// Turns `img` gray. With `preserve_alpha` the result keeps four channels and every
/// pixel's alpha; without, it has the luminance as its only channel.
pub fn grayscale(img: &PixelBuffer, preserve_alpha: bool) -> (res: Result<Image, ImgEditError>)
    requires
        img.wf(),
    ensures
        res matches Ok(out) && out.wf() && match out {
            Image::Rgba8(gray) => preserve_alpha && gray@ == gray_with_alpha(img@),
            Image::Luma8(gray) => !preserve_alpha && gray@ == gray_without_alpha(img@),
            Image::Rgba16(_) => false,
        },
{
    let source = img.as_pixels();
    if preserve_alpha {
        let mut pixels: Vec<Rgba> = Vec::new();
        let mut i: usize = 0;
        while i < source.len()
            invariant
                i <= source.len(),
                pixels@.len() == i,
                forall|j: int| 0 <= j < i ==> #[trigger] pixels@[j] == gray_color(source@[j]),
            decreases source.len() - i,
        {
            let c = source[i];
            let l: u8 = luma(c);
            pixels.push(Rgba { r: l, g: l, b: l, a: c.a });
            i = i + 1;
        }
        assert(pixels@ =~= gray_with_alpha(img@).pixels);
        Ok(Image::Rgba8(PixelBuffer::new(img.width(), img.height(), pixels)))
    } else {
        let mut samples: Vec<u8> = Vec::new();
        let mut i: usize = 0;
        while i < source.len()
            invariant
                i <= source.len(),
                samples@.len() == i,
                forall|j: int| 0 <= j < i ==> #[trigger] samples@[j] == luminance(source@[j]),
            decreases source.len() - i,
        {
            samples.push(luma(source[i]));
            i = i + 1;
        }
        assert(samples@ =~= gray_without_alpha(img@).samples);
        Ok(Image::Luma8(GrayBuffer::new(img.width(), img.height(), samples)))
    }
}

/// The table that maps every sample `v` to `255 - v`.
pub open spec fn invert_table() -> Seq<u8> {
    Seq::new(256, |v: int| (255 - v) as u8)
}

/// Replaces the red, green and blue of every pixel by their distance from 255, and the
/// alpha too if `invert_alpha`.
pub fn invert(img: &PixelBuffer, invert_alpha: bool) -> (res: Result<PixelBuffer, ImgEditError>)
    requires
        img.wf(),
    ensures
        res matches Ok(out) && out.wf() && out@ == map_grid(img@, invert_table(), invert_alpha),
{
    let mut table: Vec<u8> = Vec::new();
    let mut v: usize = 0;
    while v < 256
        invariant
            v <= 256,
            table@.len() == v,
            forall|j: int| 0 <= j < v ==> #[trigger] table@[j] == 255 - j,
        decreases 256 - v,
    {
        table.push((255 - v) as u8);
        v = v + 1;
    }
    assert(table@ =~= invert_table());
    Ok(apply_table(img, &table, invert_alpha))
}

/// Inverting twice, with the same choice for alpha, gives the image back.
pub proof fn lemma_invert_twice(grid: PixelGrid, invert_alpha: bool)
    requires
        grid.wf(),
    ensures
        map_grid(map_grid(grid, invert_table(), invert_alpha), invert_table(), invert_alpha)
            == grid,
{
    let once = map_grid(grid, invert_table(), invert_alpha);
    let twice = map_grid(once, invert_table(), invert_alpha);
    assert forall|i: int| 0 <= i < grid.pixels.len() implies twice.pixels[i] == grid.pixels[i] by {
        let c = grid.pixels[i];
        assert(once.pixels[i] == map_color(c, invert_table(), invert_alpha));
        assert(twice.pixels[i] == map_color(once.pixels[i], invert_table(), invert_alpha));
    }
    assert(twice.pixels =~= grid.pixels);
}

/// Dithering gives every place of every image the level 0 or 255.
pub proof fn lemma_dither_two_levels(grid: PixelGrid, k: int)
    ensures
        one_bit(grid, true, k) == 0 || one_bit(grid, true, k) == 255,
{
}

/// Widening loses nothing: the 8-bit sample can be had back from the 16-bit one.
pub proof fn lemma_widen_loses_nothing(v: u8)
    ensures
        0 <= widen_sample(v) <= u16::MAX,
        widen_sample(v) / 257 == v,
{
}

} // verus!
