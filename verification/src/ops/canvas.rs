//! Padding, canvas resizing and compositing.

use vstd::prelude::*;
use crate::buffer::{lemma_offset_in_range, PixelBuffer, PixelGrid};
use crate::cli::args::{Alignment, Anchor, BlendMode};
use crate::color::Rgba;
use crate::error::ImgEditError;
use crate::fixed::{clamp_sample, round_div, Milli};

verus! {

/// Where content starts along one axis of a frame that is `diff` longer than the
/// content: at 0, at `diff`, or at half of `diff` rounded down. A negative `diff`,
/// content longer than the frame, gives a start before the frame.
pub open spec fn aligned(diff: int, alignment: Alignment) -> int {
    match alignment {
        Alignment::Start => 0,
        Alignment::Middle => diff / 2,
        Alignment::End => diff,
    }
}

/// Where the top left corner of content `img_w` by `img_h` goes in a frame `canvas_w`
/// by `canvas_h`.
pub open spec fn anchor_offset(
    canvas_w: int,
    canvas_h: int,
    img_w: int,
    img_h: int,
    anchor: Anchor,
) -> (int, int) {
    (
        aligned(canvas_w - img_w, anchor.horizontal_spec()),
        aligned(canvas_h - img_h, anchor.vertical_spec()),
    )
}

fn align(diff: i64, alignment: Alignment) -> (start: i64)
    requires
        -0xffff_ffff <= diff <= 0xffff_ffff,
    ensures
        start == aligned(diff as int, alignment),
{
    match alignment {
        Alignment::Start => 0,
        Alignment::Middle => {
            if diff >= 0 {
                diff / 2
            } else {
                -((1 - diff) / 2)
            }
        },
        Alignment::End => diff,
    }
}

/// Where the top left corner of content `img_w` by `img_h` goes in a frame `canvas_w`
/// by `canvas_h`. The offset may be negative, or put the content partly or wholly
/// outside the frame.
pub fn calculate_anchor_offset(
    canvas_w: u32,
    canvas_h: u32,
    img_w: u32,
    img_h: u32,
    anchor: Anchor,
) -> (offset: (i64, i64))
    ensures
        offset.0 == anchor_offset(
            canvas_w as int,
            canvas_h as int,
            img_w as int,
            img_h as int,
            anchor,
        ).0,
        offset.1 == anchor_offset(
            canvas_w as int,
            canvas_h as int,
            img_w as int,
            img_h as int,
            anchor,
        ).1,
{
    let diff_w: i64 = canvas_w as i64 - img_w as i64;
    let diff_h: i64 = canvas_h as i64 - img_h as i64;
    (align(diff_w, anchor.horizontal()), align(diff_h, anchor.vertical()))
}

/// The color at column `x` of row `y` of a frame into which `content` was put with its
/// top left corner at (`ox`, `oy`): the content's color where the content lies, else
/// `background`.
pub open spec fn placed_color(
    content: PixelGrid,
    ox: int,
    oy: int,
    background: Rgba,
    x: int,
    y: int,
) -> Rgba {
    if content.contains(x - ox, y - oy) {
        content.at(x - ox, y - oy)
    } else {
        background
    }
}

/// A frame `width` by `height`, filled with `background`, into which `content` was put
/// with its top left corner at (`ox`, `oy`). What of the content falls outside the
/// frame is dropped.
pub open spec fn placed(
    content: PixelGrid,
    width: nat,
    height: nat,
    ox: int,
    oy: int,
    background: Rgba,
) -> PixelGrid {
    PixelGrid {
        width,
        height,
        pixels: Seq::new(
            width * height,
            |i: int|
                placed_color(content, ox, oy, background, i % (width as int), i / (width as int)),
        ),
    }
}

/// The color of `content` at column `x - ox` of row `y - oy`, if it has such a place.
fn content_at(content: &PixelBuffer, ox: i64, oy: i64, x: u32, y: u32) -> (c: Option<Rgba>)
    requires
        content.wf(),
        -0x1_0000_0000 <= ox <= 0x1_0000_0000,
        -0x1_0000_0000 <= oy <= 0x1_0000_0000,
    ensures
        c is Some <==> content@.contains(x - ox, y - oy),
        c matches Some(color) ==> color == content@.at(x - ox, y - oy),
{
    let sx: i64 = x as i64 - ox;
    let sy: i64 = y as i64 - oy;
    if sx >= 0 && sx < content.width() as i64 && sy >= 0 && sy < content.height() as i64 {
        Some(content.get_pixel(sx as u32, sy as u32))
    } else {
        None
    }
}

/// A new buffer `width` by `height`, filled with `background`, with `content` put at
/// (`ox`, `oy`).
pub(crate) fn place(
    content: &PixelBuffer,
    width: u32,
    height: u32,
    ox: i64,
    oy: i64,
    background: Rgba,
) -> (out: PixelBuffer)
    requires
        content.wf(),
        width * height <= usize::MAX,
        -0x1_0000_0000 <= ox <= 0x1_0000_0000,
        -0x1_0000_0000 <= oy <= 0x1_0000_0000,
    ensures
        out.wf(),
        out@ == placed(content@, width as nat, height as nat, ox as int, oy as int, background),
{
    let ghost goal = placed(content@, width as nat, height as nat, ox as int, oy as int, background);
    let mut pixels: Vec<Rgba> = Vec::new();
    let mut y: u32 = 0;
    while y < height
        invariant
            y <= height,
            content.wf(),
            -0x1_0000_0000 <= ox <= 0x1_0000_0000,
            -0x1_0000_0000 <= oy <= 0x1_0000_0000,
            goal == placed(content@, width as nat, height as nat, ox as int, oy as int, background),
            pixels@.len() == y * width,
            forall|i: int| 0 <= i < pixels@.len() ==> #[trigger] pixels@[i] == goal.pixels[i],
        decreases height - y,
    {
        let mut x: u32 = 0;
        while x < width
            invariant
                x <= width,
                y < height,
                content.wf(),
                -0x1_0000_0000 <= ox <= 0x1_0000_0000,
                -0x1_0000_0000 <= oy <= 0x1_0000_0000,
                goal == placed(
                    content@,
                    width as nat,
                    height as nat,
                    ox as int,
                    oy as int,
                    background,
                ),
                pixels@.len() == y * width + x,
                forall|i: int| 0 <= i < pixels@.len() ==> #[trigger] pixels@[i] == goal.pixels[i],
            decreases width - x,
        {
            let color = match content_at(content, ox, oy, x, y) {
                Some(c) => c,
                None => background,
            };
            proof {
                lemma_offset_in_range(width as int, height as int, x as int, y as int);
            }
            pixels.push(color);
            x = x + 1;
        }
        assert(y * width + width == (y + 1) * width) by (nonlinear_arith);
        y = y + 1;
    }
    assert(height * width == width * height) by (nonlinear_arith);
    assert(pixels@ =~= goal.pixels);
    PixelBuffer::new(width, height, pixels)
}

/// The message for padding that leaves nothing.
pub open spec fn pad_zero_message() -> Seq<char> {
    "Resulting image dimensions would be zero"@
}

/// Adds margins of `color` around `img`: `top` rows above, `bottom` below, `left`
/// columns before and `right` after. The image itself is kept unchanged inside. A
/// result without any pixel is refused.
pub fn pad(img: &PixelBuffer, top: u32, bottom: u32, left: u32, right: u32, color: Rgba) -> (res:
    Result<PixelBuffer, ImgEditError>)
    requires
        img.wf(),
        img@.width + left + right <= u32::MAX,
        img@.height + top + bottom <= u32::MAX,
        (img@.width + left + right) * (img@.height + top + bottom) <= usize::MAX,
    ensures
        res is Err <==> img@.width + left + right == 0 || img@.height + top + bottom == 0,
        res matches Ok(out) ==> out.wf() && out@ == placed(
            img@,
            (img@.width + left + right) as nat,
            (img@.height + top + bottom) as nat,
            left as int,
            top as int,
            color,
        ),
        res matches Err(e) ==> e matches ImgEditError::InvalidDimensions(m) && m@
            == pad_zero_message(),
{
    let new_width: u32 = img.width() + left + right;
    let new_height: u32 = img.height() + top + bottom;
    if new_width == 0 || new_height == 0 {
        return Err(
            ImgEditError::InvalidDimensions(
                String::from_str("Resulting image dimensions would be zero"),
            ),
        );
    }
    Ok(place(img, new_width, new_height, left as i64, top as i64, color))
}

/// The message for a canvas without any pixel.
pub open spec fn canvas_zero_message() -> Seq<char> {
    "Canvas dimensions must be positive"@
}

/// Puts `img`, unscaled, on a new canvas `new_width` by `new_height` at the place that
/// `anchor` names. What of the image falls outside the canvas is dropped; what the
/// image does not cover has the color `background`. A canvas without any pixel is
/// refused.
pub fn canvas_resize(
    img: &PixelBuffer,
    new_width: u32,
    new_height: u32,
    anchor: Anchor,
    background: Rgba,
) -> (res: Result<PixelBuffer, ImgEditError>)
    requires
        img.wf(),
        new_width * new_height <= usize::MAX,
    ensures
        res is Err <==> new_width == 0 || new_height == 0,
        res matches Ok(out) ==> out.wf() && out@ == placed(
            img@,
            new_width as nat,
            new_height as nat,
            anchor_offset(
                new_width as int,
                new_height as int,
                img@.width as int,
                img@.height as int,
                anchor,
            ).0,
            anchor_offset(
                new_width as int,
                new_height as int,
                img@.width as int,
                img@.height as int,
                anchor,
            ).1,
            background,
        ),
        res matches Err(e) ==> e matches ImgEditError::InvalidDimensions(m) && m@
            == canvas_zero_message(),
{
    if new_width == 0 || new_height == 0 {
        return Err(
            ImgEditError::InvalidDimensions(String::from_str("Canvas dimensions must be positive")),
        );
    }
    let (offset_x, offset_y) = calculate_anchor_offset(
        new_width,
        new_height,
        img.width(),
        img.height(),
        anchor,
    );
    Ok(place(img, new_width, new_height, offset_x, offset_y, background))
}

/// A frame into which content was put has, at each of its places, the color that
/// `placed_color` gives.
pub proof fn lemma_placed_at(
    content: PixelGrid,
    width: nat,
    height: nat,
    ox: int,
    oy: int,
    background: Rgba,
    x: int,
    y: int,
)
    requires
        0 <= x < width,
        0 <= y < height,
    ensures
        placed(content, width, height, ox, oy, background).at(x, y) == placed_color(
            content,
            ox,
            oy,
            background,
            x,
            y,
        ),
{
    lemma_offset_in_range(width as int, height as int, x, y);
}

/// 255 times the channel that a blend mode makes of the base's channel `b` and the
/// overlay's channel `o`, both from 0 to 255. Normal gives `o`; multiply gives
/// `b * o / 255`; screen gives `255 - (255 - b) * (255 - o) / 255`; overlay gives
/// `2 * b * o / 255` where `b` is below 128 and `255 - 2 * (255 - b) * (255 - o) / 255`
/// elsewhere.
pub open spec fn blended_times_255(mode: BlendMode, b: int, o: int) -> int {
    match mode {
        BlendMode::Normal => 255 * o,
        BlendMode::Multiply => b * o,
        BlendMode::Screen => 255 * 255 - (255 - b) * (255 - o),
        BlendMode::Overlay => if b < 128 {
            2 * b * o
        } else {
            255 * 255 - 2 * (255 - b) * (255 - o)
        },
    }
}

/// 255 000 times the alpha with which an overlay's color takes part: its own alpha, as
/// a fraction of 255, times the opacity, in thousandths.
pub open spec fn effective_alpha(overlay_alpha: int, opacity: int) -> int {
    overlay_alpha * opacity
}

/// 255 times 255 000 times the alpha of the result, `e + b * (1 - e)`, for the
/// effective alpha `e / 255 000` of the overlay and the alpha `base_alpha / 255` of the
/// base.
pub open spec fn result_alpha(e: int, base_alpha: int) -> int {
    255 * e + base_alpha * (255000 - e)
}

/// One channel of the result: the base's channel `b` moved toward the blended channel
/// `m / 255` by the share `t` that the overlay has of the result's alpha, rounded to
/// the nearest integer and held to the range 0 to 255. With `t = 255 * e / d`, where
/// `d` is `result_alpha(e, base_alpha)`, the value `b + (m / 255 - b) * t` is the
/// quotient below.
pub open spec fn blend_channel(b: int, m: int, e: int, base_alpha: int) -> int {
    clamp_sample(
        round_div(b * base_alpha * (255000 - e) + m * e, result_alpha(e, base_alpha)),
    )
}

/// The color that `overlay`, at `opacity` thousandths, gives over `base`. An overlay
/// whose effective alpha is below one thousandth leaves the base as it is. A result
/// whose alpha is below one thousandth is transparent black. Otherwise the result has
/// Porter and Duff's "over" alpha, rounded to the nearest of its 255 steps, and each
/// channel as `blend_channel` gives it.
pub open spec fn blend(base: Rgba, overlay: Rgba, opacity: int, mode: BlendMode) -> Rgba {
    let e = effective_alpha(overlay.a as int, opacity);
    let d = result_alpha(e, base.a as int);
    if 1000 * e < 255000 {
        base
    } else if 1000 * d < 255 * 255000 {
        Rgba { r: 0, g: 0, b: 0, a: 0 }
    } else {
        Rgba {
            r: blend_channel(
                base.r as int,
                blended_times_255(mode, base.r as int, overlay.r as int),
                e,
                base.a as int,
            ) as u8,
            g: blend_channel(
                base.g as int,
                blended_times_255(mode, base.g as int, overlay.g as int),
                e,
                base.a as int,
            ) as u8,
            b: blend_channel(
                base.b as int,
                blended_times_255(mode, base.b as int, overlay.b as int),
                e,
                base.a as int,
            ) as u8,
            a: clamp_sample(round_div(d, 255000)) as u8,
        }
    }
}

/// The quotient in `blend_channel` is the base's channel moved toward the blended one:
/// with `d` the result's alpha, `d * b + (m - 255 * b) * e` is its numerator, which is
/// `d` times `b + (m / 255 - b) * (255 * e / d)`.
pub proof fn lemma_blend_channel_is_interpolation(b: int, m: int, e: int, base_alpha: int)
    ensures
        result_alpha(e, base_alpha) * b + (m - 255 * b) * e == b * base_alpha * (255000 - e) + m
            * e,
{
    assert((255 * e + base_alpha * (255000 - e)) * b + (m - 255 * b) * e == b * base_alpha * (
    255000 - e) + m * e) by (nonlinear_arith);
}

/// The result is never more transparent than the overlay takes part: where the
/// overlay's effective alpha reaches one thousandth, so does the alpha of the result,
/// and no color of the result is transparent black for want of alpha.
pub proof fn lemma_result_alpha_reaches_overlay(base: Rgba, overlay: Rgba, opacity: int)
    requires
        0 <= opacity <= 1000,
    ensures
        ({
            let e = effective_alpha(overlay.a as int, opacity);
            1000 * e >= 255000 ==> 1000 * result_alpha(e, base.a as int) >= 255 * 255000
        }),
{
    let e = effective_alpha(overlay.a as int, opacity);
    assert(0 <= e <= 255000) by (nonlinear_arith)
        requires
            e == overlay.a * opacity,
            0 <= overlay.a <= 255,
            0 <= opacity <= 1000,
    ;
    assert(base.a * (255000 - e) >= 0) by (nonlinear_arith)
        requires
            0 <= base.a,
            255000 - e >= 0,
    ;
}

/// 255 times the blended channel of two samples.
fn blend_mode_channel(mode: BlendMode, b: u8, o: u8) -> (m: u64)
    ensures
        m == blended_times_255(mode, b as int, o as int),
        m <= 65025,
{
    let b: u64 = b as u64;
    let o: u64 = o as u64;
    assert(b * o <= 65025 && (255 - b) * (255 - o) <= 65025) by (nonlinear_arith)
        requires
            0 <= b <= 255,
            0 <= o <= 255,
    ;
    assert(b < 128 ==> 2 * b * o <= 64770) by (nonlinear_arith)
        requires
            0 <= b <= 255,
            0 <= o <= 255,
    ;
    assert(b >= 128 ==> 2 * (255 - b) * (255 - o) <= 64770) by (nonlinear_arith)
        requires
            0 <= b <= 255,
            0 <= o <= 255,
    ;
    match mode {
        BlendMode::Normal => 255 * o,
        BlendMode::Multiply => b * o,
        BlendMode::Screen => 65025 - (255 - b) * (255 - o),
        BlendMode::Overlay => {
            if b < 128 {
                2 * b * o
            } else {
                65025 - 2 * (255 - b) * (255 - o)
            }
        },
    }
}

/// One channel of a blended color.
fn blend_one(b: u8, m: u64, e: u64, base_alpha: u8) -> (out: u8)
    requires
        m <= 65025,
        255 <= e <= 255000,
    ensures
        out == blend_channel(b as int, m as int, e as int, base_alpha as int),
{
    let rest: u64 = 255000 - e;
    assert(0 <= base_alpha * rest <= 255 * 255000) by (nonlinear_arith)
        requires
            0 <= base_alpha <= 255,
            0 <= rest <= 255000,
    ;
    let weight: u64 = (base_alpha as u64) * rest;
    let d: u64 = 255 * e + weight;
    assert(0 <= b * weight <= 255 * 255 * 255000) by (nonlinear_arith)
        requires
            0 <= b <= 255,
            0 <= weight <= 255 * 255000,
    ;
    let kept: u64 = (b as u64) * weight;
    assert(b * base_alpha * (255000 - e) == kept) by (nonlinear_arith)
        requires
            kept == b * weight,
            weight == base_alpha * rest,
            rest == 255000 - e,
    ;
    assert(0 <= m * e <= 65025 * 255000) by (nonlinear_arith)
        requires
            0 <= m <= 65025,
            0 <= e <= 255000,
    ;
    let taken: u64 = m * e;
    let n: u64 = kept + taken;
    let q: u64 = (2 * n + d) / (2 * d);
    if q > 255 {
        255
    } else {
        q as u8
    }
}

/// The color that `overlay`, at `opacity`, gives over `base`.
pub fn blend_pixels(base: Rgba, overlay: Rgba, opacity: Milli, mode: BlendMode) -> (out: Rgba)
    requires
        0 <= opacity.thousandths() <= 1000,
    ensures
        out == blend(base, overlay, opacity.thousandths(), mode),
{
    let p: u64 = opacity.0 as u64;
    assert(0 <= overlay.a * p <= 255000) by (nonlinear_arith)
        requires
            0 <= overlay.a <= 255,
            0 <= p <= 1000,
    ;
    let e: u64 = (overlay.a as u64) * p;
    if e < 255 {
        return base;
    }
    assert(0 <= base.a * (255000 - e) <= 255 * 255000) by (nonlinear_arith)
        requires
            0 <= base.a <= 255,
            0 <= 255000 - e <= 255000,
    ;
    let weight: u64 = (base.a as u64) * (255000 - e);
    let d: u64 = 255 * e + weight;
    if d < 65025 {
        return Rgba { r: 0, g: 0, b: 0, a: 0 };
    }
    let alpha: u64 = (2 * d + 255000) / 510000;
    Rgba {
        r: blend_one(base.r, blend_mode_channel(mode, base.r, overlay.r), e, base.a),
        g: blend_one(base.g, blend_mode_channel(mode, base.g, overlay.g), e, base.a),
        b: blend_one(base.b, blend_mode_channel(mode, base.b, overlay.b), e, base.a),
        a: if alpha > 255 {
            255
        } else {
            alpha as u8
        },
    }
}

/// The color at place `i` of `base` after `overlay` was laid over it with its top left
/// corner at (`px`, `py`): blended where the overlay lies, else the base's own.
pub open spec fn composited_color(
    base: PixelGrid,
    overlay: PixelGrid,
    px: int,
    py: int,
    opacity: int,
    mode: BlendMode,
    x: int,
    y: int,
) -> Rgba {
    if overlay.contains(x - px, y - py) {
        blend(base.at(x, y), overlay.at(x - px, y - py), opacity, mode)
    } else {
        base.at(x, y)
    }
}

/// `base` after `overlay` was laid over it with its top left corner at (`px`, `py`).
/// The result has the dimensions of `base`; what of the overlay falls outside is
/// dropped.
pub open spec fn composited(
    base: PixelGrid,
    overlay: PixelGrid,
    px: int,
    py: int,
    opacity: int,
    mode: BlendMode,
) -> PixelGrid {
    PixelGrid {
        width: base.width,
        height: base.height,
        pixels: Seq::new(
            base.width * base.height,
            |i: int|
                composited_color(
                    base,
                    overlay,
                    px,
                    py,
                    opacity,
                    mode,
                    i % (base.width as int),
                    i / (base.width as int),
                ),
        ),
    }
}

/// Where the overlay goes: where `anchor` puts it if there is one, else at (`x`, `y`).
pub open spec fn composite_position(
    base: PixelGrid,
    overlay: PixelGrid,
    x: int,
    y: int,
    anchor: Option<Anchor>,
) -> (int, int) {
    match anchor {
        Some(a) => anchor_offset(
            base.width as int,
            base.height as int,
            overlay.width as int,
            overlay.height as int,
            a,
        ),
        None => (x, y),
    }
}

/// The message for an opacity outside the accepted range.
pub open spec fn opacity_range_message(opacity: Milli) -> Seq<char> {
    "Opacity must be between 0.0 and 1.0, got "@ + opacity.text()
}

/// Lays `overlay` over `base` at the place that `anchor` names or, without an anchor,
/// with its top left corner at (`x`, `y`), blending by `blend_mode` at `opacity`. The
/// result has the dimensions of `base`; pixels of the overlay outside the base are
/// skipped, pixels of the base that the overlay does not cover stay as they are. An
/// `opacity` outside 0 to 1 is refused.
pub fn composite(
    base: &PixelBuffer,
    overlay: &PixelBuffer,
    x: i32,
    y: i32,
    anchor: Option<Anchor>,
    opacity: Milli,
    blend_mode: BlendMode,
) -> (res: Result<PixelBuffer, ImgEditError>)
    requires
        base.wf(),
        overlay.wf(),
    ensures
        res is Ok <==> 0 <= opacity.thousandths() <= 1000,
        res matches Ok(out) ==> out.wf() && out@ == composited(
            base@,
            overlay@,
            composite_position(base@, overlay@, x as int, y as int, anchor).0,
            composite_position(base@, overlay@, x as int, y as int, anchor).1,
            opacity.thousandths(),
            blend_mode,
        ),
        res matches Err(e) ==> e matches ImgEditError::InvalidParameter(m) && m@
            == opacity_range_message(opacity),
{
    if !opacity.within(0, 1000) {
        let mut m = String::from_str("Opacity must be between 0.0 and 1.0, got ");
        opacity.push_text(&mut m);
        return Err(ImgEditError::InvalidParameter(m));
    }
    let width: u32 = base.width();
    let height: u32 = base.height();
    let (px, py): (i64, i64) = match anchor {
        Some(a) => calculate_anchor_offset(width, height, overlay.width(), overlay.height(), a),
        None => (x as i64, y as i64),
    };
    let ghost goal = composited(
        base@,
        overlay@,
        px as int,
        py as int,
        opacity.thousandths(),
        blend_mode,
    );
    let mut pixels: Vec<Rgba> = Vec::new();
    let mut row: u32 = 0;
    while row < height
        invariant
            row <= height,
            base.wf(),
            overlay.wf(),
            width == base@.width,
            height == base@.height,
            0 <= opacity.thousandths() <= 1000,
            -0x1_0000_0000 <= px <= 0x1_0000_0000,
            -0x1_0000_0000 <= py <= 0x1_0000_0000,
            goal == composited(
                base@,
                overlay@,
                px as int,
                py as int,
                opacity.thousandths(),
                blend_mode,
            ),
            pixels@.len() == row * width,
            forall|i: int| 0 <= i < pixels@.len() ==> #[trigger] pixels@[i] == goal.pixels[i],
        decreases height - row,
    {
        let mut col: u32 = 0;
        while col < width
            invariant
                col <= width,
                row < height,
                base.wf(),
                overlay.wf(),
                width == base@.width,
                height == base@.height,
                0 <= opacity.thousandths() <= 1000,
                -0x1_0000_0000 <= px <= 0x1_0000_0000,
                -0x1_0000_0000 <= py <= 0x1_0000_0000,
                goal == composited(
                    base@,
                    overlay@,
                    px as int,
                    py as int,
                    opacity.thousandths(),
                    blend_mode,
                ),
                pixels@.len() == row * width + col,
                forall|i: int| 0 <= i < pixels@.len() ==> #[trigger] pixels@[i] == goal.pixels[i],
            decreases width - col,
        {
            let below = base.get_pixel(col, row);
            let color = match content_at(overlay, px, py, col, row) {
                Some(above) => blend_pixels(below, above, opacity, blend_mode),
                None => below,
            };
            proof {
                lemma_offset_in_range(width as int, height as int, col as int, row as int);
            }
            pixels.push(color);
            col = col + 1;
        }
        assert(row * width + width == (row + 1) * width) by (nonlinear_arith);
        row = row + 1;
    }
    assert(height * width == width * height) by (nonlinear_arith);
    assert(pixels@ =~= goal.pixels);
    Ok(PixelBuffer::new(width, height, pixels))
}

/// At opacity 0 compositing gives the base back, whatever the overlay, its place and
/// the blend mode.
pub proof fn lemma_composite_zero_opacity(
    base: PixelGrid,
    overlay: PixelGrid,
    px: int,
    py: int,
    mode: BlendMode,
)
    requires
        base.wf(),
    ensures
        composited(base, overlay, px, py, 0, mode) == base,
{
    let out = composited(base, overlay, px, py, 0, mode);
    let w = base.width as int;
    assert forall|i: int| 0 <= i < base.pixels.len() implies out.pixels[i] == base.pixels[i] by {
        if w > 0 {
            vstd::arithmetic::div_mod::lemma_fundamental_div_mod(i, w);
            assert(w * (i / w) == (i / w) * w) by (nonlinear_arith);
        } else {
            assert(base.width * base.height == 0) by (nonlinear_arith)
                requires
                    base.width == 0,
            ;
        }
    }
    assert(out.pixels =~= base.pixels);
}

} // verus!
