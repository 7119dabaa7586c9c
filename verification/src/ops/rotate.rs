//! Rotation by quarter turns, and what a rotation by any other angle needs.

use vstd::prelude::*;
use crate::buffer::{channel, lemma_color_ext, sample_index, PixelBuffer, PixelGrid};
use crate::color::Rgba;
use crate::fixed::{trunc_div, Milli};
use crate::ops::canvas::{place, placed};

verus! {

/// What a rotation by some angle comes to.
#[derive(Debug, Clone, Copy, PartialEq, Eq, Structural)]
pub enum Turn {
    /// A whole number of full turns: the image stays.
    Full,
    /// A quarter turn, as `image::imageops::rotate90` makes it.
    Quarter,
    /// A half turn.
    Half,
    /// Three quarter turns, as `image::imageops::rotate270` makes them.
    ThreeQuarters,
    /// Any other angle, in thousandths of a degree from 0 up to 360 000.
    Other(Milli),
}

/// The angle brought into the range from 0 up to, not including, 360 degrees, in
/// thousandths of a degree.
pub open spec fn normalized_angle(degrees: int) -> int {
    degrees % 360000
}

/// What a rotation by `degrees` thousandths of a degree comes to.
pub open spec fn turn_spec(degrees: int) -> Turn {
    let n = normalized_angle(degrees);
    if n == 0 {
        Turn::Full
    } else if n == 90000 {
        Turn::Quarter
    } else if n == 180000 {
        Turn::Half
    } else if n == 270000 {
        Turn::ThreeQuarters
    } else {
        Turn::Other(Milli(n as i64))
    }
}

/// What a rotation by `degrees` comes to: a number of quarter turns, which lose
/// nothing, or another angle.
pub fn classify_rotation(degrees: Milli) -> (turn: Turn)
    ensures
        turn == turn_spec(degrees.thousandths()),
{
    let r: i64 = degrees.0 % 360000;
    let n: i64 = if r < 0 {
        r + 360000
    } else {
        r
    };
    assert(n == degrees.0 as int % 360000);
    if n == 0 {
        Turn::Full
    } else if n == 90000 {
        Turn::Quarter
    } else if n == 180000 {
        Turn::Half
    } else if n == 270000 {
        Turn::ThreeQuarters
    } else {
        Turn::Other(Milli(n))
    }
}

/// `image::imageops::rotate90` on an RGBA image given by its samples: the samples of
/// an image as wide as that one is high, and as high as it is wide, whose color at
/// column `x` of row `y` is that at column `y` of row `height - 1 - x`.
#[verifier::external_body]
fn rotate90_samples(width: u32, height: u32, samples: Vec<u8>) -> (out: Vec<u8>)
    requires
        samples@.len() == 4 * (width * height),
        4 * (width * height) <= isize::MAX,
    ensures
        out@.len() == samples@.len(),
        forall|x: int, y: int, c: int|
            0 <= x < height && 0 <= y < width && 0 <= c < 4 ==> out@[#[trigger] sample_index(
                height as int,
                x,
                y,
                c,
            )] == samples@[sample_index(width as int, y, height - 1 - x, c)],
{
    let source = image::RgbaImage::from_raw(width, height, samples).unwrap();
    image::imageops::rotate90(&source).into_raw()
}

/// `image::imageops::rotate180` on an RGBA image given by its samples: the samples of
/// an image of the same dimensions, whose color at column `x` of row `y` is that at
/// column `width - 1 - x` of row `height - 1 - y`.
#[verifier::external_body]
fn rotate180_samples(width: u32, height: u32, samples: Vec<u8>) -> (out: Vec<u8>)
    requires
        samples@.len() == 4 * (width * height),
        4 * (width * height) <= isize::MAX,
    ensures
        out@.len() == samples@.len(),
        forall|x: int, y: int, c: int|
            0 <= x < width && 0 <= y < height && 0 <= c < 4 ==> out@[#[trigger] sample_index(
                width as int,
                x,
                y,
                c,
            )] == samples@[sample_index(width as int, width - 1 - x, height - 1 - y, c)],
{
    let source = image::RgbaImage::from_raw(width, height, samples).unwrap();
    image::imageops::rotate180(&source).into_raw()
}

/// `image::imageops::rotate270` on an RGBA image given by its samples: the samples of
/// an image as wide as that one is high, and as high as it is wide, whose color at
/// column `x` of row `y` is that at column `width - 1 - y` of row `x`.
#[verifier::external_body]
fn rotate270_samples(width: u32, height: u32, samples: Vec<u8>) -> (out: Vec<u8>)
    requires
        samples@.len() == 4 * (width * height),
        4 * (width * height) <= isize::MAX,
    ensures
        out@.len() == samples@.len(),
        forall|x: int, y: int, c: int|
            0 <= x < height && 0 <= y < width && 0 <= c < 4 ==> out@[#[trigger] sample_index(
                height as int,
                x,
                y,
                c,
            )] == samples@[sample_index(width as int, width - 1 - y, x, c)],
{
    let source = image::RgbaImage::from_raw(width, height, samples).unwrap();
    image::imageops::rotate270(&source).into_raw()
}

/// Where the color at column `x` of row `y` comes from after a number of quarter
/// turns of an image `width` by `height`.
pub open spec fn turned_from(turn: Turn, width: int, height: int, x: int, y: int) -> (int, int) {
    match turn {
        Turn::Quarter => (y, height - 1 - x),
        Turn::Half => (width - 1 - x, height - 1 - y),
        Turn::ThreeQuarters => (width - 1 - y, x),
        _ => (x, y),
    }
}

/// `img` after the quarter turns that `turn` names.
fn turn_image(img: &PixelBuffer, turn: Turn) -> (out: PixelBuffer)
    requires
        img.wf(),
        4 * (img@.width * img@.height) <= isize::MAX,
        turn is Quarter || turn is Half || turn is ThreeQuarters,
    ensures
        out.wf(),
        is_turned(img@, turn, out@),
{
    let width = img.width();
    let height = img.height();
    let samples = img.to_raw();
    let ghost before = samples@;
    let (new_width, new_height, turned) = match turn {
        Turn::Quarter => (height, width, rotate90_samples(width, height, samples)),
        Turn::Half => (width, height, rotate180_samples(width, height, samples)),
        _ => (height, width, rotate270_samples(width, height, samples)),
    };
    assert(new_width * new_height == width * height) by (nonlinear_arith)
        requires
            (new_width == width && new_height == height) || (new_width == height && new_height
                == width),
    ;
    let out = PixelBuffer::from_samples(new_width, new_height, &turned);
    proof {
        assert forall|x: int, y: int| out@.contains(x, y) implies out@.at(x, y) == img@.at(
            turned_from(turn, width as int, height as int, x, y).0,
            turned_from(turn, width as int, height as int, x, y).1,
        ) by {
            let from = turned_from(turn, width as int, height as int, x, y);
            assert(img@.contains(from.0, from.1));
            assert forall|c: int| 0 <= c < 4 implies channel(out@.at(x, y), c) == channel(
                img@.at(from.0, from.1),
                c,
            ) by {
                assert(channel(out@.at(x, y), c) == turned@[sample_index(
                    new_width as int,
                    x,
                    y,
                    c,
                )]);
                assert(before[sample_index(width as int, from.0, from.1, c)] == channel(
                    img@.at(from.0, from.1),
                    c,
                ));
            }
            lemma_color_ext(out@.at(x, y), img@.at(from.0, from.1));
        }
    }
    out
}

/// Whether `out` is `grid` after the quarter turns that `turn` names.
pub open spec fn is_turned(grid: PixelGrid, turn: Turn, out: PixelGrid) -> bool {
    match turn {
        Turn::Full => out == grid,
        Turn::Quarter => {
            &&& out.width == grid.height
            &&& out.height == grid.width
            &&& forall|x: int, y: int|
                out.contains(x, y) ==> out.at(x, y) == grid.at(y, grid.height - 1 - x)
        },
        Turn::Half => {
            &&& out.width == grid.width
            &&& out.height == grid.height
            &&& forall|x: int, y: int|
                out.contains(x, y) ==> out.at(x, y) == grid.at(
                    grid.width - 1 - x,
                    grid.height - 1 - y,
                )
        },
        Turn::ThreeQuarters => {
            &&& out.width == grid.height
            &&& out.height == grid.width
            &&& forall|x: int, y: int|
                out.contains(x, y) ==> out.at(x, y) == grid.at(grid.width - 1 - y, x)
        },
        Turn::Other(_) => false,
    }
}

/// Rotates `img` by `degrees` if that comes to a number of quarter turns, which lose
/// nothing; gives `None` for any other angle.
pub fn rotate(img: &PixelBuffer, degrees: Milli) -> (res: Option<PixelBuffer>)
    requires
        img.wf(),
        4 * (img@.width * img@.height) <= isize::MAX,
    ensures
        res is None <==> turn_spec(degrees.thousandths()) is Other,
        res matches Some(out) ==> out.wf() && is_turned(
            img@,
            turn_spec(degrees.thousandths()),
            out@,
        ),
{
    match classify_rotation(degrees) {
        Turn::Full => Some(img.duplicate()),
        Turn::Quarter => Some(turn_image(img, Turn::Quarter)),
        Turn::Half => Some(turn_image(img, Turn::Half)),
        Turn::ThreeQuarters => Some(turn_image(img, Turn::ThreeQuarters)),
        Turn::Other(_) => None,
    }
}

/// Where an image `old` long goes along one axis of a canvas `new` long, for it to
/// stand in the middle: half of the difference, rounded toward zero.
pub open spec fn centered(new: int, old: int) -> int {
    trunc_div(new - old, 2)
}

/// Puts `img` in the middle of a canvas `new_width` by `new_height` of the color
/// `background`, as a rotation that must not cut off corners needs it. What of the
/// image falls outside the canvas is dropped.
pub fn center_on_canvas(img: &PixelBuffer, new_width: u32, new_height: u32, background: Rgba) -> (out:
    PixelBuffer)
    requires
        img.wf(),
        new_width * new_height <= usize::MAX,
    ensures
        out.wf(),
        out@ == placed(
            img@,
            new_width as nat,
            new_height as nat,
            centered(new_width as int, img@.width as int),
            centered(new_height as int, img@.height as int),
            background,
        ),
{
    let offset_x: i64 = (new_width as i64 - img.width() as i64) / 2;
    let offset_y: i64 = (new_height as i64 - img.height() as i64) / 2;
    place(img, new_width, new_height, offset_x, offset_y, background)
}

} // verus!
