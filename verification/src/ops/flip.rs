//! Mirroring an image from left to right and from top to bottom.

use vstd::prelude::*;
use crate::buffer::{
    channel, lemma_color_ext, lemma_grid_ext, lemma_offset_in_range, sample_index, PixelBuffer,
    PixelGrid,
};
use crate::error::ImgEditError;

verus! {

/// `grid` mirrored from left to right if `horizontal`, and from top to bottom if
/// `vertical`.
pub open spec fn mirrored(grid: PixelGrid, horizontal: bool, vertical: bool) -> PixelGrid {
    PixelGrid {
        width: grid.width,
        height: grid.height,
        pixels: Seq::new(
            grid.width * grid.height,
            |i: int|
                grid.at(
                    if horizontal {
                        grid.width - 1 - i % (grid.width as int)
                    } else {
                        i % (grid.width as int)
                    },
                    if vertical {
                        grid.height - 1 - i / (grid.width as int)
                    } else {
                        i / (grid.width as int)
                    },
                ),
        ),
    }
}

/// `image::imageops::flip_horizontal` on an RGBA image given by its samples: as many
/// samples again, each color of a row moved to the mirrored column of that row.
#[verifier::external_body]
fn flip_horizontal_samples(width: u32, height: u32, samples: Vec<u8>) -> (out: Vec<u8>)
    requires
        samples@.len() == 4 * (width * height),
        4 * (width * height) <= isize::MAX,
    ensures
        out@.len() == samples@.len(),
        forall|x: int, y: int, c: int|
            0 <= x < width && 0 <= y < height && 0 <= c < 4 ==> out@[#[trigger] sample_index(
                width as int,
                x,
                y,
                c,
            )] == samples@[sample_index(width as int, width - 1 - x, y, c)],
{
    let source = image::RgbaImage::from_raw(width, height, samples).unwrap();
    image::imageops::flip_horizontal(&source).into_raw()
}

/// `image::imageops::flip_vertical` on an RGBA image given by its samples: as many
/// samples again, each color of a column moved to the mirrored row of that column.
#[verifier::external_body]
fn flip_vertical_samples(width: u32, height: u32, samples: Vec<u8>) -> (out: Vec<u8>)
    requires
        samples@.len() == 4 * (width * height),
        4 * (width * height) <= isize::MAX,
    ensures
        out@.len() == samples@.len(),
        forall|x: int, y: int, c: int|
            0 <= x < width && 0 <= y < height && 0 <= c < 4 ==> out@[#[trigger] sample_index(
                width as int,
                x,
                y,
                c,
            )] == samples@[sample_index(width as int, x, height - 1 - y, c)],
{
    let source = image::RgbaImage::from_raw(width, height, samples).unwrap();
    image::imageops::flip_vertical(&source).into_raw()
}

/// `img` mirrored in one direction: from left to right if `horizontal`, else from top
/// to bottom.
fn flip_once(img: &PixelBuffer, horizontal: bool) -> (out: PixelBuffer)
    requires
        img.wf(),
        4 * (img@.width * img@.height) <= isize::MAX,
    ensures
        out.wf(),
        out@.width == img@.width,
        out@.height == img@.height,
        forall|x: int, y: int|
            img@.contains(x, y) ==> out@.at(x, y) == img@.at(
                if horizontal {
                    img@.width - 1 - x
                } else {
                    x
                },
                if horizontal {
                    y
                } else {
                    img@.height - 1 - y
                },
            ),
{
    let width = img.width();
    let height = img.height();
    let samples = img.to_raw();
    let ghost before = samples@;
    let flipped = if horizontal {
        flip_horizontal_samples(width, height, samples)
    } else {
        flip_vertical_samples(width, height, samples)
    };
    let out = PixelBuffer::from_samples(width, height, &flipped);
    proof {
        assert forall|x: int, y: int| img@.contains(x, y) implies out@.at(x, y) == img@.at(
            if horizontal {
                img@.width - 1 - x
            } else {
                x
            },
            if horizontal {
                y
            } else {
                img@.height - 1 - y
            },
        ) by {
            let sx = if horizontal {
                img@.width - 1 - x
            } else {
                x
            };
            let sy = if horizontal {
                y
            } else {
                img@.height - 1 - y
            };
            assert forall|c: int| 0 <= c < 4 implies channel(out@.at(x, y), c) == channel(
                img@.at(sx, sy),
                c,
            ) by {
                assert(channel(out@.at(x, y), c) == flipped@[sample_index(
                    width as int,
                    x,
                    y,
                    c,
                )]);
                assert(before[sample_index(width as int, sx, sy, c)] == channel(
                    img@.at(sx, sy),
                    c,
                ));
            }
            lemma_color_ext(out@.at(x, y), img@.at(sx, sy));
        }
    }
    out
}

/// The message for a flip in no direction.
pub open spec fn flip_missing_message() -> Seq<char> {
    "flip requires --horizontal and/or --vertical"@
}

/// At each of its places, a mirrored grid has the color of the mirrored place.
pub proof fn lemma_mirrored_at(grid: PixelGrid, horizontal: bool, vertical: bool, x: int, y: int)
    requires
        grid.contains(x, y),
    ensures
        mirrored(grid, horizontal, vertical).at(x, y) == grid.at(
            if horizontal {
                grid.width - 1 - x
            } else {
                x
            },
            if vertical {
                grid.height - 1 - y
            } else {
                y
            },
        ),
{
    lemma_offset_in_range(grid.width as int, grid.height as int, x, y);
}

/// Mirrors `img` from left to right if `horizontal`, and from top to bottom if
/// `vertical`. A flip in neither direction is refused.
pub fn flip(img: &PixelBuffer, horizontal: bool, vertical: bool) -> (res: Result<
    PixelBuffer,
    ImgEditError,
>)
    requires
        img.wf(),
        4 * (img@.width * img@.height) <= isize::MAX,
    ensures
        res is Ok <==> horizontal || vertical,
        res matches Ok(out) ==> out.wf() && out@ == mirrored(img@, horizontal, vertical),
        res matches Err(e) ==> e matches ImgEditError::MissingOption(m) && m@
            == flip_missing_message(),
{
    if !horizontal && !vertical {
        return Err(
            ImgEditError::MissingOption(
                String::from_str("flip requires --horizontal and/or --vertical"),
            ),
        );
    }
    let out = if horizontal {
        let once = flip_once(img, true);
        if vertical {
            flip_once(&once, false)
        } else {
            once
        }
    } else {
        flip_once(img, false)
    };
    proof {
        let goal = mirrored(img@, horizontal, vertical);
        assert forall|x: int, y: int| out@.contains(x, y) implies out@.at(x, y) == goal.at(
            x,
            y,
        ) by {
            lemma_mirrored_at(img@, horizontal, vertical, x, y);
        }
        lemma_grid_ext(out@, goal);
    }
    Ok(out)
}

/// Mirroring twice in the same directions gives the image back.
pub proof fn lemma_mirrored_twice(grid: PixelGrid, horizontal: bool, vertical: bool)
    requires
        grid.wf(),
    ensures
        mirrored(mirrored(grid, horizontal, vertical), horizontal, vertical) == grid,
{
    let once = mirrored(grid, horizontal, vertical);
    let twice = mirrored(once, horizontal, vertical);
    assert forall|x: int, y: int| twice.contains(x, y) implies twice.at(x, y) == grid.at(x, y) by {
        lemma_mirrored_at(once, horizontal, vertical, x, y);
        let mx = if horizontal {
            grid.width - 1 - x
        } else {
            x
        };
        let my = if vertical {
            grid.height - 1 - y
        } else {
            y
        };
        lemma_mirrored_at(grid, horizontal, vertical, mx, my);
    }
    lemma_grid_ext(twice, grid);
}

} // verus!
