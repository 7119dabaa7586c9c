//! Pixel buffers: rectangular grids of samples, row-major, origin at the top left.

use vstd::prelude::*;
use crate::color::Rgba;

verus! {

/// The place of the sample at column `x` of row `y` in a row-major grid `width` wide.
pub open spec fn offset(width: int, x: int, y: int) -> int {
    y * width + x
}

/// A sample inside a `width` by `height` grid has a place inside its `width * height`
/// samples, and no other sample of the grid shares it.
pub proof fn lemma_offset_in_range(width: int, height: int, x: int, y: int)
    requires
        0 <= x < width,
        0 <= y < height,
    ensures
        0 <= offset(width, x, y) < width * height,
        offset(width, x, y) / width == y,
        offset(width, x, y) % width == x,
{
    assert(y * width >= 0) by (nonlinear_arith)
        requires
            y >= 0,
            width > 0,
    ;
    assert(y * width + x < width * height) by (nonlinear_arith)
        requires
            0 <= x < width,
            0 <= y < height,
    ;
    vstd::arithmetic::div_mod::lemma_fundamental_div_mod_converse(y * width + x, width, y, x);
}

/// The place of channel `c` (0 for red up to 3 for alpha) of the color at column `x` of
/// row `y`, among the samples of a grid `width` wide given as R, G, B, A in turn, row by
/// row.
pub open spec fn sample_index(width: int, x: int, y: int, c: int) -> int {
    4 * offset(width, x, y) + c
}

/// Channel `c` of a color: 0 for red, 1 for green, 2 for blue, 3 for alpha.
pub open spec fn channel(color: Rgba, c: int) -> u8 {
    if c == 0 {
        color.r
    } else if c == 1 {
        color.g
    } else if c == 2 {
        color.b
    } else {
        color.a
    }
}

/// Two colors with the same four channels are the same color.
pub proof fn lemma_color_ext(a: Rgba, b: Rgba)
    requires
        forall|c: int| 0 <= c < 4 ==> channel(a, c) == channel(b, c),
    ensures
        a == b,
{
    assert(channel(a, 0) == channel(b, 0));
    assert(channel(a, 1) == channel(b, 1));
    assert(channel(a, 2) == channel(b, 2));
    assert(channel(a, 3) == channel(b, 3));
}

/// A grid of RGBA colors with 8-bit channels.
pub struct PixelBuffer {
    width: u32,
    height: u32,
    pixels: Vec<Rgba>,
}

/// What a `PixelBuffer` stands for: its dimensions and its colors, row by row.
pub struct PixelGrid {
    pub width: nat,
    pub height: nat,
    pub pixels: Seq<Rgba>,
}

impl PixelGrid {
    /// The grid holds one color for each of its places.
    pub open spec fn wf(self) -> bool {
        self.pixels.len() == self.width * self.height
    }

    pub open spec fn contains(self, x: int, y: int) -> bool {
        0 <= x < self.width && 0 <= y < self.height
    }

    /// The color at column `x` of row `y`.
    pub open spec fn at(self, x: int, y: int) -> Rgba {
        self.pixels[offset(self.width as int, x, y)]
    }
}

/// Two grids of the same dimensions that agree at every place are the same grid.
pub proof fn lemma_grid_ext(a: PixelGrid, b: PixelGrid)
    requires
        a.wf(),
        b.wf(),
        a.width == b.width,
        a.height == b.height,
        forall|x: int, y: int| a.contains(x, y) ==> a.at(x, y) == b.at(x, y),
    ensures
        a == b,
{
    let w = a.width as int;
    assert forall|i: int| 0 <= i < a.pixels.len() implies a.pixels[i] == b.pixels[i] by {
        if w > 0 {
            let x = i % w;
            let y = i / w;
            vstd::arithmetic::div_mod::lemma_fundamental_div_mod(i, w);
            assert(w * y == y * w) by (nonlinear_arith);
            assert(y < a.height) by (nonlinear_arith)
                requires
                    y * w + x == i,
                    0 <= x < w,
                    i < w * a.height,
                    w > 0,
            ;
            assert(0 <= y) by (nonlinear_arith)
                requires
                    y * w + x == i,
                    0 <= x < w,
                    0 <= i,
                    w > 0,
            ;
            assert(a.contains(x, y));
            assert(a.at(x, y) == b.at(x, y));
        } else {
            assert(a.width * a.height == 0) by (nonlinear_arith)
                requires
                    a.width == 0,
            ;
        }
    }
    assert(a.pixels =~= b.pixels);
}

impl View for PixelBuffer {
    type V = PixelGrid;

    closed spec fn view(&self) -> PixelGrid {
        PixelGrid {
            width: self.width as nat,
            height: self.height as nat,
            pixels: self.pixels@,
        }
    }
}

impl PixelBuffer {
    /// The representation invariant: one stored color for each place.
    pub open spec fn wf(&self) -> bool {
        self@.wf() && self@.width <= u32::MAX && self@.height <= u32::MAX
    }

    /// A buffer of the given dimensions with every place set to `color`.
    pub fn from_pixel(width: u32, height: u32, color: Rgba) -> (buf: PixelBuffer)
        requires
            width * height <= usize::MAX,
        ensures
            buf.wf(),
            buf@.width == width,
            buf@.height == height,
            forall|x: int, y: int| buf@.contains(x, y) ==> buf@.at(x, y) == color,
            buf@.pixels == Seq::new((width * height) as nat, |i: int| color),
    {
        let n: usize = (width as usize) * (height as usize);
        let pixels = vec![color; n];
        let buf = PixelBuffer { width, height, pixels };
        assert(buf@.pixels =~= Seq::new((width * height) as nat, |i: int| color));
        assert forall|x: int, y: int| buf@.contains(x, y) implies buf@.at(x, y) == color by {
            lemma_offset_in_range(width as int, height as int, x, y);
        }
        buf
    }

    /// The buffer over samples given as R, G, B, A in turn, row by row, four for each
    /// place.
    pub fn from_samples(width: u32, height: u32, samples: &Vec<u8>) -> (buf: PixelBuffer)
        requires
            samples@.len() == 4 * (width * height),
        ensures
            buf.wf(),
            buf@.width == width,
            buf@.height == height,
            forall|i: int|
                0 <= i < width * height ==> buf@.pixels[i] == (Rgba {
                    r: samples@[4 * i],
                    g: samples@[4 * i + 1],
                    b: samples@[4 * i + 2],
                    a: samples@[4 * i + 3],
                }),
            forall|x: int, y: int, c: int|
                buf@.contains(x, y) && 0 <= c < 4 ==> channel(buf@.at(x, y), c)
                    == samples@[#[trigger] sample_index(width as int, x, y, c)],
    {
        let n: usize = samples.len() / 4;
        let mut pixels: Vec<Rgba> = Vec::new();
        let mut i: usize = 0;
        while i < n
            invariant
                i <= n,
                samples@.len() == 4 * n,
                4 * n <= usize::MAX,
                pixels@.len() == i,
                forall|j: int|
                    0 <= j < i ==> pixels@[j] == (Rgba {
                        r: samples@[4 * j],
                        g: samples@[4 * j + 1],
                        b: samples@[4 * j + 2],
                        a: samples@[4 * j + 3],
                    }),
            decreases n - i,
        {
            let c = Rgba {
                r: samples[4 * i],
                g: samples[4 * i + 1],
                b: samples[4 * i + 2],
                a: samples[4 * i + 3],
            };
            pixels.push(c);
            i = i + 1;
        }
        let buf = PixelBuffer { width, height, pixels };
        proof {
            assert forall|x: int, y: int, c: int| buf@.contains(x, y) && 0 <= c < 4 implies channel(
                buf@.at(x, y),
                c,
            ) == samples@[#[trigger] sample_index(width as int, x, y, c)] by {
                lemma_offset_in_range(width as int, height as int, x, y);
            }
        }
        buf
    }

    /// A buffer over samples given as R, G, B, A in turn, row by row; `None` unless
    /// `samples` holds exactly four for each place.
    pub fn from_raw(width: u32, height: u32, samples: &Vec<u8>) -> (res: Option<PixelBuffer>)
        ensures
            res is Some <==> samples@.len() == 4 * (width * height),
            res matches Some(buf) ==> {
                &&& buf.wf()
                &&& buf@.width == width
                &&& buf@.height == height
                &&& forall|i: int|
                    0 <= i < width * height ==> buf@.pixels[i] == (Rgba {
                        r: samples@[4 * i],
                        g: samples@[4 * i + 1],
                        b: samples@[4 * i + 2],
                        a: samples@[4 * i + 3],
                    })
            },
    {
        assert(width * height <= 0xffff_ffff * 0xffff_ffff) by (nonlinear_arith)
            requires
                0 <= width <= 0xffff_ffff,
                0 <= height <= 0xffff_ffff,
        ;
        let count: u64 = (width as u64) * (height as u64);
        if samples.len() % 4 != 0 || (samples.len() / 4) as u64 != count {
            return None;
        }
        Some(PixelBuffer::from_samples(width, height, samples))
    }

    /// The samples of the buffer as R, G, B, A in turn, row by row.
    pub fn to_raw(&self) -> (samples: Vec<u8>)
        ensures
            samples@.len() == 4 * self@.pixels.len(),
            forall|i: int|
                0 <= i < self@.pixels.len() ==> {
                    &&& samples@[4 * i] == self@.pixels[i].r
                    &&& samples@[4 * i + 1] == self@.pixels[i].g
                    &&& samples@[4 * i + 2] == self@.pixels[i].b
                    &&& samples@[4 * i + 3] == self@.pixels[i].a
                },
            self.wf() ==> forall|x: int, y: int, c: int|
                self@.contains(x, y) && 0 <= c < 4 ==> samples@[#[trigger] sample_index(
                    self@.width as int,
                    x,
                    y,
                    c,
                )] == channel(self@.at(x, y), c),
    {
        let mut samples: Vec<u8> = Vec::new();
        let mut i: usize = 0;
        while i < self.pixels.len()
            invariant
                i <= self.pixels.len(),
                samples@.len() == 4 * i,
                forall|j: int|
                    0 <= j < i ==> {
                        &&& samples@[4 * j] == self.pixels@[j].r
                        &&& samples@[4 * j + 1] == self.pixels@[j].g
                        &&& samples@[4 * j + 2] == self.pixels@[j].b
                        &&& samples@[4 * j + 3] == self.pixels@[j].a
                    },
            decreases self.pixels.len() - i,
        {
            let c = self.pixels[i];
            samples.push(c.r);
            samples.push(c.g);
            samples.push(c.b);
            samples.push(c.a);
            i = i + 1;
        }
        proof {
            if self.wf() {
                assert forall|x: int, y: int, c: int|
                    self@.contains(x, y) && 0 <= c < 4 implies samples@[#[trigger] sample_index(
                    self@.width as int,
                    x,
                    y,
                    c,
                )] == channel(self@.at(x, y), c) by {
                    lemma_offset_in_range(self@.width as int, self@.height as int, x, y);
                }
            }
        }
        samples
    }

    /// The buffer that holds the given colors, one for each place, row by row.
    pub fn new(width: u32, height: u32, pixels: Vec<Rgba>) -> (buf: PixelBuffer)
        requires
            pixels@.len() == width * height,
        ensures
            buf.wf(),
            buf@ == (PixelGrid { width: width as nat, height: height as nat, pixels: pixels@ }),
    {
        PixelBuffer { width, height, pixels }
    }

    /// A buffer over the given colors, row by row; `None` unless there is exactly one
    /// for each place.
    pub fn from_pixels(width: u32, height: u32, pixels: Vec<Rgba>) -> (res: Option<PixelBuffer>)
        ensures
            res is Some <==> pixels@.len() == width * height,
            res matches Some(buf) ==> buf.wf() && buf@ == (PixelGrid {
                width: width as nat,
                height: height as nat,
                pixels: pixels@,
            }),
    {
        assert(width * height <= 0xffff_ffff * 0xffff_ffff) by (nonlinear_arith)
            requires
                0 <= width <= 0xffff_ffff,
                0 <= height <= 0xffff_ffff,
        ;
        let count: u64 = (width as u64) * (height as u64);
        if pixels.len() as u64 != count {
            return None;
        }
        Some(PixelBuffer { width, height, pixels })
    }

    /// A second buffer with the same contents.
    pub fn duplicate(&self) -> (copy: PixelBuffer)
        ensures
            copy@ == self@,
    {
        let mut pixels: Vec<Rgba> = Vec::new();
        let mut i: usize = 0;
        while i < self.pixels.len()
            invariant
                i <= self.pixels.len(),
                pixels@ == self.pixels@.take(i as int),
            decreases self.pixels.len() - i,
        {
            pixels.push(self.pixels[i]);
            assert(self.pixels@.take(i + 1) =~= self.pixels@.take(i as int).push(
                self.pixels@[i as int],
            ));
            i = i + 1;
        }
        assert(self.pixels@.take(self.pixels.len() as int) =~= self.pixels@);
        PixelBuffer { width: self.width, height: self.height, pixels }
    }

    /// The colors of the buffer, row by row, for reading.
    pub fn as_pixels(&self) -> (pixels: &Vec<Rgba>)
        ensures
            pixels@ == self@.pixels,
    {
        &self.pixels
    }

    pub fn width(&self) -> (w: u32)
        ensures
            w == self@.width,
    {
        self.width
    }

    pub fn height(&self) -> (h: u32)
        ensures
            h == self@.height,
    {
        self.height
    }

    /// The width and the height.
    pub fn dimensions(&self) -> (d: (u32, u32))
        ensures
            d.0 == self@.width,
            d.1 == self@.height,
    {
        (self.width, self.height)
    }

    /// Where the color at column `x` of row `y` is stored.
    fn place(&self, x: u32, y: u32) -> (i: usize)
        requires
            self.wf(),
            self@.contains(x as int, y as int),
        ensures
            i == offset(self@.width as int, x as int, y as int),
            i < self@.pixels.len(),
    {
        let len: usize = self.pixels.len();
        proof {
            lemma_offset_in_range(self.width as int, self.height as int, x as int, y as int);
            assert(len == self.width * self.height);
            assert(0 <= y * self.width <= y * self.width + x) by (nonlinear_arith)
                requires
                    y >= 0,
                    self.width >= 0,
                    x >= 0,
            ;
        }
        (y as usize) * (self.width as usize) + (x as usize)
    }

    /// The color at column `x` of row `y`.
    pub fn get_pixel(&self, x: u32, y: u32) -> (c: Rgba)
        requires
            self.wf(),
            self@.contains(x as int, y as int),
        ensures
            c == self@.at(x as int, y as int),
    {
        let i: usize = self.place(x, y);
        self.pixels[i]
    }

    /// Sets the color at column `x` of row `y`, and nothing else.
    pub fn put_pixel(&mut self, x: u32, y: u32, color: Rgba)
        requires
            old(self).wf(),
            old(self)@.contains(x as int, y as int),
        ensures
            final(self).wf(),
            final(self)@.width == old(self)@.width,
            final(self)@.height == old(self)@.height,
            final(self)@.pixels == old(self)@.pixels.update(
                offset(old(self)@.width as int, x as int, y as int),
                color,
            ),
            final(self)@.at(x as int, y as int) == color,
            forall|u: int, v: int|
                old(self)@.contains(u, v) && (u != x || v != y) ==> final(self)@.at(u, v) == old(
                    self,
                )@.at(u, v),
    {
        let i: usize = self.place(x, y);
        self.pixels.set(i, color);
        proof {
            assert forall|u: int, v: int|
                old(self)@.contains(u, v) && (u != x || v != y) implies self@.at(u, v) == old(
                self,
            )@.at(u, v) by {
                lemma_offset_in_range(self.width as int, self.height as int, u, v);
                lemma_offset_in_range(self.width as int, self.height as int, x as int, y as int);
            }
        }
    }
}

/// A grid of single 8-bit samples: a grayscale image without alpha.
pub struct GrayBuffer {
    width: u32,
    height: u32,
    samples: Vec<u8>,
}

/// What a `GrayBuffer` stands for.
pub struct GrayGrid {
    pub width: nat,
    pub height: nat,
    pub samples: Seq<u8>,
}

impl GrayGrid {
    pub open spec fn wf(self) -> bool {
        self.samples.len() == self.width * self.height
    }

    pub open spec fn contains(self, x: int, y: int) -> bool {
        0 <= x < self.width && 0 <= y < self.height
    }

    /// The sample at column `x` of row `y`.
    pub open spec fn at(self, x: int, y: int) -> u8 {
        self.samples[offset(self.width as int, x, y)]
    }
}

impl View for GrayBuffer {
    type V = GrayGrid;

    closed spec fn view(&self) -> GrayGrid {
        GrayGrid {
            width: self.width as nat,
            height: self.height as nat,
            samples: self.samples@,
        }
    }
}

impl GrayBuffer {
    pub open spec fn wf(&self) -> bool {
        self@.wf()
    }

    /// The buffer that holds the given samples, one for each place, row by row.
    pub fn new(width: u32, height: u32, samples: Vec<u8>) -> (buf: GrayBuffer)
        requires
            samples@.len() == width * height,
        ensures
            buf.wf(),
            buf@ == (GrayGrid { width: width as nat, height: height as nat, samples: samples@ }),
    {
        GrayBuffer { width, height, samples }
    }

    /// A buffer over the given samples, row by row; `None` unless there is exactly one
    /// for each place.
    pub fn from_raw(width: u32, height: u32, samples: Vec<u8>) -> (res: Option<GrayBuffer>)
        ensures
            res is Some <==> samples@.len() == width * height,
            res matches Some(buf) ==> buf.wf() && buf@ == (GrayGrid {
                width: width as nat,
                height: height as nat,
                samples: samples@,
            }),
    {
        assert(width * height <= 0xffff_ffff * 0xffff_ffff) by (nonlinear_arith)
            requires
                0 <= width <= 0xffff_ffff,
                0 <= height <= 0xffff_ffff,
        ;
        let count: u64 = (width as u64) * (height as u64);
        if samples.len() as u64 != count {
            return None;
        }
        Some(GrayBuffer { width, height, samples })
    }

    /// The samples, row by row.
    pub fn into_raw(self) -> (samples: Vec<u8>)
        ensures
            samples@ == self@.samples,
    {
        self.samples
    }

    pub fn width(&self) -> (w: u32)
        ensures
            w == self@.width,
    {
        self.width
    }

    pub fn height(&self) -> (h: u32)
        ensures
            h == self@.height,
    {
        self.height
    }

    /// The sample at column `x` of row `y`.
    pub fn get_pixel(&self, x: u32, y: u32) -> (v: u8)
        requires
            self.wf(),
            self@.contains(x as int, y as int),
        ensures
            v == self@.at(x as int, y as int),
    {
        let len: usize = self.samples.len();
        proof {
            lemma_offset_in_range(self.width as int, self.height as int, x as int, y as int);
            assert(0 <= y * self.width <= y * self.width + x) by (nonlinear_arith)
                requires
                    y >= 0,
                    self.width >= 0,
                    x >= 0,
            ;
        }
        self.samples[(y as usize) * (self.width as usize) + (x as usize)]
    }
}

/// A color of four 16-bit channels.
#[derive(Clone, Copy, Debug, PartialEq, Eq, Structural)]
pub struct Rgba16 {
    pub r: u16,
    pub g: u16,
    pub b: u16,
    pub a: u16,
}

/// A grid of RGBA colors with 16-bit channels.
pub struct WideBuffer {
    width: u32,
    height: u32,
    pixels: Vec<Rgba16>,
}

/// What a `WideBuffer` stands for.
pub struct WideGrid {
    pub width: nat,
    pub height: nat,
    pub pixels: Seq<Rgba16>,
}

impl WideGrid {
    pub open spec fn wf(self) -> bool {
        self.pixels.len() == self.width * self.height
    }

    pub open spec fn contains(self, x: int, y: int) -> bool {
        0 <= x < self.width && 0 <= y < self.height
    }

    /// The color at column `x` of row `y`.
    pub open spec fn at(self, x: int, y: int) -> Rgba16 {
        self.pixels[offset(self.width as int, x, y)]
    }
}

impl View for WideBuffer {
    type V = WideGrid;

    closed spec fn view(&self) -> WideGrid {
        WideGrid {
            width: self.width as nat,
            height: self.height as nat,
            pixels: self.pixels@,
        }
    }
}

impl WideBuffer {
    pub open spec fn wf(&self) -> bool {
        self@.wf()
    }

    /// The buffer that holds the given colors, one for each place, row by row.
    pub fn new(width: u32, height: u32, pixels: Vec<Rgba16>) -> (buf: WideBuffer)
        requires
            pixels@.len() == width * height,
        ensures
            buf.wf(),
            buf@ == (WideGrid { width: width as nat, height: height as nat, pixels: pixels@ }),
    {
        WideBuffer { width, height, pixels }
    }

    /// A buffer over the given colors, row by row; `None` unless there is exactly one
    /// for each place.
    pub fn from_pixels(width: u32, height: u32, pixels: Vec<Rgba16>) -> (res: Option<WideBuffer>)
        ensures
            res is Some <==> pixels@.len() == width * height,
            res matches Some(buf) ==> buf.wf() && buf@ == (WideGrid {
                width: width as nat,
                height: height as nat,
                pixels: pixels@,
            }),
    {
        assert(width * height <= 0xffff_ffff * 0xffff_ffff) by (nonlinear_arith)
            requires
                0 <= width <= 0xffff_ffff,
                0 <= height <= 0xffff_ffff,
        ;
        let count: u64 = (width as u64) * (height as u64);
        if pixels.len() as u64 != count {
            return None;
        }
        Some(WideBuffer { width, height, pixels })
    }

    /// The samples of the buffer as R, G, B, A in turn, row by row.
    pub fn to_raw(&self) -> (samples: Vec<u16>)
        ensures
            samples@.len() == 4 * self@.pixels.len(),
            forall|i: int|
                0 <= i < self@.pixels.len() ==> {
                    &&& samples@[4 * i] == self@.pixels[i].r
                    &&& samples@[4 * i + 1] == self@.pixels[i].g
                    &&& samples@[4 * i + 2] == self@.pixels[i].b
                    &&& samples@[4 * i + 3] == self@.pixels[i].a
                },
    {
        let mut samples: Vec<u16> = Vec::new();
        let mut i: usize = 0;
        while i < self.pixels.len()
            invariant
                i <= self.pixels.len(),
                samples@.len() == 4 * i,
                forall|j: int|
                    0 <= j < i ==> {
                        &&& samples@[4 * j] == self.pixels@[j].r
                        &&& samples@[4 * j + 1] == self.pixels@[j].g
                        &&& samples@[4 * j + 2] == self.pixels@[j].b
                        &&& samples@[4 * j + 3] == self.pixels@[j].a
                    },
            decreases self.pixels.len() - i,
        {
            let c = self.pixels[i];
            samples.push(c.r);
            samples.push(c.g);
            samples.push(c.b);
            samples.push(c.a);
            i = i + 1;
        }
        samples
    }

    pub fn width(&self) -> (w: u32)
        ensures
            w == self@.width,
    {
        self.width
    }

    pub fn height(&self) -> (h: u32)
        ensures
            h == self@.height,
    {
        self.height
    }

    /// The color at column `x` of row `y`.
    pub fn get_pixel(&self, x: u32, y: u32) -> (c: Rgba16)
        requires
            self.wf(),
            self@.contains(x as int, y as int),
        ensures
            c == self@.at(x as int, y as int),
    {
        let len: usize = self.pixels.len();
        proof {
            lemma_offset_in_range(self.width as int, self.height as int, x as int, y as int);
            assert(0 <= y * self.width <= y * self.width + x) by (nonlinear_arith)
                requires
                    y >= 0,
                    self.width >= 0,
                    x >= 0,
            ;
        }
        self.pixels[(y as usize) * (self.width as usize) + (x as usize)]
    }
}

/// An image in one of the sample layouts that the operations of this library produce.
pub enum Image {
    /// RGBA with 8-bit channels.
    Rgba8(PixelBuffer),
    /// Gray without alpha, 8 bits a sample.
    Luma8(GrayBuffer),
    /// RGBA with 16-bit channels.
    Rgba16(WideBuffer),
}

impl Image {
    pub open spec fn wf(&self) -> bool {
        match self {
            Image::Rgba8(b) => b.wf(),
            Image::Luma8(b) => b.wf(),
            Image::Rgba16(b) => b.wf(),
        }
    }

    pub open spec fn width_spec(&self) -> nat {
        match self {
            Image::Rgba8(b) => b@.width,
            Image::Luma8(b) => b@.width,
            Image::Rgba16(b) => b@.width,
        }
    }

    pub open spec fn height_spec(&self) -> nat {
        match self {
            Image::Rgba8(b) => b@.height,
            Image::Luma8(b) => b@.height,
            Image::Rgba16(b) => b@.height,
        }
    }

    pub fn width(&self) -> (w: u32)
        ensures
            w == self.width_spec(),
    {
        match self {
            Image::Rgba8(b) => b.width(),
            Image::Luma8(b) => b.width(),
            Image::Rgba16(b) => b.width(),
        }
    }

    pub fn height(&self) -> (h: u32)
        ensures
            h == self.height_spec(),
    {
        match self {
            Image::Rgba8(b) => b.height(),
            Image::Luma8(b) => b.height(),
            Image::Rgba16(b) => b.height(),
        }
    }
}

} // verus!
