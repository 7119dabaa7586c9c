//! The named choices that select among the operations' variants.

use vstd::prelude::*;

verus! {

/// One of nine places on a three-by-three grid, by which content is put into a frame.
#[derive(Debug, Clone, Copy, PartialEq, Eq, Structural)]
pub enum Anchor {
    TopLeft,
    TopCenter,
    TopRight,
    CenterLeft,
    Center,
    CenterRight,
    BottomLeft,
    BottomCenter,
    BottomRight,
}

/// Where an anchor puts content along one axis.
#[derive(Debug, Clone, Copy, PartialEq, Eq, Structural)]
pub enum Alignment {
    /// At the left or top edge.
    Start,
    /// In the middle.
    Middle,
    /// At the right or bottom edge.
    End,
}

impl Anchor {
    /// Where the anchor puts content from left to right.
    pub open spec fn horizontal_spec(self) -> Alignment {
        match self {
            Anchor::TopLeft | Anchor::CenterLeft | Anchor::BottomLeft => Alignment::Start,
            Anchor::TopCenter | Anchor::Center | Anchor::BottomCenter => Alignment::Middle,
            Anchor::TopRight | Anchor::CenterRight | Anchor::BottomRight => Alignment::End,
        }
    }

    /// Where the anchor puts content from top to bottom.
    pub open spec fn vertical_spec(self) -> Alignment {
        match self {
            Anchor::TopLeft | Anchor::TopCenter | Anchor::TopRight => Alignment::Start,
            Anchor::CenterLeft | Anchor::Center | Anchor::CenterRight => Alignment::Middle,
            Anchor::BottomLeft | Anchor::BottomCenter | Anchor::BottomRight => Alignment::End,
        }
    }

    pub fn horizontal(self) -> (a: Alignment)
        ensures
            a == self.horizontal_spec(),
    {
        match self {
            Anchor::TopLeft | Anchor::CenterLeft | Anchor::BottomLeft => Alignment::Start,
            Anchor::TopCenter | Anchor::Center | Anchor::BottomCenter => Alignment::Middle,
            Anchor::TopRight | Anchor::CenterRight | Anchor::BottomRight => Alignment::End,
        }
    }

    pub fn vertical(self) -> (a: Alignment)
        ensures
            a == self.vertical_spec(),
    {
        match self {
            Anchor::TopLeft | Anchor::TopCenter | Anchor::TopRight => Alignment::Start,
            Anchor::CenterLeft | Anchor::Center | Anchor::CenterRight => Alignment::Middle,
            Anchor::BottomLeft | Anchor::BottomCenter | Anchor::BottomRight => Alignment::End,
        }
    }
}

/// The resampling filters offered for resizing.
#[derive(Debug, Clone, Copy, PartialEq, Eq, Structural)]
pub enum ResizeFilter {
    Nearest,
    Linear,
    Cubic,
    Lanczos,
}

/// `image::imageops::FilterType`, carried through as it is.
#[verifier::external_type_specification]
#[verifier::external_body]
pub struct ExFilterType(image::imageops::FilterType);

impl ResizeFilter {
    /// The filter of the `image` crate that goes by this name: `Nearest`, `Triangle`
    /// for linear, `CatmullRom` for cubic, `Lanczos3`. The result is opaque here, so
    /// nothing is claimed of it.
    #[verifier::external_body]
    pub fn to_image_filter(self) -> (filter: image::imageops::FilterType) {
        match self {
            ResizeFilter::Nearest => image::imageops::FilterType::Nearest,
            ResizeFilter::Linear => image::imageops::FilterType::Triangle,
            ResizeFilter::Cubic => image::imageops::FilterType::CatmullRom,
            ResizeFilter::Lanczos => image::imageops::FilterType::Lanczos3,
        }
    }
}

/// The file formats that an image can be written in.
#[derive(Debug, Clone, Copy, PartialEq, Eq, Structural)]
pub enum ImageFormat {
    Png,
    Jpeg,
    Gif,
    Bmp,
    Tiff,
    Webp,
    Ico,
}

/// How the colors of an overlay combine with those below it.
#[derive(Debug, Clone, Copy, PartialEq, Eq, Structural)]
pub enum BlendMode {
    Normal,
    Multiply,
    Screen,
    Overlay,
}

} // verus!
