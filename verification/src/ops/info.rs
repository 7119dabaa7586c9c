//! What is known of an image file, laid out for reading.

use vstd::prelude::*;
use crate::text::{decimal, digit_char, push_decimal};

verus! {

/// What is known of an image file.
#[derive(Debug, Clone)]
pub struct ImageInfo {
    pub file: String,
    pub format: String,
    pub width: u32,
    pub height: u32,
    pub color_type: String,
    pub bit_depth: u8,
    pub file_size_bytes: u64,
}

pub const KB: u64 = 1024;

pub const MB: u64 = 1024 * 1024;

pub const GB: u64 = 1024 * 1024 * 1024;

/// The integer nearest to `n / d` for a positive `d`; of two equally near, the even
/// one.
pub open spec fn round_half_even(n: int, d: int) -> int {
    let q = n / d;
    let r = n % d;
    if 2 * r < d {
        q
    } else if 2 * r > d {
        q + 1
    } else if q % 2 == 0 {
        q
    } else {
        q + 1
    }
}

/// The numeral of `hundredths / 100` with two digits after the point.
pub open spec fn two_decimals(hundredths: nat) -> Seq<char> {
    decimal(hundredths / 100) + seq![
        '.',
        digit_char(((hundredths / 10) % 10) as int),
        digit_char((hundredths % 10) as int),
    ]
}

/// A number of bytes in the largest of the units GB, MB and KB that it reaches, to the
/// nearest hundredth, or in bytes below 1024.
pub open spec fn file_size_text(bytes: u64) -> Seq<char> {
    if bytes >= GB {
        two_decimals(round_half_even(bytes * 100, GB as int) as nat) + " GB"@
    } else if bytes >= MB {
        two_decimals(round_half_even(bytes * 100, MB as int) as nat) + " MB"@
    } else if bytes >= KB {
        two_decimals(round_half_even(bytes * 100, KB as int) as nat) + " KB"@
    } else {
        decimal(bytes as nat) + " bytes"@
    }
}

fn scaled(bytes: u64, unit: u64) -> (text: String)
    requires
        unit == KB || unit == MB || unit == GB,
    ensures
        text@ == two_decimals(round_half_even(bytes * 100, unit as int) as nat),
{
    let n: u128 = (bytes as u128) * 100;
    let d: u128 = unit as u128;
    let q: u128 = n / d;
    let r: u128 = n % d;
    let h: u128 = if 2 * r < d {
        q
    } else if 2 * r > d {
        q + 1
    } else if q % 2 == 0 {
        q
    } else {
        q + 1
    };
    assert(h == round_half_even(bytes * 100, unit as int));
    assert(h <= 0xffff_ffff_ffff_ffff);
    let h: u64 = h as u64;
    let mut s = String::new();
    push_decimal(&mut s, h / 100);
    s.push('.');
    s.push((48u8 + ((h / 10) % 10) as u8) as char);
    s.push((48u8 + (h % 10) as u8) as char);
    assert(s@ =~= two_decimals(h as nat));
    s
}

/// A number of bytes for a person to read, such as `1.50 KB`.
pub fn format_file_size(bytes: u64) -> (text: String)
    ensures
        text@ == file_size_text(bytes),
{
    if bytes >= GB {
        let mut s = scaled(bytes, GB);
        s.append(" GB");
        s
    } else if bytes >= MB {
        let mut s = scaled(bytes, MB);
        s.append(" MB");
        s
    } else if bytes >= KB {
        let mut s = scaled(bytes, KB);
        s.append(" KB");
        s
    } else {
        let mut s = String::new();
        push_decimal(&mut s, bytes);
        s.append(" bytes");
        assert(s@ =~= file_size_text(bytes));
        s
    }
}

impl ImageInfo {
    /// The six lines that describe the file.
    pub open spec fn display_spec(&self) -> Seq<char> {
        "File: "@ + self.file@ + "\nFormat: "@ + self.format@ + "\nDimensions: "@ + decimal(
            self.width as nat,
        ) + "x"@ + decimal(self.height as nat) + "\nColor Type: "@ + self.color_type@
            + "\nBit Depth: "@ + decimal(self.bit_depth as nat) + "\nFile Size: "@
            + file_size_text(self.file_size_bytes)
    }

    /// The description of the file for a person to read.
    pub fn display(&self) -> (text: String)
        ensures
            text@ == self.display_spec(),
    {
        let size_display = format_file_size(self.file_size_bytes);
        let mut s = String::from_str("File: ");
        s.append(self.file.as_str());
        s.append("\nFormat: ");
        s.append(self.format.as_str());
        s.append("\nDimensions: ");
        push_decimal(&mut s, self.width as u64);
        s.append("x");
        push_decimal(&mut s, self.height as u64);
        s.append("\nColor Type: ");
        s.append(self.color_type.as_str());
        s.append("\nBit Depth: ");
        push_decimal(&mut s, self.bit_depth as u64);
        s.append("\nFile Size: ");
        s.append(size_display.as_str());
        s
    }
}

/// The layouts of samples that an image file can have.
#[derive(Debug, Clone, Copy, PartialEq, Eq, Structural)]
pub enum ColorType {
    L8,
    La8,
    Rgb8,
    Rgba8,
    L16,
    La16,
    Rgb16,
    Rgba16,
    Rgb32F,
    Rgba32F,
    /// A layout that this library has no name for.
    Unknown,
}

impl ColorType {
    pub open spec fn name_spec(self) -> Seq<char> {
        match self {
            ColorType::L8 => "Grayscale"@,
            ColorType::La8 => "Grayscale+Alpha"@,
            ColorType::Rgb8 => "RGB"@,
            ColorType::Rgba8 => "RGBA"@,
            ColorType::L16 => "Grayscale16"@,
            ColorType::La16 => "Grayscale16+Alpha"@,
            ColorType::Rgb16 => "RGB16"@,
            ColorType::Rgba16 => "RGBA16"@,
            ColorType::Rgb32F => "RGB32F"@,
            ColorType::Rgba32F => "RGBA32F"@,
            ColorType::Unknown => "Unknown"@,
        }
    }

    /// The number of bits in one sample; 8 where the layout is unknown.
    pub open spec fn bit_depth_spec(self) -> int {
        match self {
            ColorType::L8 | ColorType::La8 | ColorType::Rgb8 | ColorType::Rgba8 => 8,
            ColorType::L16 | ColorType::La16 | ColorType::Rgb16 | ColorType::Rgba16 => 16,
            ColorType::Rgb32F | ColorType::Rgba32F => 32,
            ColorType::Unknown => 8,
        }
    }
}

/// The name of a layout of samples.
pub fn color_type_to_string(color_type: ColorType) -> (name: String)
    ensures
        name@ == color_type.name_spec(),
{
    match color_type {
        ColorType::L8 => String::from_str("Grayscale"),
        ColorType::La8 => String::from_str("Grayscale+Alpha"),
        ColorType::Rgb8 => String::from_str("RGB"),
        ColorType::Rgba8 => String::from_str("RGBA"),
        ColorType::L16 => String::from_str("Grayscale16"),
        ColorType::La16 => String::from_str("Grayscale16+Alpha"),
        ColorType::Rgb16 => String::from_str("RGB16"),
        ColorType::Rgba16 => String::from_str("RGBA16"),
        ColorType::Rgb32F => String::from_str("RGB32F"),
        ColorType::Rgba32F => String::from_str("RGBA32F"),
        ColorType::Unknown => String::from_str("Unknown"),
    }
}

/// The number of bits in one sample of a layout.
pub fn color_type_bit_depth(color_type: ColorType) -> (bits: u8)
    ensures
        bits == color_type.bit_depth_spec(),
{
    match color_type {
        ColorType::L8 | ColorType::La8 | ColorType::Rgb8 | ColorType::Rgba8 => 8,
        ColorType::L16 | ColorType::La16 | ColorType::Rgb16 | ColorType::Rgba16 => 16,
        ColorType::Rgb32F | ColorType::Rgba32F => 32,
        ColorType::Unknown => 8,
    }
}

} // verus!
