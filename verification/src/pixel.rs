//! RGBA color samples and positioned pixels.

use vstd::prelude::*;

use crate::coordinate::Coordinate;

verus! {

/// An RGBA sample with 8 bits per channel. An alpha of `0` marks the pixel
/// as transparent: it is never emitted on the wire.
#[derive(Clone, Copy, Debug, PartialEq, Eq, Structural)]
pub struct Color {
    pub r: u8,
    pub g: u8,
    pub b: u8,
    pub a: u8,
}

impl Color {
    /// The red channel.
    pub fn red(&self) -> (v: u8)
        ensures
            v == self.r,
    {
        self.r
    }

    /// The green channel.
    pub fn green(&self) -> (v: u8)
        ensures
            v == self.g,
    {
        self.g
    }

    /// The blue channel.
    pub fn blue(&self) -> (v: u8)
        ensures
            v == self.b,
    {
        self.b
    }

    /// The alpha channel; `0` means transparent.
    pub fn alpha(&self) -> (v: u8)
        ensures
            v == self.a,
    {
        self.a
    }

    /// A fully opaque color.
    pub fn rgb(red: u8, green: u8, blue: u8) -> (c: Color)
        ensures
            c == (Color { r: red, g: green, b: blue, a: 255u8 }),
    {
        Color { r: red, g: green, b: blue, a: 255 }
    }

    /// A color with an explicit alpha channel.
    pub fn rgba(red: u8, green: u8, blue: u8, alpha: u8) -> (c: Color)
        ensures
            c == (Color { r: red, g: green, b: blue, a: alpha }),
    {
        Color { r: red, g: green, b: blue, a: alpha }
    }

    /// The fully transparent color.
    pub fn null() -> (c: Color)
        ensures
            c == (Color { r: 0u8, g: 0u8, b: 0u8, a: 0u8 }),
    {
        Color { r: 0, g: 0, b: 0, a: 0 }
    }

    /// An opaque gray of the given level.
    pub fn gray(level: u8) -> (c: Color)
        ensures
            c == (Color { r: level, g: level, b: level, a: 255u8 }),
    {
        Color::rgb(level, level, level)
    }

    /// Dithers a 32-bit intensity down to an opaque 24-bit color: bits
    /// 16-23 become red, bits 8-15 green and bits 0-7 blue. Callers map a
    /// fraction `v` of `[0, 1]` to `bits = round(v * (2^32 - 1))`.
    pub fn gradient24(bits: u32) -> (c: Color)
        ensures
            c == gradient24_spec(bits),
    {
        proof {
            lemma_gradient24_channels_fit(bits);
        }
        let red = ((bits >> 16u32) & 0xffu32) as u8;
        let green = ((bits >> 8u32) & 0xffu32) as u8;
        let blue = (bits & 0xffu32) as u8;
        Color::rgb(red, green, blue)
    }
}

/// The color that `gradient24` returns for a given 32-bit intensity.
pub open spec fn gradient24_spec(bits: u32) -> Color {
    Color {
        r: ((bits >> 16u32) & 0xffu32) as u8,
        g: ((bits >> 8u32) & 0xffu32) as u8,
        b: (bits & 0xffu32) as u8,
        a: 255u8,
    }
}

/// Each channel that `gradient24_spec` extracts fits in a byte.
proof fn lemma_gradient24_channels_fit(bits: u32)
    ensures
        (bits >> 16u32) & 0xffu32 < 256,
        (bits >> 8u32) & 0xffu32 < 256,
        bits & 0xffu32 < 256,
{
    assert((bits >> 16u32) & 0xffu32 < 256) by (bit_vector);
    assert((bits >> 8u32) & 0xffu32 < 256) by (bit_vector);
    assert(bits & 0xffu32 < 256) by (bit_vector);
}

/// The lowest intensity dithers to opaque black, and the highest to opaque
/// white: the gradient meets both ends of the gray scale exactly.
pub proof fn lemma_gradient24_extremes()
    ensures
        gradient24_spec(0) == (Color { r: 0u8, g: 0u8, b: 0u8, a: 255u8 }),
        gradient24_spec(u32::MAX) == (Color { r: 255u8, g: 255u8, b: 255u8, a: 255u8 }),
{
    assert((0u32 >> 16u32) & 0xffu32 == 0) by (bit_vector);
    assert((0u32 >> 8u32) & 0xffu32 == 0) by (bit_vector);
    assert(0u32 & 0xffu32 == 0) by (bit_vector);
    assert((u32::MAX >> 16u32) & 0xffu32 == 255) by (bit_vector);
    assert((u32::MAX >> 8u32) & 0xffu32 == 255) by (bit_vector);
    assert(u32::MAX & 0xffu32 == 255) by (bit_vector);
}

/// A color sample at a canvas position.
#[derive(Clone, Copy, Debug, PartialEq, Eq, Structural)]
pub struct Pixel {
    pub coordinate: Coordinate,
    pub color: Color,
}

impl Pixel {
    /// The transparent pixel at the origin, as a value.
    pub open spec fn null_spec() -> Pixel {
        Pixel {
            coordinate: Coordinate { x: 0usize, y: 0usize },
            color: Color { r: 0u8, g: 0u8, b: 0u8, a: 0u8 },
        }
    }

    /// A transparent pixel at the origin.
    pub fn null() -> (p: Pixel)
        ensures
            p == Pixel::null_spec(),
    {
        Pixel { coordinate: Coordinate::null(), color: Color::null() }
    }

    /// Whether this pixel is emitted on the wire at all.
    pub fn visible(&self) -> (v: bool)
        ensures
            v == (self.color.a != 0),
    {
        self.color.a != 0
    }

    /// The same pixel moved by the given canvas offset.
    pub fn translated(self, offset: Coordinate) -> (p: Pixel)
        requires
            self.coordinate.x + offset.x <= usize::MAX,
            self.coordinate.y + offset.y <= usize::MAX,
        ensures
            p == translate_pixel(self, offset),
    {
        Pixel { coordinate: self.coordinate.add(offset), color: self.color }
    }
}

/// `p` moved by `offset`, componentwise on the coordinate.
pub open spec fn translate_pixel(p: Pixel, offset: Coordinate) -> Pixel {
    Pixel {
        coordinate: Coordinate {
            x: (p.coordinate.x + offset.x) as usize,
            y: (p.coordinate.y + offset.y) as usize,
        },
        color: p.color,
    }
}

} // verus!
