//! Integer-valued geometry and color types carried by canvas operations.
//!
//! The ordering core never computes with coordinates; it only carries them to
//! the surface and, for the few queries it answers itself, compares them.
//! Coordinates are therefore held as plain `i64` values (`u64` for pixel
//! regions), which keeps every contract exact.

use vstd::prelude::*;

verus! {

/// A point in canvas coordinates.
#[derive(Clone, Copy, PartialEq, Eq, Structural, Debug)]
pub struct Point2 {
    pub x: i64,
    pub y: i64,
}

/// An axis-aligned rectangle in canvas coordinates. A rectangle with
/// non-positive width or height covers no pixel.
#[derive(Clone, Copy, PartialEq, Eq, Structural, Debug)]
pub struct RectI {
    pub x: i64,
    pub y: i64,
    pub w: i64,
    pub h: i64,
}

/// An axis-aligned pixel region with unsigned coordinates, as used by image
/// reads and writes.
#[derive(Clone, Copy, PartialEq, Eq, Structural, Debug)]
pub struct RectU {
    pub x: u64,
    pub y: u64,
    pub w: u64,
    pub h: u64,
}

/// A surface size in whole pixels.
#[derive(Clone, Copy, PartialEq, Eq, Structural, Debug)]
pub struct SizeU {
    pub w: u64,
    pub h: u64,
}

/// A 2D affine transform, row-major: the six coefficients
/// `m11 m12 / m21 m22 / m31 m32`.
#[derive(Clone, Copy, PartialEq, Eq, Structural, Debug)]
pub struct Transform2 {
    pub m11: i64,
    pub m12: i64,
    pub m21: i64,
    pub m22: i64,
    pub m31: i64,
    pub m32: i64,
}

impl Transform2 {
    /// The identity transform, the state of a fresh surface.
    pub open spec fn identity_spec() -> Transform2 {
        Transform2 { m11: 1, m12: 0, m21: 0, m22: 1, m31: 0, m32: 0 }
    }

    pub fn identity() -> (t: Transform2)
        ensures
            t == Transform2::identity_spec(),
    {
        Transform2 { m11: 1, m12: 0, m21: 0, m22: 1, m31: 0, m32: 0 }
    }
}

/// A color with 8-bit channels.
#[derive(Clone, Copy, PartialEq, Eq, Structural, Debug)]
pub struct Rgba {
    pub red: u8,
    pub green: u8,
    pub blue: u8,
    pub alpha: u8,
}

/// A color packed into one pixel word, `0xRRGGBBAA`.
pub open spec fn pack_rgba_spec(c: Rgba) -> u32 {
    ((c.red as u32) * 0x1000000 + (c.green as u32) * 0x10000 + (c.blue as u32) * 0x100
        + (c.alpha as u32)) as u32
}

/// Packs a color into one pixel word, `0xRRGGBBAA`. Fully transparent black
/// (`0`) is the cleared state of every pixel.
pub fn pack_rgba(c: Rgba) -> (p: u32)
    ensures
        p == pack_rgba_spec(c),
{
    (c.red as u32) * 0x1000000 + (c.green as u32) * 0x10000 + (c.blue as u32) * 0x100
        + (c.alpha as u32)
}

/// Whether `(x, y)` lies inside the rectangle.
pub open spec fn rect_covers(r: RectI, x: int, y: int) -> bool {
    &&& r.x <= x < r.x + r.w
    &&& r.y <= y < r.y + r.h
}

/// `v` clamped into `[0, hi]`.
pub open spec fn clamp_spec(v: int, hi: int) -> int {
    if v < 0 {
        0
    } else if v > hi {
        hi
    } else {
        v
    }
}

/// Clamps a coordinate into `[0, hi]`.
pub fn clamp_coord(v: i64, hi: u32) -> (c: usize)
    ensures
        c == clamp_spec(v as int, hi as int),
        c <= hi,
{
    if v < 0 {
        0
    } else if v > hi as i64 {
        hi as usize
    } else {
        v as usize
    }
}

/// Clamps the sum `v + w` into `[0, hi]`, without overflow on any inputs.
pub fn clamp_end(v: i64, w: i64, hi: u32) -> (c: usize)
    ensures
        c == clamp_spec(v as int + w as int, hi as int),
        c <= hi,
{
    let s: i128 = v as i128 + w as i128;
    if s < 0 {
        0
    } else if s > hi as i128 {
        hi as usize
    } else {
        s as usize
    }
}

} // verus!
