//! RGBA colors over fixed-point channels.
//!
//! Channel values are unconstrained while shading runs; they are only
//! clamped to [0, 1] when converted to discrete bytes at the end.

use vstd::prelude::*;

verus! {

use crate::fixed::Fx;
use crate::fixed::SCALE;

/// Round `num` / `den` to the nearest integer, halves away from zero.
pub open spec fn round_half_away(num: int, den: int) -> int
    recommends
        den > 0,
{
    if num >= 0 {
        (2 * num + den) / (2 * den)
    } else {
        -((2 * (-num) + den) / (2 * den))
    }
}

/// The byte a channel value turns into: scaled by 255, rounded half
/// away from zero, and clamped to [0, 255].
pub open spec fn spec_clamp_and_convert(c: Fx) -> u8 {
    let rounded = round_half_away(c.bits * 255, SCALE as int);
    if rounded < 0 {
        0u8
    } else if rounded > 255 {
        255u8
    } else {
        rounded as u8
    }
}

/// An RGBA color; each channel is a fixed-point scalar.
#[derive(Clone, Copy, PartialEq, Eq, Structural, Debug)]
pub struct Color {
    pub r: Fx,
    pub g: Fx,
    pub b: Fx,
    pub a: Fx,
}

impl Color {
    pub open spec fn spec_white() -> Color {
        Color {
            r: Fx::spec_one(),
            g: Fx::spec_one(),
            b: Fx::spec_one(),
            a: Fx::spec_one(),
        }
    }

    pub open spec fn spec_black() -> Color {
        Color {
            r: Fx::spec_zero(),
            g: Fx::spec_zero(),
            b: Fx::spec_zero(),
            a: Fx::spec_one(),
        }
    }

    pub open spec fn spec_transparent() -> Color {
        Color {
            r: Fx::spec_zero(),
            g: Fx::spec_zero(),
            b: Fx::spec_zero(),
            a: Fx::spec_zero(),
        }
    }

    pub fn white() -> (c: Color)
        ensures
            c == Color::spec_white(),
    {
        Color {
            r: Fx { bits: SCALE },
            g: Fx { bits: SCALE },
            b: Fx { bits: SCALE },
            a: Fx { bits: SCALE },
        }
    }

    pub fn black() -> (c: Color)
        ensures
            c == Color::spec_black(),
    {
        Color { r: Fx { bits: 0 }, g: Fx { bits: 0 }, b: Fx { bits: 0 }, a: Fx { bits: SCALE } }
    }

    pub fn transparent() -> (c: Color)
        ensures
            c == Color::spec_transparent(),
    {
        Color { r: Fx { bits: 0 }, g: Fx { bits: 0 }, b: Fx { bits: 0 }, a: Fx { bits: 0 } }
    }

    pub open spec fn spec_add(self, other: Color) -> Color {
        Color {
            r: self.r.spec_add(other.r),
            g: self.g.spec_add(other.g),
            b: self.b.spec_add(other.b),
            a: self.a.spec_add(other.a),
        }
    }

    pub open spec fn spec_mul(self, other: Color) -> Color {
        Color {
            r: self.r.spec_mul(other.r),
            g: self.g.spec_mul(other.g),
            b: self.b.spec_mul(other.b),
            a: self.a.spec_mul(other.a),
        }
    }

    pub open spec fn spec_scale(self, f: Fx) -> Color {
        Color {
            r: self.r.spec_mul(f),
            g: self.g.spec_mul(f),
            b: self.b.spec_mul(f),
            a: self.a.spec_mul(f),
        }
    }

    /// Componentwise sum.
    pub fn add(&self, other: &Color) -> (c: Color)
        ensures
            c == self.spec_add(*other),
    {
        Color {
            r: self.r.add(other.r),
            g: self.g.add(other.g),
            b: self.b.add(other.b),
            a: self.a.add(other.a),
        }
    }

    /// Componentwise product, used to modulate light by surface albedo.
    pub fn mul(&self, other: &Color) -> (c: Color)
        ensures
            c == self.spec_mul(*other),
    {
        Color {
            r: self.r.mul(other.r),
            g: self.g.mul(other.g),
            b: self.b.mul(other.b),
            a: self.a.mul(other.a),
        }
    }

    /// Scale every channel by one scalar.
    pub fn scale(&self, f: Fx) -> (c: Color)
        ensures
            c == self.spec_scale(f),
    {
        Color { r: self.r.mul(f), g: self.g.mul(f), b: self.b.mul(f), a: self.a.mul(f) }
    }

    /// Turn one channel value into its output byte.
    pub fn clamp_and_convert(&self, channel: Fx) -> (byte: u8)
        ensures
            byte == spec_clamp_and_convert(channel),
    {
        let t: i128 = channel.bits as i128 * 255i128;
        let rounded: i128 = if t >= 0 {
            ((2 * t + 65536) as u128 / 131072u128) as i128
        } else {
            -(((2 * (-t) + 65536) as u128 / 131072u128) as i128)
        };
        if rounded < 0 {
            0u8
        } else if rounded > 255 {
            255u8
        } else {
            rounded as u8
        }
    }

    /// The four output bytes of this color, in R, G, B, A order.
    pub fn to_bytes_color(&self) -> (bytes: [u8; 4])
        ensures
            bytes[0] == spec_clamp_and_convert(self.r),
            bytes[1] == spec_clamp_and_convert(self.g),
            bytes[2] == spec_clamp_and_convert(self.b),
            bytes[3] == spec_clamp_and_convert(self.a),
    {
        [
            self.clamp_and_convert(self.r),
            self.clamp_and_convert(self.g),
            self.clamp_and_convert(self.b),
            self.clamp_and_convert(self.a),
        ]
    }
}

} // verus!
