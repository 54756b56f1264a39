//! Basic color conversion utility.
//!
//! A color channel in `[0, 1]` becomes an integer channel in `[0, 255]` by
//! the truncating conversion `floor(255.999 * channel)`; negative channels
//! clamp to zero and overflowing ones saturate, as a float-to-integer cast
//! would.

use crate::fixed::{quot, SCALE};
use crate::vector::Vec3;
use vstd::prelude::*;

verus! {

/// The integer channel for a scalar channel: `floor(255.999 * c)`, held
/// within the unsigned 32-bit range.
pub open spec fn channel_s(c: int) -> int {
    if c <= 0 {
        0
    } else {
        let q = quot(c * 255999, 65536000);
        if q > 0xFFFF_FFFF {
            0xFFFF_FFFF
        } else {
            q
        }
    }
}

/// The color a vector of scalar channels converts to.
pub open spec fn color_from_vec_s(v: Vec3) -> Color {
    Color {
        r: channel_s(v.x as int) as u32,
        g: channel_s(v.y as int) as u32,
        b: channel_s(v.z as int) as u32,
    }
}

/// A color as three integer channels.
#[derive(Clone, Copy, Debug, PartialEq, Eq, Structural)]
pub struct Color {
    pub r: u32,
    pub g: u32,
    pub b: u32,
}

/// One integer channel from one scalar channel.
fn channel(c: i64) -> (r: u32)
    ensures
        r == channel_s(c as int),
        0 <= c <= SCALE ==> r <= 255,
{
    if c <= 0 {
        0
    } else {
        let q: u128 = (c as u128) * 255999 / 65536000;
        proof {
            crate::fixed::lemma_quot_mag(c as int * 255999, 65536000);
            if c <= 65536 {
                vstd::arithmetic::div_mod::lemma_div_is_ordered(
                    c as int * 255999,
                    65536int * 255999,
                    65536000,
                );
            }
        }
        if q > 0xFFFF_FFFF {
            0xFFFF_FFFF
        } else {
            q as u32
        }
    }
}

impl Color {
    /// Convert three scalar channels in `[0, 1]` to integer channels in
    /// `[0, 255]`. No clamping beyond the integer range is performed:
    /// callers scale their channels first.
    pub fn new(r: i64, g: i64, b: i64) -> (c: Self)
        ensures
            c == (Color {
                r: channel_s(r as int) as u32,
                g: channel_s(g as int) as u32,
                b: channel_s(b as int) as u32,
            }),
            0 <= r <= SCALE ==> c.r <= 255,
            0 <= g <= SCALE ==> c.g <= 255,
            0 <= b <= SCALE ==> c.b <= 255,
    {
        Color { r: channel(r), g: channel(g), b: channel(b) }
    }
}

impl From<Vec3> for Color {
    /// The color of a vector read as three scalar channels.
    fn from(other: Vec3) -> (c: Self)
        ensures
            c == color_from_vec_s(other),
    {
        Color::new(other.x, other.y, other.z)
    }
}

impl vstd::std_specs::convert::FromSpecImpl<Vec3> for Color {
    open spec fn obeys_from_spec() -> bool {
        true
    }

    open spec fn from_spec(v: Vec3) -> Color {
        color_from_vec_s(v)
    }
}

} // verus!
