//! Display colours as hue, saturation and value, and the elevation bands
//! that pick them.

use vstd::prelude::*;
use crate::scalar::Scalar;

verus! {

/// A colour as hue, saturation and value, each nominally in the unit
/// interval.
#[derive(Clone, Copy, PartialEq, Eq, Structural, Debug)]
pub struct Hsv {
    pub h: Scalar,
    pub s: Scalar,
    pub v: Scalar,
}

/// The bits of `0.5`, the saturation of every tinted band.
pub const TINT_SATURATION_BITS: u32 = 0x3f00_0000;

/// The bits of `0.6`: below it a cell is drawn as water.
pub const SHORE_BITS: u32 = 0x3f19_999a;

/// The bits of `0.65`: below it a cell is drawn as beach.
pub const BEACH_BITS: u32 = 0x3f26_6666;

/// The bits of `0.8`: below it a cell is drawn as lowland.
pub const LOWLAND_BITS: u32 = 0x3f4c_cccd;

/// The bits of `0.85`: below it a cell is drawn as upland.
pub const UPLAND_BITS: u32 = 0x3f59_999a;

/// The bits of `0.9`: below it a cell is drawn as hill.
pub const HILL_BITS: u32 = 0x3f66_6666;

/// The bits of `0.95`: below it a cell is drawn as rock, from it on as snow.
pub const ROCK_BITS: u32 = 0x3f73_3333;

/// The bits of the hue `0.601` of water.
pub const WATER_HUE_BITS: u32 = 0x3f19_db23;

/// The bits of the hue `0.136` of beach.
pub const BEACH_HUE_BITS: u32 = 0x3e0b_4396;

/// The bits of the hue `0.333` of lowland.
pub const LOWLAND_HUE_BITS: u32 = 0x3eaa_7efa;

/// The bits of the hue `0.393` of upland.
pub const UPLAND_HUE_BITS: u32 = 0x3ec9_374c;

/// The bits of the hue `0.206` of hill.
pub const HILL_HUE_BITS: u32 = 0x3e52_f1aa;

/// The bits of the hue `0.065` of rock.
pub const ROCK_HUE_BITS: u32 = 0x3d85_1eb8;

/// The bits of `0.8`, the fixed value of the beach band.
pub const BEACH_VALUE_BITS: u32 = 0x3f4c_cccd;

/// The bits of `1.0`.
pub const FULL_BITS: u32 = 0x3f80_0000;

impl Hsv {
    /// The colour with the given three bit patterns.
    pub open spec fn of_bits(h: u32, s: u32, v: u32) -> Hsv {
        Hsv { h: Scalar { bits: h }, s: Scalar { bits: s }, v: Scalar { bits: v } }
    }

    /// Black: all three components `0.0`.
    pub open spec fn spec_black() -> Hsv {
        Hsv::of_bits(0, 0, 0)
    }

    /// Builds a colour from the bit patterns of its components.
    pub fn from_bits(h: u32, s: u32, v: u32) -> (r: Hsv)
        ensures
            r == Hsv::of_bits(h, s, v),
    {
        Hsv { h: Scalar::from_bits(h), s: Scalar::from_bits(s), v: Scalar::from_bits(v) }
    }

    /// Black, the colour given where no colour is defined.
    #[verifier::when_used_as_spec(spec_black)]
    pub fn black() -> (r: Hsv)
        ensures
            r == Hsv::spec_black(),
    {
        Hsv::from_bits(0, 0, 0)
    }
}

/// The hue of the band that the elevation `e` falls in. The bands are tried
/// from the lowest up and the first whose upper bound is above `e` decides;
/// an elevation that no bound is above, a NaN included, is snow.
pub open spec fn band_color(e: Scalar, shade: Scalar) -> Hsv {
    let tint = Scalar { bits: TINT_SATURATION_BITS };
    if e.spec_lt(Scalar { bits: SHORE_BITS }) {
        Hsv { h: Scalar { bits: WATER_HUE_BITS }, s: tint, v: shade }
    } else if e.spec_lt(Scalar { bits: BEACH_BITS }) {
        Hsv { h: Scalar { bits: BEACH_HUE_BITS }, s: tint, v: Scalar { bits: BEACH_VALUE_BITS } }
    } else if e.spec_lt(Scalar { bits: LOWLAND_BITS }) {
        Hsv { h: Scalar { bits: LOWLAND_HUE_BITS }, s: tint, v: shade }
    } else if e.spec_lt(Scalar { bits: UPLAND_BITS }) {
        Hsv { h: Scalar { bits: UPLAND_HUE_BITS }, s: tint, v: shade }
    } else if e.spec_lt(Scalar { bits: HILL_BITS }) {
        Hsv { h: Scalar { bits: HILL_HUE_BITS }, s: tint, v: shade }
    } else if e.spec_lt(Scalar { bits: ROCK_BITS }) {
        Hsv { h: Scalar { bits: ROCK_HUE_BITS }, s: tint, v: shade }
    } else {
        Hsv { h: Scalar { bits: 0 }, s: Scalar { bits: 0 }, v: shade }
    }
}

/// The colour of a cell of elevation `e` whose brightness is `shade`. Every
/// band but the beach takes `shade` as its value; the beach has a fixed one.
pub fn hsv(e: Scalar, shade: Scalar) -> (r: Hsv)
    ensures
        r == band_color(e, shade),
{
    let tint: Scalar = Scalar::from_bits(TINT_SATURATION_BITS);
    if e.lt(Scalar::from_bits(SHORE_BITS)) {
        return Hsv { h: Scalar::from_bits(WATER_HUE_BITS), s: tint, v: shade };
    }
    if e.lt(Scalar::from_bits(BEACH_BITS)) {
        return Hsv {
            h: Scalar::from_bits(BEACH_HUE_BITS),
            s: tint,
            v: Scalar::from_bits(BEACH_VALUE_BITS),
        };
    }
    if e.lt(Scalar::from_bits(LOWLAND_BITS)) {
        return Hsv { h: Scalar::from_bits(LOWLAND_HUE_BITS), s: tint, v: shade };
    }
    if e.lt(Scalar::from_bits(UPLAND_BITS)) {
        return Hsv { h: Scalar::from_bits(UPLAND_HUE_BITS), s: tint, v: shade };
    }
    if e.lt(Scalar::from_bits(HILL_BITS)) {
        return Hsv { h: Scalar::from_bits(HILL_HUE_BITS), s: tint, v: shade };
    }
    if e.lt(Scalar::from_bits(ROCK_BITS)) {
        return Hsv { h: Scalar::from_bits(ROCK_HUE_BITS), s: tint, v: shade };
    }
    Hsv { h: Scalar::from_bits(0), s: Scalar::from_bits(0), v: shade }
}

} // verus!
