//! Biome categories and the ordered rule table that assigns them.

use vstd::prelude::*;
use crate::scalar::Scalar;

verus! {

/// The bits of `0.4`: the elevation under which a cell is sea.
pub const SEA_LEVEL_BITS: u32 = 0x3ecc_cccd;

/// The bits of `0.1`.
pub const TENTH_BITS: u32 = 0x3dcc_cccd;

/// The bits of `0.15`.
pub const COLD_DESERT_BITS: u32 = 0x3e19_999a;

/// The bits of `0.25`.
pub const QUARTER_BITS: u32 = 0x3e80_0000;

/// The bits of `0.5`.
pub const MIDDLE_BITS: u32 = 0x3f00_0000;

/// The bits of `0.75`.
pub const THREE_QUARTER_BITS: u32 = 0x3f40_0000;

/// The category of a cell. A cell has exactly one.
#[derive(Clone, Copy, PartialEq, Eq, Structural, Debug)]
pub enum Biome {
    Water,
    IceSheet,
    ColdDesert,
    Tundra,
    BorealForest,
    Grassland,
    Woodland,
    TemperateForest,
    Rainforest,
    Desert,
    Savanna,
}

/// Whether `value` is below the number whose bits are `bits`.
pub open spec fn below(value: Scalar, bits: u32) -> bool {
    value.spec_lt(Scalar { bits })
}

/// The biome of a cell with elevation `e`, precipitation `m` and temperature
/// `t`, for a sea level of `sea`. The rules are tried from the top and the
/// first that applies decides; each later rule relies on the earlier ones
/// having failed.
pub open spec fn classify_with(sea: Scalar, e: Scalar, m: Scalar, t: Scalar) -> Biome {
    if e.spec_lt(sea) {
        if below(t, MIDDLE_BITS) {
            Biome::Water
        } else {
            Biome::IceSheet
        }
    } else if below(t, COLD_DESERT_BITS) {
        Biome::ColdDesert
    } else if below(t, QUARTER_BITS) {
        Biome::Tundra
    } else if below(t, THREE_QUARTER_BITS) {
        if below(t, MIDDLE_BITS) && below(m, MIDDLE_BITS) {
            Biome::BorealForest
        } else if below(m, TENTH_BITS) {
            Biome::Grassland
        } else if below(m, QUARTER_BITS) {
            Biome::Woodland
        } else {
            Biome::TemperateForest
        }
    } else if below(m, QUARTER_BITS) {
        Biome::Desert
    } else if below(m, THREE_QUARTER_BITS) {
        Biome::Savanna
    } else {
        Biome::Rainforest
    }
}

/// The biome of a cell at the standard sea level of `0.4`.
pub open spec fn classify(e: Scalar, m: Scalar, t: Scalar) -> Biome {
    classify_with(Scalar { bits: SEA_LEVEL_BITS }, e, m, t)
}

/// The set of climates that belong to `biome`, written as a region of its
/// own rather than as a position in the rule table.
pub open spec fn region(biome: Biome, sea: Scalar, e: Scalar, m: Scalar, t: Scalar) -> bool {
    let land = !e.spec_lt(sea);
    let mild = land && !below(t, QUARTER_BITS) && below(t, THREE_QUARTER_BITS);
    let hot = land && !below(t, THREE_QUARTER_BITS);
    match biome {
        Biome::Water => e.spec_lt(sea) && below(t, MIDDLE_BITS),
        Biome::IceSheet => e.spec_lt(sea) && !below(t, MIDDLE_BITS),
        Biome::ColdDesert => land && below(t, COLD_DESERT_BITS),
        Biome::Tundra => land && !below(t, COLD_DESERT_BITS) && below(t, QUARTER_BITS),
        Biome::BorealForest => mild && below(t, MIDDLE_BITS) && below(m, MIDDLE_BITS),
        Biome::Grassland => mild && !below(t, MIDDLE_BITS) && below(m, TENTH_BITS),
        Biome::Woodland => mild && !below(t, MIDDLE_BITS) && !below(m, TENTH_BITS) && below(
            m,
            QUARTER_BITS,
        ),
        Biome::TemperateForest => mild && if below(t, MIDDLE_BITS) {
            !below(m, MIDDLE_BITS)
        } else {
            !below(m, QUARTER_BITS)
        },
        Biome::Desert => hot && below(m, QUARTER_BITS),
        Biome::Savanna => hot && !below(m, QUARTER_BITS) && below(m, THREE_QUARTER_BITS),
        Biome::Rainforest => hot && !below(m, THREE_QUARTER_BITS),
    }
}

/// Every climate, a NaN in any place included, lies in the region of exactly
/// one biome, and that biome is the one the rule table gives.
pub proof fn lemma_classify_total(sea: Scalar, e: Scalar, m: Scalar, t: Scalar)
    ensures
        region(classify_with(sea, e, m, t), sea, e, m, t),
        forall|b: Biome| #[trigger] region(b, sea, e, m, t) ==> b == classify_with(sea, e, m, t),
{
}

/// The sea rule comes before all others: under the sea level the
/// temperature alone decides, whatever the precipitation.
pub proof fn lemma_sea_rule_first(sea: Scalar, e: Scalar, m: Scalar, t: Scalar)
    requires
        e.spec_lt(sea),
    ensures
        below(t, MIDDLE_BITS) ==> classify_with(sea, e, m, t) == Biome::Water,
        !below(t, MIDDLE_BITS) ==> classify_with(sea, e, m, t) == Biome::IceSheet,
{
}

/// At an elevation of `0.2`, which is under the standard sea level, a cell
/// is water where its temperature is below `0.5` and an ice sheet
/// otherwise.
pub proof fn lemma_shallow_cells(m: Scalar, t: Scalar)
    ensures
        below(t, MIDDLE_BITS) ==> classify(Scalar { bits: 0x3e4c_cccd }, m, t) == Biome::Water,
        !below(t, MIDDLE_BITS) ==> classify(Scalar { bits: 0x3e4c_cccd }, m, t)
            == Biome::IceSheet,
{
}

/// Classifies a cell at the sea level `sea`.
pub fn biome_with_sea_level(sea: Scalar, e: Scalar, m: Scalar, t: Scalar) -> (r: Biome)
    ensures
        r == classify_with(sea, e, m, t),
{
    if e.lt(sea) {
        if t.lt(Scalar::from_bits(MIDDLE_BITS)) {
            return Biome::Water;
        }
        return Biome::IceSheet;
    }
    if t.lt(Scalar::from_bits(COLD_DESERT_BITS)) {
        return Biome::ColdDesert;
    }
    if t.lt(Scalar::from_bits(QUARTER_BITS)) {
        return Biome::Tundra;
    }
    if t.lt(Scalar::from_bits(THREE_QUARTER_BITS)) {
        if t.lt(Scalar::from_bits(MIDDLE_BITS)) {
            if m.lt(Scalar::from_bits(MIDDLE_BITS)) {
                return Biome::BorealForest;
            }
        }
        if m.lt(Scalar::from_bits(TENTH_BITS)) {
            return Biome::Grassland;
        }
        if m.lt(Scalar::from_bits(QUARTER_BITS)) {
            return Biome::Woodland;
        }
        return Biome::TemperateForest;
    }
    if m.lt(Scalar::from_bits(QUARTER_BITS)) {
        return Biome::Desert;
    }
    if m.lt(Scalar::from_bits(THREE_QUARTER_BITS)) {
        return Biome::Savanna;
    }
    Biome::Rainforest
}

} // verus!
