//! Seeded terrain grids: climate fields held as binary32 bit patterns, a
//! rule-based biome classifier, a colour table and a chunk index for
//! viewport-driven redraws.
//!
//! Every number that is a real-valued quantity is carried as a [`scalar::Scalar`],
//! the bit pattern of an IEEE-754 binary32 value. Ordering, truncation and
//! the rounding of whole numbers to such values are decided on the bits;
//! other arithmetic on them is supplied by the caller as function values.

use vstd::prelude::*;

pub mod scalar;
pub mod rounding;
pub mod noise;
pub mod biome;
pub mod field;
pub mod color;
pub mod color_lut;
pub mod map;
pub mod viewport;
pub mod world;
pub mod chunk;
pub mod state;

verus! {

/// The number of columns of a grid of standard dimensions.
pub const WIDTH: u32 = 80;

/// The number of rows of a grid of standard dimensions.
pub const HEIGHT: u32 = 50;

} // verus!
