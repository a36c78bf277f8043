//! Configuration records of coherent-noise fields.
//!
//! A [`NoiseField`] says which field is meant: it holds no tables and no
//! state. Sampling is left to a function of the record and a coordinate.

use vstd::prelude::*;
use crate::scalar::{Scalar, ZERO_BITS};

verus! {

/// How the octaves of a fractal field are summed.
#[derive(Clone, Copy, PartialEq, Eq, Structural, Debug)]
pub enum Fractal {
    /// Fractal Brownian motion: the octaves are added as they are.
    Fbm,
    /// Billow: the absolute value of each octave is added.
    Billow,
}

/// How a field interpolates between lattice points.
#[derive(Clone, Copy, PartialEq, Eq, Structural, Debug)]
pub enum Interpolation {
    Linear,
    Hermite,
    Quintic,
}

/// Why a configuration was refused.
#[derive(Clone, Copy, PartialEq, Eq, Structural, Debug)]
pub enum ConfigError {
    /// The octave count was zero or negative.
    Octaves,
    /// The base frequency was zero, negative or not a number.
    Frequency,
}

/// A parameterised, seeded noise field.
#[derive(Clone, Copy, PartialEq, Eq, Structural, Debug)]
pub struct NoiseField {
    pub seed: u64,
    pub fractal: Fractal,
    pub octaves: i32,
    pub gain: Scalar,
    pub lacunarity: Scalar,
    pub frequency: Scalar,
    pub interpolation: Interpolation,
}

impl NoiseField {
    /// A record is valid when it has at least one octave and a frequency
    /// above zero.
    pub open spec fn valid(self) -> bool {
        self.octaves > 0 && self.frequency.spec_gt(Scalar { bits: ZERO_BITS })
    }

    /// The record that differs from `self` in the seed alone.
    pub open spec fn with_seed(self, seed: u64) -> NoiseField {
        NoiseField { seed, ..self }
    }

    /// Builds a record, refusing an octave count that is not positive and a
    /// frequency that is not above zero. Of the two faults the octave count
    /// is reported first.
    pub fn configure(
        seed: u64,
        fractal: Fractal,
        octaves: i32,
        gain: Scalar,
        lacunarity: Scalar,
        frequency: Scalar,
        interpolation: Interpolation,
    ) -> (r: Result<NoiseField, ConfigError>)
        ensures
            octaves <= 0 ==> r == Err::<NoiseField, ConfigError>(ConfigError::Octaves),
            octaves > 0 && !frequency.spec_gt(Scalar { bits: ZERO_BITS }) ==> r == Err::<
                NoiseField,
                ConfigError,
            >(ConfigError::Frequency),
            octaves > 0 && frequency.spec_gt(Scalar { bits: ZERO_BITS }) ==> r == Ok::<
                NoiseField,
                ConfigError,
            >(
                (NoiseField { seed, fractal, octaves, gain, lacunarity, frequency, interpolation }),
            ),
            r is Ok ==> r->Ok_0.valid(),
    {
        if octaves <= 0 {
            return Err(ConfigError::Octaves);
        }
        if !frequency.gt(Scalar::zero()) {
            return Err(ConfigError::Frequency);
        }
        Ok(NoiseField { seed, fractal, octaves, gain, lacunarity, frequency, interpolation })
    }

    /// Replaces the seed and leaves every other parameter as it was.
    pub fn set_seed(&mut self, seed: u64)
        ensures
            *final(self) == old(self).with_seed(seed),
            old(self).valid() ==> final(self).valid(),
    {
        self.seed = seed;
    }
}

} // verus!
