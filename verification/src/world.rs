//! The world grid: climate fields sampled cell by cell from two noise
//! fields.

use vstd::prelude::*;
use vstd::arithmetic::div_mod::{lemma_fundamental_div_mod, lemma_multiply_divide_lt};
use crate::field::filled;
use crate::noise::{Fractal, Interpolation, NoiseField};
use crate::scalar::{Scalar, HALF_BITS, ZERO_BITS};
use crate::{HEIGHT, WIDTH};

verus! {

/// The bits of `0.55`, the elevation above which a cell of this grid is
/// drawn as land.
pub const SEA_LEVEL: u32 = 0x3f0c_cccd;

/// The side of a chunk of a grid of standard dimensions, in cells.
pub const CHUNK_SIZE: u32 = 4;

/// A grid of cells in row-major order, each with elevation, precipitation
/// and temperature in the unit interval, and the two noise fields they are
/// sampled from.
pub struct World {
    pub tiles: Vec<Scalar>,
    pub elevation: Vec<Scalar>,
    pub precipitation: Vec<Scalar>,
    pub temperature: Vec<Scalar>,
    pub width: u32,
    pub height: u32,
    pub size: usize,
    pub seed: u32,
    pub chunk_size: u32,
    pub nz_elevation: NoiseField,
    pub nz_precipitation: NoiseField,
}

impl World {
    /// The dimensions and the chunk side are positive, `size` is the product
    /// of the dimensions and fits a `u32`, every array has one entry for each
    /// cell, and the two noise fields are those of the seed.
    pub open spec fn wf(&self) -> bool {
        &&& self.width > 0
        &&& self.height > 0
        &&& self.chunk_size > 0
        &&& self.size == self.width * self.height
        &&& self.size <= u32::MAX
        &&& self.tiles@.len() == self.size
        &&& self.elevation@.len() == self.size
        &&& self.precipitation@.len() == self.size
        &&& self.temperature@.len() == self.size
        &&& self.nz_elevation == World::spec_elevation_noise(self.seed)
        &&& self.nz_precipitation == World::spec_precipitation_noise(self.seed)
    }

    /// The state of a grid that has not been generated: every value `0.0`.
    pub open spec fn blank(&self) -> bool {
        &&& forall|i: int| 0 <= i < self.size ==> (#[trigger] self.tiles@[i]).bits == ZERO_BITS
        &&& forall|i: int| 0 <= i < self.size ==> (#[trigger] self.elevation@[i]).bits == ZERO_BITS
        &&& forall|i: int|
            0 <= i < self.size ==> (#[trigger] self.precipitation@[i]).bits == ZERO_BITS
        &&& forall|i: int|
            0 <= i < self.size ==> (#[trigger] self.temperature@[i]).bits == ZERO_BITS
    }

    /// The elevation field of a world seeded with `seed`: fractal Brownian
    /// motion of eight octaves, gain `0.3`, lacunarity `3.0`, frequency
    /// `0.035`.
    pub open spec fn spec_elevation_noise(seed: u32) -> NoiseField {
        NoiseField {
            seed: seed as u64,
            fractal: Fractal::Fbm,
            octaves: 8,
            gain: Scalar { bits: 0x3e99_999a },
            lacunarity: Scalar { bits: 0x4040_0000 },
            frequency: Scalar { bits: 0x3d0f_5c29 },
            interpolation: Interpolation::Quintic,
        }
    }

    /// The precipitation field of a world seeded with `seed`: fractal
    /// Brownian motion of six octaves, gain `0.5`, lacunarity `1.3`,
    /// frequency `0.03`.
    pub open spec fn spec_precipitation_noise(seed: u32) -> NoiseField {
        NoiseField {
            seed: seed as u64,
            fractal: Fractal::Fbm,
            octaves: 6,
            gain: Scalar { bits: 0x3f00_0000 },
            lacunarity: Scalar { bits: 0x3fa6_6666 },
            frequency: Scalar { bits: 0x3cf5_c28f },
            interpolation: Interpolation::Quintic,
        }
    }

    /// The flat index of the cell in column `x` of row `y`, after bringing
    /// both into the grid.
    pub open spec fn spec_idx(&self, x: u32, y: u32) -> int {
        let cx = if x >= self.width {
            self.width - 1
        } else {
            x as int
        };
        let cy = if y >= self.height {
            self.height - 1
        } else {
            y as int
        };
        cy * self.width + cx
    }

    /// Whether the world is well formed. Callers that fill the public fields
    /// themselves can test it before they call a method that relies on it.
    pub fn is_well_formed(&self) -> (ok: bool)
        ensures
            ok == self.wf(),
    {
        if self.width == 0 || self.height == 0 || self.chunk_size == 0 {
            return false;
        }
        proof {
            assert(0 < self.width * self.height <= 0xffff_ffff * 0xffff_ffff) by (nonlinear_arith)
                requires
                    0 < self.width <= 0xffff_ffff,
                    0 < self.height <= 0xffff_ffff,
            ;
        }
        let cells: u64 = (self.width as u64) * (self.height as u64);
        cells <= u32::MAX as u64 && self.size as u64 == cells && self.tiles.len() == self.size
            && self.elevation.len() == self.size && self.precipitation.len() == self.size
            && self.temperature.len() == self.size && self.nz_elevation == World::elevation_noise(
            self.seed,
        ) && self.nz_precipitation == World::precipitation_noise(self.seed)
    }

    /// The flat index of the cell at `(x, y)`. A coordinate outside the grid
    /// is brought to the nearest cell inside it.
    pub fn idx(&self, x: u32, y: u32) -> (r: u32)
        requires
            self.wf(),
        ensures
            r == self.spec_idx(x, y),
            r < self.size,
            x < self.width && y < self.height ==> r == y * self.width + x,
    {
        let cx: u32 = if x >= self.width {
            self.width - 1
        } else {
            x
        };
        let cy: u32 = if y >= self.height {
            self.height - 1
        } else {
            y
        };
        proof {
            assert(0 <= cy * self.width && cy * self.width + cx < self.width * self.height)
                by (nonlinear_arith)
                requires
                    0 <= cy <= self.height - 1,
                    0 <= cx < self.width,
            ;
        }
        cy * self.width + cx
    }

    /// The elevation of the cell at `(x, y)`, a coordinate outside the grid
    /// being brought to the nearest cell inside it.
    pub fn elevation_at(&self, x: u32, y: u32) -> (r: Scalar)
        requires
            self.wf(),
        ensures
            r == self.elevation@[self.spec_idx(x, y)],
    {
        self.elevation[self.idx(x, y) as usize]
    }

    /// The precipitation of the cell at `(x, y)`, a coordinate outside the
    /// grid being brought to the nearest cell inside it.
    pub fn precipitation_at(&self, x: u32, y: u32) -> (r: Scalar)
        requires
            self.wf(),
        ensures
            r == self.precipitation@[self.spec_idx(x, y)],
    {
        self.precipitation[self.idx(x, y) as usize]
    }

    /// The temperature of the cell at `(x, y)`, a coordinate outside the
    /// grid being brought to the nearest cell inside it.
    pub fn temperature_at(&self, x: u32, y: u32) -> (r: Scalar)
        requires
            self.wf(),
        ensures
            r == self.temperature@[self.spec_idx(x, y)],
    {
        self.temperature[self.idx(x, y) as usize]
    }

    /// The column and the row of the cell with flat index `idx`.
    pub fn tile(&self, idx: u32) -> (r: (u32, u32))
        requires
            self.wf(),
        ensures
            r.0 == idx % self.width,
            r.1 == idx / self.width,
            r.0 < self.width,
            idx < self.size ==> r.1 < self.height && self.spec_idx(r.0, r.1) == idx,
    {
        proof {
            lemma_fundamental_div_mod(idx as int, self.width as int);
            if idx < self.size {
                lemma_multiply_divide_lt(idx as int, self.width as int, self.height as int);
            }
            assert((idx as int / self.width as int) * self.width == self.width * (idx as int
                / self.width as int)) by (nonlinear_arith);
        }
        (idx % self.width, idx / self.width)
    }
}

/// Whether `r` is the level of `field` at the cell `(x, y)`: what `unit`
/// makes of a sample of the field there, brought into the unit interval, a
/// NaN counting as `0.5`.
pub open spec fn is_level<S: Fn(NoiseField, Scalar, Scalar) -> Scalar, U: Fn(Scalar) -> Scalar>(
    r: Scalar,
    field: NoiseField,
    x: Scalar,
    y: Scalar,
    sample: S,
    unit: U,
) -> bool {
    exists|noise: Scalar, level: Scalar|
        #![trigger sample.ensures((field, x, y), noise), unit.ensures((noise,), level)]
        sample.ensures((field, x, y), noise) && unit.ensures((noise,), level) && r
            == level.spec_clamp_unit(Scalar { bits: HALF_BITS })
}

/// Whether `r` is the precipitation at the cell `(x, y)`: what `wet` makes of
/// the level of `field` there, brought into the unit interval.
pub open spec fn is_precipitation<
    S: Fn(NoiseField, Scalar, Scalar) -> Scalar,
    U: Fn(Scalar) -> Scalar,
    W: Fn(Scalar) -> Scalar,
>(r: Scalar, field: NoiseField, x: Scalar, y: Scalar, sample: S, unit: U, wet: W) -> bool {
    exists|level: Scalar, moist: Scalar|
        #![trigger is_level(level, field, x, y, sample, unit), wet.ensures((level,), moist)]
        is_level(level, field, x, y, sample, unit) && wet.ensures((level,), moist) && r
            == moist.spec_clamp_unit(Scalar { bits: HALF_BITS })
}

/// Whether `r` is the temperature at the cell `(x, y)` of a grid of `height`
/// rows: what `warm` makes of the row, the height and the level of `field`
/// there, brought into the unit interval.
pub open spec fn is_temperature<
    S: Fn(NoiseField, Scalar, Scalar) -> Scalar,
    U: Fn(Scalar) -> Scalar,
    T: Fn(Scalar, u32, Scalar) -> Scalar,
>(
    r: Scalar,
    field: NoiseField,
    x: Scalar,
    y: Scalar,
    height: u32,
    sample: S,
    unit: U,
    warm: T,
) -> bool {
    exists|level: Scalar, heat: Scalar|
        #![trigger is_level(level, field, x, y, sample, unit), warm.ensures((y, height, level), heat)]
        is_level(level, field, x, y, sample, unit) && warm.ensures((y, height, level), heat) && r
            == heat.spec_clamp_unit(Scalar { bits: HALF_BITS })
}

impl World {
    /// Whether cell `i` holds an elevation, a precipitation and a
    /// temperature that the sampler and the arithmetic give for its column
    /// and row.
    pub open spec fn cell_generated<
        S: Fn(NoiseField, Scalar, Scalar) -> Scalar,
        U: Fn(Scalar) -> Scalar,
        W: Fn(Scalar) -> Scalar,
        T: Fn(Scalar, u32, Scalar) -> Scalar,
    >(&self, i: int, sample: S, unit: U, wet: W, warm: T) -> bool {
        let x = Scalar::spec_from_u32((i % (self.width as int)) as u32);
        let y = Scalar::spec_from_u32((i / (self.width as int)) as u32);
        &&& is_level(self.elevation@[i], self.nz_elevation, x, y, sample, unit)
        &&& is_precipitation(self.precipitation@[i], self.nz_precipitation, x, y, sample, unit, wet)
        &&& is_temperature(
            self.temperature@[i],
            self.nz_elevation,
            x,
            y,
            self.height,
            sample,
            unit,
            warm,
        )
    }

    /// Whether the grid is the outcome of a generation with the given
    /// sampler and arithmetic from the noise fields of its seed.
    pub open spec fn generated<
        S: Fn(NoiseField, Scalar, Scalar) -> Scalar,
        U: Fn(Scalar) -> Scalar,
        W: Fn(Scalar) -> Scalar,
        T: Fn(Scalar, u32, Scalar) -> Scalar,
    >(&self, sample: S, unit: U, wet: W, warm: T) -> bool {
        &&& self.wf()
        &&& forall|i: int|
            0 <= i < self.size ==> #[trigger] self.cell_generated(i, sample, unit, wet, warm)
    }

    /// Whether every stored climate value lies in the unit interval.
    pub open spec fn bounded(&self) -> bool {
        &&& forall|i: int| 0 <= i < self.size ==> (#[trigger] self.elevation@[i]).in_unit()
        &&& forall|i: int| 0 <= i < self.size ==> (#[trigger] self.precipitation@[i]).in_unit()
        &&& forall|i: int| 0 <= i < self.size ==> (#[trigger] self.temperature@[i]).in_unit()
    }

    /// The elevation field of a world seeded with `seed`.
    pub fn elevation_noise(seed: u32) -> (r: NoiseField)
        ensures
            r == World::spec_elevation_noise(seed),
            r.valid(),
    {
        NoiseField {
            seed: seed as u64,
            fractal: Fractal::Fbm,
            octaves: 8,
            gain: Scalar::from_bits(0x3e99_999a),
            lacunarity: Scalar::from_bits(0x4040_0000),
            frequency: Scalar::from_bits(0x3d0f_5c29),
            interpolation: Interpolation::Quintic,
        }
    }

    /// The precipitation field of a world seeded with `seed`.
    pub fn precipitation_noise(seed: u32) -> (r: NoiseField)
        ensures
            r == World::spec_precipitation_noise(seed),
            r.valid(),
    {
        NoiseField {
            seed: seed as u64,
            fractal: Fractal::Fbm,
            octaves: 6,
            gain: Scalar::from_bits(0x3f00_0000),
            lacunarity: Scalar::from_bits(0x3fa6_6666),
            frequency: Scalar::from_bits(0x3cf5_c28f),
            interpolation: Interpolation::Quintic,
        }
    }

    fn level_at<S: Fn(NoiseField, Scalar, Scalar) -> Scalar, U: Fn(Scalar) -> Scalar>(
        field: NoiseField,
        x: Scalar,
        y: Scalar,
        sample: &S,
        unit: &U,
    ) -> (r: Scalar)
        requires
            sample.requires((field, x, y)),
            forall|noise: Scalar| unit.requires((noise,)),
        ensures
            is_level(r, field, x, y, *sample, *unit),
            r.in_unit(),
    {
        let noise: Scalar = sample(field, x, y);
        let level: Scalar = unit(noise);
        level.clamp_unit(Scalar::half())
    }

    /// The elevation at the cell `(x, y)`: the level of the elevation field
    /// there.
    pub fn compute_elevation<S: Fn(NoiseField, Scalar, Scalar) -> Scalar, U: Fn(Scalar) -> Scalar>(
        &self,
        x: Scalar,
        y: Scalar,
        sample: &S,
        unit: &U,
    ) -> (r: Scalar)
        requires
            sample.requires((self.nz_elevation, x, y)),
            forall|noise: Scalar| unit.requires((noise,)),
        ensures
            is_level(r, self.nz_elevation, x, y, *sample, *unit),
            r.in_unit(),
    {
        World::level_at(self.nz_elevation, x, y, sample, unit)
    }

    /// The precipitation at the cell `(x, y)`: what `wet` makes of the level
    /// of the precipitation field there.
    pub fn compute_precipitation<
        S: Fn(NoiseField, Scalar, Scalar) -> Scalar,
        U: Fn(Scalar) -> Scalar,
        W: Fn(Scalar) -> Scalar,
    >(&self, x: Scalar, y: Scalar, sample: &S, unit: &U, wet: &W) -> (r: Scalar)
        requires
            sample.requires((self.nz_precipitation, x, y)),
            forall|noise: Scalar| unit.requires((noise,)),
            forall|level: Scalar| level.in_unit() ==> wet.requires((level,)),
        ensures
            is_precipitation(r, self.nz_precipitation, x, y, *sample, *unit, *wet),
            r.in_unit(),
    {
        let level: Scalar = World::level_at(self.nz_precipitation, x, y, sample, unit);
        let moist: Scalar = wet(level);
        moist.clamp_unit(Scalar::half())
    }

    /// The temperature at the cell `(x, y)`: what `warm` makes of the row,
    /// the number of rows and the elevation there.
    pub fn compute_temperature<
        S: Fn(NoiseField, Scalar, Scalar) -> Scalar,
        U: Fn(Scalar) -> Scalar,
        T: Fn(Scalar, u32, Scalar) -> Scalar,
    >(&self, x: Scalar, y: Scalar, sample: &S, unit: &U, warm: &T) -> (r: Scalar)
        requires
            sample.requires((self.nz_elevation, x, y)),
            forall|noise: Scalar| unit.requires((noise,)),
            forall|level: Scalar| level.in_unit() ==> warm.requires((y, self.height, level)),
        ensures
            is_temperature(r, self.nz_elevation, x, y, self.height, *sample, *unit, *warm),
            r.in_unit(),
    {
        let ele: Scalar = self.compute_elevation(x, y, sample, unit);
        let heat: Scalar = warm(y, self.height, ele);
        heat.clamp_unit(Scalar::half())
    }

    /// Recomputes the climate of every cell, in row-major order, from the
    /// noise fields of the current seed.
    pub fn generate<
        S: Fn(NoiseField, Scalar, Scalar) -> Scalar,
        U: Fn(Scalar) -> Scalar,
        W: Fn(Scalar) -> Scalar,
        T: Fn(Scalar, u32, Scalar) -> Scalar,
    >(&mut self, sample: &S, unit: &U, wet: &W, warm: &T)
        requires
            old(self).wf(),
            forall|x: u32, y: u32|
                x < old(self).width && y < old(self).height ==> sample.requires(
                    (old(self).nz_elevation, Scalar::spec_from_u32(x), Scalar::spec_from_u32(y)),
                ) && sample.requires(
                    (old(self).nz_precipitation, Scalar::spec_from_u32(x), Scalar::spec_from_u32(y)),
                ),
            forall|noise: Scalar| unit.requires((noise,)),
            forall|level: Scalar| level.in_unit() ==> wet.requires((level,)),
            forall|y: u32, level: Scalar|
                y < old(self).height && level.in_unit() ==> warm.requires(
                    (Scalar::spec_from_u32(y), old(self).height, level),
                ),
        ensures
            final(self).generated(*sample, *unit, *wet, *warm),
            final(self).bounded(),
            final(self).width == old(self).width,
            final(self).height == old(self).height,
            final(self).size == old(self).size,
            final(self).seed == old(self).seed,
            final(self).chunk_size == old(self).chunk_size,
            final(self).tiles@ == old(self).tiles@,
    {
        let mut i: usize = 0;
        while i < self.size
            invariant
                self.wf(),
                i <= self.size,
                self.width == old(self).width,
                self.height == old(self).height,
                self.size == old(self).size,
                self.seed == old(self).seed,
                self.chunk_size == old(self).chunk_size,
                self.tiles@ == old(self).tiles@,
                forall|x: u32, y: u32|
                    x < self.width && y < self.height ==> sample.requires(
                        (self.nz_elevation, Scalar::spec_from_u32(x), Scalar::spec_from_u32(y)),
                    ) && sample.requires(
                        (self.nz_precipitation, Scalar::spec_from_u32(x), Scalar::spec_from_u32(y)),
                    ),
                forall|noise: Scalar| unit.requires((noise,)),
                forall|level: Scalar| level.in_unit() ==> wet.requires((level,)),
                forall|y: u32, level: Scalar|
                    y < self.height && level.in_unit() ==> warm.requires(
                        (Scalar::spec_from_u32(y), self.height, level),
                    ),
                forall|j: int|
                    0 <= j < i ==> #[trigger] self.cell_generated(j, *sample, *unit, *wet, *warm),
                forall|j: int| 0 <= j < i ==> (#[trigger] self.elevation@[j]).in_unit(),
                forall|j: int| 0 <= j < i ==> (#[trigger] self.precipitation@[j]).in_unit(),
                forall|j: int| 0 <= j < i ==> (#[trigger] self.temperature@[j]).in_unit(),
            decreases self.size - i,
        {
            let at: (u32, u32) = self.tile(i as u32);
            let x: Scalar = Scalar::from_u32(at.0);
            let y: Scalar = Scalar::from_u32(at.1);
            let e: Scalar = self.compute_elevation(x, y, sample, unit);
            let p: Scalar = self.compute_precipitation(x, y, sample, unit, wet);
            let t: Scalar = self.compute_temperature(x, y, sample, unit, warm);
            let ghost before = *self;
            self.elevation.set(i, e);
            self.precipitation.set(i, p);
            self.temperature.set(i, t);
            proof {
                assert forall|j: int| 0 <= j < i + 1 implies #[trigger] self.cell_generated(
                    j,
                    *sample,
                    *unit,
                    *wet,
                    *warm,
                ) by {
                    if j < i {
                        assert(before.cell_generated(j, *sample, *unit, *wet, *warm));
                    }
                }
            }
            i = i + 1;
        }
    }

    /// Takes a new seed: both noise fields are re-seeded, every other
    /// parameter of theirs staying as it is, and the whole grid is
    /// regenerated.
    pub fn set_seed<
        S: Fn(NoiseField, Scalar, Scalar) -> Scalar,
        U: Fn(Scalar) -> Scalar,
        W: Fn(Scalar) -> Scalar,
        T: Fn(Scalar, u32, Scalar) -> Scalar,
    >(&mut self, seed: u32, sample: &S, unit: &U, wet: &W, warm: &T)
        requires
            old(self).wf(),
            forall|x: u32, y: u32|
                x < old(self).width && y < old(self).height ==> sample.requires(
                    (
                        World::spec_elevation_noise(seed),
                        Scalar::spec_from_u32(x),
                        Scalar::spec_from_u32(y),
                    ),
                ) && sample.requires(
                    (
                        World::spec_precipitation_noise(seed),
                        Scalar::spec_from_u32(x),
                        Scalar::spec_from_u32(y),
                    ),
                ),
            forall|noise: Scalar| unit.requires((noise,)),
            forall|level: Scalar| level.in_unit() ==> wet.requires((level,)),
            forall|y: u32, level: Scalar|
                y < old(self).height && level.in_unit() ==> warm.requires(
                    (Scalar::spec_from_u32(y), old(self).height, level),
                ),
        ensures
            final(self).seed == seed,
            final(self).generated(*sample, *unit, *wet, *warm),
            final(self).bounded(),
            final(self).width == old(self).width,
            final(self).height == old(self).height,
            final(self).size == old(self).size,
            final(self).chunk_size == old(self).chunk_size,
            final(self).tiles@ == old(self).tiles@,
    {
        self.seed = seed;
        self.nz_elevation = World::elevation_noise(seed);
        self.nz_precipitation = World::precipitation_noise(seed);
        self.generate(sample, unit, wet, warm);
    }

    /// A blank world of `width` by `height` cells in chunks of side
    /// `chunk_size`, with seed zero; or nothing where one of the three is
    /// zero or the cell count does not fit a `u32`.
    pub fn with_size(width: u32, height: u32, chunk_size: u32) -> (r: Option<World>)
        ensures
            r is Some <==> width > 0 && height > 0 && chunk_size > 0 && width * height
                <= u32::MAX,
            r is Some ==> {
                &&& r->Some_0.wf()
                &&& r->Some_0.blank()
                &&& r->Some_0.width == width
                &&& r->Some_0.height == height
                &&& r->Some_0.chunk_size == chunk_size
                &&& r->Some_0.seed == 0
            },
    {
        if width == 0 || height == 0 || chunk_size == 0 {
            return None;
        }
        proof {
            assert(0 < width * height <= 0xffff_ffff * 0xffff_ffff) by (nonlinear_arith)
                requires
                    0 < width <= 0xffff_ffff,
                    0 < height <= 0xffff_ffff,
            ;
        }
        let cells: u64 = (width as u64) * (height as u64);
        if cells > u32::MAX as u64 {
            return None;
        }
        Some(World::blank_of(width, height, chunk_size, cells as usize))
    }

    fn blank_of(width: u32, height: u32, chunk_size: u32, size: usize) -> (r: World)
        requires
            width > 0,
            height > 0,
            chunk_size > 0,
            size == width * height,
            size <= u32::MAX,
        ensures
            r.wf(),
            r.blank(),
            r.width == width,
            r.height == height,
            r.chunk_size == chunk_size,
            r.seed == 0,
    {
        let zero: Scalar = Scalar::zero();
        World {
            tiles: filled(zero, size),
            elevation: filled(zero, size),
            precipitation: filled(zero, size),
            temperature: filled(zero, size),
            width,
            height,
            size,
            seed: 0,
            chunk_size,
            nz_elevation: World::elevation_noise(0),
            nz_precipitation: World::precipitation_noise(0),
        }
    }

    /// A blank world of the standard dimensions and chunk side, with seed
    /// zero.
    pub fn new() -> (r: World)
        ensures
            r.wf(),
            r.blank(),
            r.width == WIDTH,
            r.height == HEIGHT,
            r.chunk_size == CHUNK_SIZE,
            r.seed == 0,
    {
        World::blank_of(WIDTH, HEIGHT, CHUNK_SIZE, (WIDTH * HEIGHT) as usize)
    }
}

/// A sampler is single-valued when no field and cell have two samples.
pub open spec fn sampler_single_valued<S: Fn(NoiseField, Scalar, Scalar) -> Scalar>(sample: S) -> bool {
    forall|field: NoiseField, x: Scalar, y: Scalar, p: Scalar, q: Scalar|
        #![trigger sample.ensures((field, x, y), p), sample.ensures((field, x, y), q)]
        sample.ensures((field, x, y), p) && sample.ensures((field, x, y), q) ==> p == q
}

/// An arithmetic of one argument is single-valued when no argument has two
/// results.
pub open spec fn curve_single_valued<U: Fn(Scalar) -> Scalar>(curve: U) -> bool {
    forall|v: Scalar, p: Scalar, q: Scalar|
        #![trigger curve.ensures((v,), p), curve.ensures((v,), q)]
        curve.ensures((v,), p) && curve.ensures((v,), q) ==> p == q
}

/// A temperature arithmetic is single-valued when no row, height and level
/// have two results.
pub open spec fn warming_single_valued<T: Fn(Scalar, u32, Scalar) -> Scalar>(warm: T) -> bool {
    forall|row: Scalar, height: u32, level: Scalar, p: Scalar, q: Scalar|
        #![trigger warm.ensures((row, height, level), p), warm.ensures((row, height, level), q)]
        warm.ensures((row, height, level), p) && warm.ensures((row, height, level), q) ==> p == q
}

proof fn lemma_level_unique<S: Fn(NoiseField, Scalar, Scalar) -> Scalar, U: Fn(Scalar) -> Scalar>(
    p: Scalar,
    q: Scalar,
    field: NoiseField,
    x: Scalar,
    y: Scalar,
    sample: S,
    unit: U,
)
    requires
        is_level(p, field, x, y, sample, unit),
        is_level(q, field, x, y, sample, unit),
        sampler_single_valued(sample),
        curve_single_valued(unit),
    ensures
        p == q,
{
}

/// Generation is reproducible: two worlds of the same dimensions and seed,
/// generated with the same single-valued sampler and arithmetic, hold the
/// same elevation, precipitation and temperature.
pub proof fn lemma_generate_deterministic<
    S: Fn(NoiseField, Scalar, Scalar) -> Scalar,
    U: Fn(Scalar) -> Scalar,
    W: Fn(Scalar) -> Scalar,
    T: Fn(Scalar, u32, Scalar) -> Scalar,
>(a: &World, b: &World, sample: S, unit: U, wet: W, warm: T)
    requires
        a.generated(sample, unit, wet, warm),
        b.generated(sample, unit, wet, warm),
        a.width == b.width,
        a.height == b.height,
        a.seed == b.seed,
        sampler_single_valued(sample),
        curve_single_valued(unit),
        curve_single_valued(wet),
        warming_single_valued(warm),
    ensures
        a.elevation@ == b.elevation@,
        a.precipitation@ == b.precipitation@,
        a.temperature@ == b.temperature@,
{
    assert(a.size == b.size);
    assert forall|i: int| 0 <= i < a.size implies a.elevation@[i] == b.elevation@[i]
        && a.precipitation@[i] == b.precipitation@[i] && a.temperature@[i]
        == b.temperature@[i] by {
        let x = Scalar::spec_from_u32((i % (a.width as int)) as u32);
        let y = Scalar::spec_from_u32((i / (a.width as int)) as u32);
        assert(a.cell_generated(i, sample, unit, wet, warm));
        assert(b.cell_generated(i, sample, unit, wet, warm));
        lemma_level_unique(a.elevation@[i], b.elevation@[i], a.nz_elevation, x, y, sample, unit);
        let (la, ma) = choose|level: Scalar, moist: Scalar|
            is_level(level, a.nz_precipitation, x, y, sample, unit) && wet.ensures(
                (level,),
                moist,
            ) && a.precipitation@[i] == moist.spec_clamp_unit(Scalar { bits: HALF_BITS });
        let (lb, mb) = choose|level: Scalar, moist: Scalar|
            is_level(level, a.nz_precipitation, x, y, sample, unit) && wet.ensures(
                (level,),
                moist,
            ) && b.precipitation@[i] == moist.spec_clamp_unit(Scalar { bits: HALF_BITS });
        lemma_level_unique(la, lb, a.nz_precipitation, x, y, sample, unit);
        let (ea, ha) = choose|level: Scalar, heat: Scalar|
            is_level(level, a.nz_elevation, x, y, sample, unit) && warm.ensures(
                (y, a.height, level),
                heat,
            ) && a.temperature@[i] == heat.spec_clamp_unit(Scalar { bits: HALF_BITS });
        let (eb, hb) = choose|level: Scalar, heat: Scalar|
            is_level(level, a.nz_elevation, x, y, sample, unit) && warm.ensures(
                (y, a.height, level),
                heat,
            ) && b.temperature@[i] == heat.spec_clamp_unit(Scalar { bits: HALF_BITS });
        lemma_level_unique(ea, eb, a.nz_elevation, x, y, sample, unit);
    }
    assert(a.elevation@ =~= b.elevation@);
    assert(a.precipitation@ =~= b.precipitation@);
    assert(a.temperature@ =~= b.temperature@);
}

} // verus!
