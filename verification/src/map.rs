//! The normalised grid: two noise fields rescaled to the unit interval by
//! their observed range, with temperature and display colour derived from
//! the rescaled elevation.

use vstd::prelude::*;
use vstd::arithmetic::div_mod::lemma_multiply_divide_lt;
use crate::biome::{Biome, SEA_LEVEL_BITS, classify, biome_with_sea_level};
use crate::color::{Hsv, FULL_BITS, band_color, hsv};
use crate::field::{
    degenerate, filled, lemma_observed_range, observed_range, range_of, rescale, rescaled,
};
use crate::noise::{Fractal, Interpolation, NoiseField};
use crate::scalar::{Scalar, HALF_BITS, ONE_BITS, ZERO_BITS};
use crate::{HEIGHT, WIDTH};

verus! {

/// The bits of `0.5`, the elevation drawn as the waterline of this grid.
pub const SEA_LEVEL: u32 = 0x3f00_0000;

/// What the arithmetic of one cell gives from its row and its rescaled
/// elevation: the reshaped elevation, the temperature and the brightness of
/// the display colour.
#[derive(Clone, Copy, PartialEq, Eq, Structural, Debug)]
pub struct Relief {
    pub elevation: Scalar,
    pub temperature: Scalar,
    pub shade: Scalar,
}

/// A grid of cells in row-major order, each with elevation, precipitation
/// and temperature in the unit interval, a biome tag and a display colour,
/// beside the raw noise the climate was derived from.
pub struct TerrainMap {
    pub tiles: Vec<Biome>,
    pub elevation: Vec<Scalar>,
    pub precipitation: Vec<Scalar>,
    pub temperature: Vec<Scalar>,
    pub biome: Vec<Biome>,
    pub hsv: Vec<Hsv>,
    pub raw_elevation: Vec<Scalar>,
    pub raw_precipitation: Vec<Scalar>,
    pub width: i32,
    pub height: i32,
    pub size: usize,
}

/// `v` brought into `0..n`.
pub open spec fn clamp_index(v: int, n: int) -> int {
    if v < 0 {
        0
    } else if v >= n {
        n - 1
    } else {
        v
    }
}

/// Whether the stored climate and colour of one cell are what generation
/// gives for its raw samples: the precipitation is the rescaled sample; the
/// elevation, the temperature and the colour come from what `shape` gives
/// for the cell's row and its rescaled elevation, the first two brought into
/// the unit interval.
pub open spec fn cell_shaped<D: Fn(Scalar, Scalar, Scalar) -> Scalar, K: Fn(i32, i32, Scalar) -> Relief>(
    elevation: Scalar,
    precipitation: Scalar,
    temperature: Scalar,
    color: Hsv,
    raw_elevation: Scalar,
    raw_precipitation: Scalar,
    elevation_range: Option<(Scalar, Scalar)>,
    precipitation_range: Option<(Scalar, Scalar)>,
    row: i32,
    height: i32,
    divide: D,
    shape: K,
) -> bool {
    &&& rescaled(precipitation, raw_precipitation, precipitation_range, divide)
    &&& exists|level: Scalar, relief: Relief|
        rescaled(level, raw_elevation, elevation_range, divide)
            && #[trigger] shape.ensures((row, height, level), relief) && elevation
            == relief.elevation.spec_clamp_unit(Scalar { bits: HALF_BITS }) && temperature
            == relief.temperature.spec_clamp_unit(Scalar { bits: HALF_BITS }) && color
            == band_color(level, relief.shade)
}

impl TerrainMap {
    /// The dimensions are positive, `size` is their product, and every array
    /// has one entry for each cell.
    pub open spec fn wf(&self) -> bool {
        &&& self.width > 0
        &&& self.height > 0
        &&& self.size == self.width * self.height
        &&& self.tiles@.len() == self.size
        &&& self.elevation@.len() == self.size
        &&& self.precipitation@.len() == self.size
        &&& self.temperature@.len() == self.size
        &&& self.biome@.len() == self.size
        &&& self.hsv@.len() == self.size
        &&& self.raw_elevation@.len() == self.size
        &&& self.raw_precipitation@.len() == self.size
    }

    /// The state of a grid that has not been generated: every climate value
    /// and raw sample `0.0`, every tag water, every colour a full red.
    pub open spec fn blank(&self) -> bool {
        &&& forall|i: int| 0 <= i < self.size ==> (#[trigger] self.elevation@[i]).bits == ZERO_BITS
        &&& forall|i: int|
            0 <= i < self.size ==> (#[trigger] self.precipitation@[i]).bits == ZERO_BITS
        &&& forall|i: int|
            0 <= i < self.size ==> (#[trigger] self.temperature@[i]).bits == ZERO_BITS
        &&& forall|i: int|
            0 <= i < self.size ==> (#[trigger] self.raw_elevation@[i]).bits == ZERO_BITS
        &&& forall|i: int|
            0 <= i < self.size ==> (#[trigger] self.raw_precipitation@[i]).bits == ZERO_BITS
        &&& forall|i: int| 0 <= i < self.size ==> #[trigger] self.tiles@[i] == Biome::Water
        &&& forall|i: int| 0 <= i < self.size ==> #[trigger] self.biome@[i] == Biome::Water
        &&& forall|i: int|
            0 <= i < self.size ==> #[trigger] self.hsv@[i] == Hsv::of_bits(0, FULL_BITS, FULL_BITS)
    }

    /// The flat index of the cell in column `x` of row `y`, after bringing
    /// both into the grid.
    pub open spec fn spec_idx(&self, x: i32, y: i32) -> int {
        clamp_index(y as int, self.height as int) * self.width + clamp_index(
            x as int,
            self.width as int,
        )
    }

    /// The column and the row of the cell with flat index `idx`, after
    /// bringing the index into the grid.
    pub open spec fn spec_coord(&self, idx: usize) -> (i32, i32) {
        let i = clamp_index(idx as int, self.size as int);
        ((i % (self.width as int)) as i32, (i / (self.width as int)) as i32)
    }

    /// The elevation field of a grid seeded with `seed`: fractal Brownian
    /// motion of four octaves, gain `0.4`, lacunarity `2.5`, frequency `0.03`.
    pub open spec fn spec_elevation_noise(seed: u64) -> NoiseField {
        NoiseField {
            seed,
            fractal: Fractal::Fbm,
            octaves: 4,
            gain: Scalar { bits: 0x3ecc_cccd },
            lacunarity: Scalar { bits: 0x4020_0000 },
            frequency: Scalar { bits: 0x3cf5_c28f },
            interpolation: Interpolation::Quintic,
        }
    }

    /// The precipitation field of a grid seeded with `seed`: billow of five
    /// octaves, gain `0.3`, lacunarity `1.0`, frequency `0.008`.
    pub open spec fn spec_precipitation_noise(seed: u64) -> NoiseField {
        NoiseField {
            seed,
            fractal: Fractal::Billow,
            octaves: 5,
            gain: Scalar { bits: 0x3e99_999a },
            lacunarity: Scalar { bits: 0x3f80_0000 },
            frequency: Scalar { bits: 0x3c03_126f },
            interpolation: Interpolation::Quintic,
        }
    }

    /// Whether `raw` holds, cell by cell in row-major order, a value that
    /// `sample` gives for `field` at the point whose coordinates are that
    /// cell's column and row.
    pub open spec fn sampled<S: Fn(NoiseField, Scalar, Scalar) -> Scalar>(
        &self,
        raw: Seq<Scalar>,
        field: NoiseField,
        sample: S,
    ) -> bool {
        &&& raw.len() == self.size
        &&& forall|i: int|
            0 <= i < self.size ==> sample.ensures(
                (
                    field,
                    Scalar::spec_from_u32(self.spec_coord(i as usize).0 as u32),
                    Scalar::spec_from_u32(self.spec_coord(i as usize).1 as u32),
                ),
                #[trigger] raw[i],
            )
    }

    /// Whether the grid is the outcome of a generation from `seed` with the
    /// given sampler and arithmetic.
    pub open spec fn generated<
        S: Fn(NoiseField, Scalar, Scalar) -> Scalar,
        D: Fn(Scalar, Scalar, Scalar) -> Scalar,
        K: Fn(i32, i32, Scalar) -> Relief,
    >(&self, seed: u64, sample: S, divide: D, shape: K) -> bool {
        &&& self.wf()
        &&& self.sampled(self.raw_elevation@, TerrainMap::spec_elevation_noise(seed), sample)
        &&& self.sampled(self.raw_precipitation@, TerrainMap::spec_precipitation_noise(seed), sample)
        &&& forall|i: int| 0 <= i < self.size ==> #[trigger] self.cell_generated(i, divide, shape)
    }

    /// Whether cell `i` holds what generation gives for its raw samples and
    /// the observed ranges of the two raw fields.
    pub open spec fn cell_generated<
        D: Fn(Scalar, Scalar, Scalar) -> Scalar,
        K: Fn(i32, i32, Scalar) -> Relief,
    >(&self, i: int, divide: D, shape: K) -> bool {
        cell_shaped(
            self.elevation@[i],
            self.precipitation@[i],
            self.temperature@[i],
            self.hsv@[i],
            self.raw_elevation@[i],
            self.raw_precipitation@[i],
            observed_range(self.raw_elevation@),
            observed_range(self.raw_precipitation@),
            self.spec_coord(i as usize).1,
            self.height,
            divide,
            shape,
        )
    }

    /// Whether the grid is well formed. Callers that fill the public fields
    /// themselves can test it before they call a method that relies on it.
    pub fn is_well_formed(&self) -> (ok: bool)
        ensures
            ok == self.wf(),
    {
        if self.width <= 0 || self.height <= 0 {
            return false;
        }
        proof {
            assert(0 < self.width * self.height <= 0x7fff_ffff * 0x7fff_ffff) by (nonlinear_arith)
                requires
                    0 < self.width <= 0x7fff_ffff,
                    0 < self.height <= 0x7fff_ffff,
            ;
        }
        let cells: u64 = (self.width as u64) * (self.height as u64);
        self.size as u64 == cells && self.tiles.len() == self.size && self.elevation.len()
            == self.size && self.precipitation.len() == self.size && self.temperature.len()
            == self.size && self.biome.len() == self.size && self.hsv.len() == self.size
            && self.raw_elevation.len() == self.size && self.raw_precipitation.len() == self.size
    }

    /// The flat index of the cell at `(x, y)`. A coordinate outside the grid
    /// is brought to the nearest cell inside it.
    #[verifier::when_used_as_spec(spec_idx_usize)]
    pub fn idx(&self, x: i32, y: i32) -> (r: usize)
        requires
            self.wf(),
        ensures
            r == self.spec_idx(x, y),
            r < self.size,
            0 <= x < self.width && 0 <= y < self.height ==> r == y * self.width + x,
    {
        let cx: i32 = if x < 0 {
            0
        } else if x >= self.width {
            self.width - 1
        } else {
            x
        };
        let cy: i32 = if y < 0 {
            0
        } else if y >= self.height {
            self.height - 1
        } else {
            y
        };
        proof {
            assert(cy * self.width + cx < self.width * self.height) by (nonlinear_arith)
                requires
                    0 <= cy <= self.height - 1,
                    0 <= cx < self.width,
            ;
            assert(0 <= cy * self.width) by (nonlinear_arith)
                requires
                    0 <= cy,
                    0 < self.width,
            ;
        }
        (cy as usize) * (self.width as usize) + (cx as usize)
    }

    /// [`TerrainMap::spec_idx`] as a `usize`.
    pub open spec fn spec_idx_usize(&self, x: i32, y: i32) -> usize {
        self.spec_idx(x, y) as usize
    }

    /// The column and row of the cell with flat index `idx`. An index past
    /// the last cell is brought to the last cell.
    #[verifier::when_used_as_spec(spec_coord)]
    pub fn coord(&self, idx: usize) -> (r: (i32, i32))
        requires
            self.wf(),
        ensures
            r == self.spec_coord(idx),
            0 <= r.0 < self.width,
            0 <= r.1 < self.height,
            idx < self.size ==> r.1 * self.width + r.0 == idx,
    {
        proof {
            assert(self.width * self.height > 0) by (nonlinear_arith)
                requires
                    self.width > 0,
                    self.height > 0,
            ;
        }
        let i: usize = if idx >= self.size {
            self.size - 1
        } else {
            idx
        };
        let w: usize = self.width as usize;
        proof {
            lemma_multiply_divide_lt(i as int, w as int, self.height as int);
            vstd::arithmetic::div_mod::lemma_fundamental_div_mod(i as int, w as int);
            assert(0 <= i as int / w as int) by (nonlinear_arith)
                requires
                    0 <= i,
                    0 < w,
            ;
            assert((i as int / w as int) * w == w * (i as int / w as int)) by (nonlinear_arith);
        }
        ((i % w) as i32, (i / w) as i32)
    }

    /// The biome of a cell of elevation `e`, precipitation `m` and
    /// temperature `t`, at the standard sea level.
    pub fn biome(e: Scalar, m: Scalar, t: Scalar) -> (r: Biome)
        ensures
            r == classify(e, m, t),
    {
        biome_with_sea_level(Scalar::from_bits(SEA_LEVEL_BITS), e, m, t)
    }

    /// The elevation field of a grid seeded with `seed`.
    #[verifier::when_used_as_spec(spec_elevation_noise)]
    pub fn elevation_noise(seed: u64) -> (r: NoiseField)
        ensures
            r == TerrainMap::spec_elevation_noise(seed),
            r.valid(),
    {
        NoiseField {
            seed,
            fractal: Fractal::Fbm,
            octaves: 4,
            gain: Scalar::from_bits(0x3ecc_cccd),
            lacunarity: Scalar::from_bits(0x4020_0000),
            frequency: Scalar::from_bits(0x3cf5_c28f),
            interpolation: Interpolation::Quintic,
        }
    }

    /// The precipitation field of a grid seeded with `seed`.
    #[verifier::when_used_as_spec(spec_precipitation_noise)]
    pub fn precipitation_noise(seed: u64) -> (r: NoiseField)
        ensures
            r == TerrainMap::spec_precipitation_noise(seed),
            r.valid(),
    {
        NoiseField {
            seed,
            fractal: Fractal::Billow,
            octaves: 5,
            gain: Scalar::from_bits(0x3e99_999a),
            lacunarity: Scalar::from_bits(0x3f80_0000),
            frequency: Scalar::from_bits(0x3c03_126f),
            interpolation: Interpolation::Quintic,
        }
    }

    /// Samples `field` once at every cell, in row-major order.
    pub fn sample_field<S: Fn(NoiseField, Scalar, Scalar) -> Scalar>(
        &self,
        field: NoiseField,
        sample: &S,
    ) -> (raw: Vec<Scalar>)
        requires
            self.wf(),
            forall|x: u32, y: u32|
                x < self.width && y < self.height ==> sample.requires(
                    (field, Scalar::spec_from_u32(x), Scalar::spec_from_u32(y)),
                ),
        ensures
            self.sampled(raw@, field, *sample),
    {
        let mut raw: Vec<Scalar> = Vec::new();
        let mut i: usize = 0;
        while i < self.size
            invariant
                self.wf(),
                i <= self.size,
                raw@.len() == i,
                forall|x: u32, y: u32|
                    x < self.width && y < self.height ==> sample.requires(
                        (field, Scalar::spec_from_u32(x), Scalar::spec_from_u32(y)),
                    ),
                forall|j: int|
                    0 <= j < i ==> sample.ensures(
                        (
                            field,
                            Scalar::spec_from_u32(self.spec_coord(j as usize).0 as u32),
                            Scalar::spec_from_u32(self.spec_coord(j as usize).1 as u32),
                        ),
                        #[trigger] raw@[j],
                    ),
            decreases self.size - i,
        {
            let at: (i32, i32) = self.coord(i);
            let x: Scalar = Scalar::from_u32(at.0 as u32);
            let y: Scalar = Scalar::from_u32(at.1 as u32);
            let v: Scalar = sample(field, x, y);
            raw.push(v);
            i = i + 1;
        }
        raw
    }

    /// Regenerates the whole grid from `seed`.
    ///
    /// Both noise fields are sampled at every cell through `sample`, and the
    /// range of each is observed. Every sample is then rescaled to the unit
    /// interval (see [`rescale`]); the rescaled precipitation is stored as it
    /// is, and `shape` gives the stored elevation, the temperature and the
    /// brightness of the colour from the row and the rescaled elevation.
    /// Stored elevation and temperature are brought into the unit interval, a
    /// NaN counting as `0.5`. Tags are left as they were.
    pub fn generate<
        S: Fn(NoiseField, Scalar, Scalar) -> Scalar,
        D: Fn(Scalar, Scalar, Scalar) -> Scalar,
        K: Fn(i32, i32, Scalar) -> Relief,
    >(&mut self, seed: u64, sample: &S, divide: &D, shape: &K)
        requires
            old(self).wf(),
            forall|x: u32, y: u32|
                x < old(self).width && y < old(self).height ==> sample.requires(
                    (
                        TerrainMap::spec_elevation_noise(seed),
                        Scalar::spec_from_u32(x),
                        Scalar::spec_from_u32(y),
                    ),
                ) && sample.requires(
                    (
                        TerrainMap::spec_precipitation_noise(seed),
                        Scalar::spec_from_u32(x),
                        Scalar::spec_from_u32(y),
                    ),
                ),
            forall|raw: Scalar, lo: Scalar, hi: Scalar| divide.requires((raw, lo, hi)),
            forall|row: i32, level: Scalar|
                0 <= row < old(self).height && level.in_unit() ==> shape.requires(
                    (row, old(self).height, level),
                ),
        ensures
            final(self).generated(seed, *sample, *divide, *shape),
            final(self).width == old(self).width,
            final(self).height == old(self).height,
            final(self).size == old(self).size,
            final(self).tiles@ == old(self).tiles@,
            final(self).biome@ == old(self).biome@,
            forall|i: int|
                0 <= i < final(self).size ==> (#[trigger] final(self).elevation@[i]).in_unit(),
            forall|i: int|
                0 <= i < final(self).size ==> (#[trigger] final(self).precipitation@[i]).in_unit(),
            forall|i: int|
                0 <= i < final(self).size ==> (#[trigger] final(self).temperature@[i]).in_unit(),
    {
        let raw_e: Vec<Scalar> = self.sample_field(TerrainMap::elevation_noise(seed), sample);
        let raw_p: Vec<Scalar> = self.sample_field(TerrainMap::precipitation_noise(seed), sample);
        let range_e: Option<(Scalar, Scalar)> = range_of(&raw_e);
        let range_p: Option<(Scalar, Scalar)> = range_of(&raw_p);
        let mut i: usize = 0;
        while i < self.size
            invariant
                self.wf(),
                i <= self.size,
                self.width == old(self).width,
                self.height == old(self).height,
                self.size == old(self).size,
                self.tiles@ == old(self).tiles@,
                self.biome@ == old(self).biome@,
                raw_e@.len() == self.size,
                raw_p@.len() == self.size,
                range_e == observed_range(raw_e@),
                range_p == observed_range(raw_p@),
                forall|raw: Scalar, lo: Scalar, hi: Scalar| divide.requires((raw, lo, hi)),
                forall|row: i32, level: Scalar|
                    0 <= row < self.height && level.in_unit() ==> shape.requires(
                        (row, self.height, level),
                    ),
                forall|j: int|
                    0 <= j < i ==> cell_shaped(
                        #[trigger] self.elevation@[j],
                        self.precipitation@[j],
                        self.temperature@[j],
                        self.hsv@[j],
                        raw_e@[j],
                        raw_p@[j],
                        range_e,
                        range_p,
                        self.spec_coord(j as usize).1,
                        self.height,
                        *divide,
                        *shape,
                    ),
                forall|j: int| 0 <= j < i ==> (#[trigger] self.elevation@[j]).in_unit(),
                forall|j: int| 0 <= j < i ==> (#[trigger] self.precipitation@[j]).in_unit(),
                forall|j: int| 0 <= j < i ==> (#[trigger] self.temperature@[j]).in_unit(),
            decreases self.size - i,
        {
            let at: (i32, i32) = self.coord(i);
            let level: Scalar = rescale(raw_e[i], range_e, divide);
            let wet: Scalar = rescale(raw_p[i], range_p, divide);
            let relief: Relief = shape(at.1, self.height, level);
            let high: Scalar = relief.elevation.clamp_unit(Scalar::half());
            let warm: Scalar = relief.temperature.clamp_unit(Scalar::half());
            let color: Hsv = hsv(level, relief.shade);
            self.elevation.set(i, high);
            self.precipitation.set(i, wet);
            self.temperature.set(i, warm);
            self.hsv.set(i, color);
            proof {
                assert(cell_shaped(
                    high,
                    wet,
                    warm,
                    color,
                    raw_e@[i as int],
                    raw_p@[i as int],
                    range_e,
                    range_p,
                    at.1,
                    self.height,
                    *divide,
                    *shape,
                ));
            }
            i = i + 1;
        }
        self.raw_elevation = raw_e;
        self.raw_precipitation = raw_p;
    }

    /// A blank grid of `width` by `height` cells, or nothing where a
    /// dimension is not positive or the cell count does not fit a `usize`.
    pub fn with_size(width: i32, height: i32) -> (r: Option<TerrainMap>)
        ensures
            r is Some <==> width > 0 && height > 0 && width * height <= usize::MAX,
            r is Some ==> {
                &&& r->Some_0.wf()
                &&& r->Some_0.blank()
                &&& r->Some_0.width == width
                &&& r->Some_0.height == height
            },
    {
        if width <= 0 || height <= 0 {
            return None;
        }
        proof {
            assert(0 < width * height <= 0x7fff_ffff * 0x7fff_ffff) by (nonlinear_arith)
                requires
                    0 < width <= 0x7fff_ffff,
                    0 < height <= 0x7fff_ffff,
            ;
        }
        let cells: u64 = (width as u64) * (height as u64);
        if cells > usize::MAX as u64 {
            return None;
        }
        Some(TerrainMap::blank_of(width, height, cells as usize))
    }

    fn blank_of(width: i32, height: i32, size: usize) -> (r: TerrainMap)
        requires
            width > 0,
            height > 0,
            size == width * height,
        ensures
            r.wf(),
            r.blank(),
            r.width == width,
            r.height == height,
    {
        let zero: Scalar = Scalar::zero();
        TerrainMap {
            tiles: filled(Biome::Water, size),
            elevation: filled(zero, size),
            precipitation: filled(zero, size),
            temperature: filled(zero, size),
            biome: filled(Biome::Water, size),
            hsv: filled(Hsv::from_bits(0, FULL_BITS, FULL_BITS), size),
            raw_elevation: filled(zero, size),
            raw_precipitation: filled(zero, size),
            width,
            height,
            size,
        }
    }

    /// A blank grid of the standard dimensions.
    pub fn new() -> (r: TerrainMap)
        ensures
            r.wf(),
            r.blank(),
            r.width == WIDTH,
            r.height == HEIGHT,
    {
        TerrainMap::blank_of(WIDTH as i32, HEIGHT as i32, (WIDTH * HEIGHT) as usize)
    }
}

/// A sampler is single-valued when no field and cell have two samples.
pub open spec fn sampler_single_valued<S: Fn(NoiseField, Scalar, Scalar) -> Scalar>(sample: S) -> bool {
    forall|field: NoiseField, x: Scalar, y: Scalar, p: Scalar, q: Scalar|
        #![trigger sample.ensures((field, x, y), p), sample.ensures((field, x, y), q)]
        sample.ensures((field, x, y), p) && sample.ensures((field, x, y), q) ==> p == q
}

/// A rescaling arithmetic is single-valued when no sample and range have two
/// quotients.
pub open spec fn divider_single_valued<D: Fn(Scalar, Scalar, Scalar) -> Scalar>(divide: D) -> bool {
    forall|raw: Scalar, lo: Scalar, hi: Scalar, p: Scalar, q: Scalar|
        #![trigger divide.ensures((raw, lo, hi), p), divide.ensures((raw, lo, hi), q)]
        divide.ensures((raw, lo, hi), p) && divide.ensures((raw, lo, hi), q) ==> p == q
}

/// A shaping arithmetic is single-valued when no row and elevation have two
/// reliefs.
pub open spec fn shaper_single_valued<K: Fn(i32, i32, Scalar) -> Relief>(shape: K) -> bool {
    forall|row: i32, height: i32, level: Scalar, p: Relief, q: Relief|
        #![trigger shape.ensures((row, height, level), p), shape.ensures((row, height, level), q)]
        shape.ensures((row, height, level), p) && shape.ensures((row, height, level), q) ==> p
            == q
}

/// Generation is reproducible: two grids of the same dimensions, generated
/// from the same seed with the same single-valued sampler and arithmetic,
/// hold the same raw samples, the same climate and the same colours.
pub proof fn lemma_generate_deterministic<
    S: Fn(NoiseField, Scalar, Scalar) -> Scalar,
    D: Fn(Scalar, Scalar, Scalar) -> Scalar,
    K: Fn(i32, i32, Scalar) -> Relief,
>(a: &TerrainMap, b: &TerrainMap, seed: u64, sample: S, divide: D, shape: K)
    requires
        a.generated(seed, sample, divide, shape),
        b.generated(seed, sample, divide, shape),
        a.width == b.width,
        a.height == b.height,
        sampler_single_valued(sample),
        divider_single_valued(divide),
        shaper_single_valued(shape),
    ensures
        a.raw_elevation@ == b.raw_elevation@,
        a.raw_precipitation@ == b.raw_precipitation@,
        a.elevation@ == b.elevation@,
        a.precipitation@ == b.precipitation@,
        a.temperature@ == b.temperature@,
        a.hsv@ == b.hsv@,
{
    assert(a.size == b.size);
    assert forall|i: int| 0 <= i < a.size implies a.raw_elevation@[i] == b.raw_elevation@[i]
        && a.raw_precipitation@[i] == b.raw_precipitation@[i] by {
        assert(a.spec_coord(i as usize) == b.spec_coord(i as usize));
    }
    assert(a.raw_elevation@ =~= b.raw_elevation@);
    assert(a.raw_precipitation@ =~= b.raw_precipitation@);
    assert forall|i: int| 0 <= i < a.size implies a.elevation@[i] == b.elevation@[i]
        && a.precipitation@[i] == b.precipitation@[i] && a.temperature@[i] == b.temperature@[i]
        && a.hsv@[i] == b.hsv@[i] by {
        assert(a.spec_coord(i as usize) == b.spec_coord(i as usize));
        assert(a.cell_generated(i, divide, shape));
        assert(b.cell_generated(i, divide, shape));
    }
    assert(a.elevation@ =~= b.elevation@);
    assert(a.precipitation@ =~= b.precipitation@);
    assert(a.temperature@ =~= b.temperature@);
    assert(a.hsv@ =~= b.hsv@);
}

/// Whether `shape` keeps the ends of the unit interval: the elevation it
/// gives for a rescaled elevation of `0.0` has the value `0.0`, and the one
/// it gives for `1.0` has the value `1.0`.
pub open spec fn keeps_ends<K: Fn(i32, i32, Scalar) -> Relief>(shape: K) -> bool {
    &&& forall|row: i32, height: i32, relief: Relief| #[trigger]
        shape.ensures((row, height, Scalar { bits: ZERO_BITS }), relief)
            ==> relief.elevation.spec_same_value(Scalar { bits: ZERO_BITS })
    &&& forall|row: i32, height: i32, relief: Relief| #[trigger]
        shape.ensures((row, height, Scalar { bits: ONE_BITS }), relief)
            ==> relief.elevation.spec_same_value(Scalar { bits: ONE_BITS })
}

/// Whether cell `i` holds what `shape` gives for its row and a rescaled
/// elevation of `level`.
pub open spec fn shaped_from<K: Fn(i32, i32, Scalar) -> Relief>(
    map: &TerrainMap,
    i: int,
    level: Scalar,
    shape: K,
) -> bool {
    exists|relief: Relief| #[trigger]
        shape.ensures((map.spec_coord(i as usize).1, map.height, level), relief)
            && map.elevation@[i] == relief.elevation.spec_clamp_unit(Scalar { bits: HALF_BITS })
            && map.temperature@[i] == relief.temperature.spec_clamp_unit(
            Scalar { bits: HALF_BITS },
        ) && map.hsv@[i] == band_color(level, relief.shade)
}

/// Rescaling spans the unit interval: unless the observed range of the raw
/// precipitation is degenerate, some cell of a generated grid has a
/// precipitation of exactly `0.0` and some cell one of exactly `1.0`.
pub proof fn lemma_precipitation_spans<
    S: Fn(NoiseField, Scalar, Scalar) -> Scalar,
    D: Fn(Scalar, Scalar, Scalar) -> Scalar,
    K: Fn(i32, i32, Scalar) -> Relief,
>(map: &TerrainMap, seed: u64, sample: S, divide: D, shape: K)
    requires
        map.generated(seed, sample, divide, shape),
        !degenerate(observed_range(map.raw_precipitation@)),
    ensures
        exists|i: int|
            0 <= i < map.size && (#[trigger] map.precipitation@[i]).bits == ZERO_BITS,
        exists|j: int| 0 <= j < map.size && (#[trigger] map.precipitation@[j]).bits == ONE_BITS,
{
    let raw = map.raw_precipitation@;
    lemma_observed_range(raw);
    let (lo, hi) = observed_range(raw)->Some_0;
    let i = choose|i: int| 0 <= i < raw.len() && #[trigger] raw[i] == lo;
    let j = choose|j: int| 0 <= j < raw.len() && #[trigger] raw[j] == hi;
    assert(map.cell_generated(i, divide, shape));
    assert(map.cell_generated(j, divide, shape));
    assert(map.precipitation@[i].bits == ZERO_BITS);
    assert(map.precipitation@[j].bits == ONE_BITS);
}

/// Before shaping, the elevation spans the unit interval too: unless the
/// observed range of the raw elevation is degenerate, some cell of a
/// generated grid is shaped from a rescaled elevation of exactly `0.0` and
/// some cell from one of exactly `1.0`.
pub proof fn lemma_elevation_level_spans<
    S: Fn(NoiseField, Scalar, Scalar) -> Scalar,
    D: Fn(Scalar, Scalar, Scalar) -> Scalar,
    K: Fn(i32, i32, Scalar) -> Relief,
>(map: &TerrainMap, seed: u64, sample: S, divide: D, shape: K)
    requires
        map.generated(seed, sample, divide, shape),
        !degenerate(observed_range(map.raw_elevation@)),
    ensures
        exists|i: int|
            0 <= i < map.size && #[trigger] shaped_from(map, i, Scalar { bits: ZERO_BITS }, shape),
        exists|j: int|
            0 <= j < map.size && #[trigger] shaped_from(map, j, Scalar { bits: ONE_BITS }, shape),
{
    let raw = map.raw_elevation@;
    lemma_observed_range(raw);
    let (lo, hi) = observed_range(raw)->Some_0;
    let i = choose|i: int| 0 <= i < raw.len() && #[trigger] raw[i] == lo;
    let j = choose|j: int| 0 <= j < raw.len() && #[trigger] raw[j] == hi;
    assert(map.cell_generated(i, divide, shape));
    assert(map.cell_generated(j, divide, shape));
    assert(shaped_from(map, i, Scalar { bits: ZERO_BITS }, shape));
    assert(shaped_from(map, j, Scalar { bits: ONE_BITS }, shape));
}

/// The stored elevation spans the unit interval where shaping keeps its
/// ends: unless the observed range of the raw elevation is degenerate, some
/// cell of a generated grid has an elevation of the value `0.0` and some cell
/// one of the value `1.0`.
pub proof fn lemma_elevation_spans<
    S: Fn(NoiseField, Scalar, Scalar) -> Scalar,
    D: Fn(Scalar, Scalar, Scalar) -> Scalar,
    K: Fn(i32, i32, Scalar) -> Relief,
>(map: &TerrainMap, seed: u64, sample: S, divide: D, shape: K)
    requires
        map.generated(seed, sample, divide, shape),
        !degenerate(observed_range(map.raw_elevation@)),
        keeps_ends(shape),
    ensures
        exists|i: int|
            0 <= i < map.size && (#[trigger] map.elevation@[i]).spec_same_value(
                Scalar { bits: ZERO_BITS },
            ),
        exists|j: int|
            0 <= j < map.size && (#[trigger] map.elevation@[j]).spec_same_value(
                Scalar { bits: ONE_BITS },
            ),
{
    lemma_elevation_level_spans(map, seed, sample, divide, shape);
    let i = choose|i: int|
        0 <= i < map.size && #[trigger] shaped_from(map, i, Scalar { bits: ZERO_BITS }, shape);
    let j = choose|j: int|
        0 <= j < map.size && #[trigger] shaped_from(map, j, Scalar { bits: ONE_BITS }, shape);
    assert(map.elevation@[i].spec_same_value(Scalar { bits: ZERO_BITS }));
    assert(map.elevation@[j].spec_same_value(Scalar { bits: ONE_BITS }));
}

/// A degenerate field is the midpoint everywhere: where the observed range
/// of the raw precipitation is degenerate, every cell of a generated grid
/// has a precipitation of exactly `0.5`; and where that of the raw elevation
/// is, every cell is shaped from a rescaled elevation of exactly `0.5`.
pub proof fn lemma_degenerate_is_midpoint<
    S: Fn(NoiseField, Scalar, Scalar) -> Scalar,
    D: Fn(Scalar, Scalar, Scalar) -> Scalar,
    K: Fn(i32, i32, Scalar) -> Relief,
>(map: &TerrainMap, seed: u64, sample: S, divide: D, shape: K)
    requires
        map.generated(seed, sample, divide, shape),
    ensures
        degenerate(observed_range(map.raw_precipitation@)) ==> forall|i: int|
            0 <= i < map.size ==> (#[trigger] map.precipitation@[i]).bits == HALF_BITS,
        degenerate(observed_range(map.raw_elevation@)) ==> forall|i: int|
            0 <= i < map.size ==> #[trigger] shaped_from(
                map,
                i,
                Scalar { bits: HALF_BITS },
                shape,
            ),
{
    if degenerate(observed_range(map.raw_precipitation@)) {
        assert forall|i: int| 0 <= i < map.size implies (#[trigger] map.precipitation@[i]).bits
            == HALF_BITS by {
            assert(map.cell_generated(i, divide, shape));
        }
    }
    if degenerate(observed_range(map.raw_elevation@)) {
        assert forall|i: int| 0 <= i < map.size implies #[trigger] shaped_from(
            map,
            i,
            Scalar { bits: HALF_BITS },
            shape,
        ) by {
            assert(map.cell_generated(i, divide, shape));
        }
    }
}

} // verus!
