//! What is on display: the world, the view onto it and whether the view has
//! to be drawn again.

use vstd::prelude::*;
use crate::color::Hsv;
use crate::color_lut::ColorLUT;
use crate::noise::NoiseField;
use crate::scalar::Scalar;
use crate::world::{World, SEA_LEVEL};

verus! {

/// Which field of the world the display shows.
#[derive(Clone, Copy, PartialEq, Eq, Structural, Debug)]
pub enum WorldViewMode {
    Biome,
    Flat,
    Precipitation,
    Elevation,
    Temperature,
}

/// The keys the display reacts to; every other key is `Other`.
#[derive(Clone, Copy, PartialEq, Eq, Structural, Debug)]
pub enum Key {
    T,
    E,
    P,
    B,
    F,
    R,
    Other,
}

/// The world, the view onto it, the colour table of the biome view and the
/// flag that asks for a redraw.
pub struct State {
    pub world: World,
    pub world_view_mode: WorldViewMode,
    pub biome_lut: ColorLUT,
    pub is_dirty: bool,
}

/// The bits of `0.55`, the hue of open water.
pub const WATER_HUE_BITS: u32 = 0x3f0c_cccd;

/// The bits of `0.5`.
pub const MID_BITS: u32 = 0x3f00_0000;

/// The bits of `0.601`, the hue of the precipitation view.
pub const PRECIPITATION_HUE_BITS: u32 = 0x3f19_db23;

/// The bits of `0.111`, the hue of the temperature view.
pub const TEMPERATURE_HUE_BITS: u32 = 0x3de3_53f8;

/// The view after `key` was pressed in the view `mode`: a view key selects
/// its view, and every other key, or none, leaves the view as it is.
pub open spec fn next_mode(mode: WorldViewMode, key: Option<Key>) -> WorldViewMode {
    match key {
        Some(Key::T) => WorldViewMode::Temperature,
        Some(Key::E) => WorldViewMode::Elevation,
        Some(Key::P) => WorldViewMode::Precipitation,
        Some(Key::B) => WorldViewMode::Biome,
        Some(Key::F) => WorldViewMode::Flat,
        _ => mode,
    }
}

/// Whether `key` asks for a redraw: every key but `Other` does.
pub open spec fn asks_redraw(key: Option<Key>) -> bool {
    key is Some && key != Some(Key::Other)
}

/// The seed that follows `seed`; after the greatest comes zero.
pub open spec fn spec_next_seed(seed: u32) -> u32 {
    if seed == u32::MAX {
        0
    } else {
        (seed + 1) as u32
    }
}

/// The seed that follows `seed`; after the greatest comes zero.
#[verifier::when_used_as_spec(spec_next_seed)]
pub fn next_seed(seed: u32) -> (r: u32)
    ensures
        r == spec_next_seed(seed),
{
    if seed == u32::MAX {
        0
    } else {
        seed + 1
    }
}

/// Whether a cell of elevation `e` takes its colour from the table in the
/// view `mode`: in the biome view and the flat view, above the sea level.
pub open spec fn uses_table(mode: WorldViewMode, e: Scalar) -> bool {
    (mode == WorldViewMode::Biome || mode == WorldViewMode::Flat) && e.spec_gt(
        Scalar { bits: SEA_LEVEL },
    )
}

/// The colour of open water: hue `0.55`, saturation and value `0.5`.
pub open spec fn water() -> Hsv {
    Hsv::of_bits(WATER_HUE_BITS, MID_BITS, MID_BITS)
}

/// Whether `c` is the colour of the land or the water of a cell: above the
/// sea level the colour that the table gives for temperature and
/// precipitation, else the colour of open water.
pub open spec fn is_ground_color<M: Fn(Scalar, u32) -> Scalar>(
    c: Hsv,
    e: Scalar,
    p: Scalar,
    t: Scalar,
    lut: &ColorLUT,
    scale: M,
) -> bool {
    if e.spec_gt(Scalar { bits: SEA_LEVEL }) {
        lut.looked_up(c, t, p, scale)
    } else {
        c == water()
    }
}

/// Whether `r` is the colour of a cell of elevation `e`, precipitation `p`
/// and temperature `t` in the view `mode`:
/// - the elevation view is a red whose value is the elevation;
/// - the precipitation view is a blue whose value is the precipitation;
/// - the temperature view is an orange whose saturation and value are the
///   temperature;
/// - the flat view is the ground colour;
/// - the biome view is the ground colour with its value replaced by what
///   `blend` gives for that value and the elevation.
pub open spec fn is_tile_color<M: Fn(Scalar, u32) -> Scalar, B: Fn(Scalar, Scalar) -> Scalar>(
    r: Hsv,
    mode: WorldViewMode,
    e: Scalar,
    p: Scalar,
    t: Scalar,
    lut: &ColorLUT,
    scale: M,
    blend: B,
) -> bool {
    match mode {
        WorldViewMode::Elevation => r == (Hsv {
            h: Scalar { bits: 0 },
            s: Scalar { bits: MID_BITS },
            v: e,
        }),
        WorldViewMode::Precipitation => r == (Hsv {
            h: Scalar { bits: PRECIPITATION_HUE_BITS },
            s: Scalar { bits: MID_BITS },
            v: p,
        }),
        WorldViewMode::Temperature => r == (Hsv {
            h: Scalar { bits: TEMPERATURE_HUE_BITS },
            s: t,
            v: t,
        }),
        WorldViewMode::Flat => is_ground_color(r, e, p, t, lut, scale),
        WorldViewMode::Biome => exists|c: Hsv, v: Scalar|
            #![trigger is_ground_color(c, e, p, t, lut, scale), blend.ensures((c.v, e), v)]
            is_ground_color(c, e, p, t, lut, scale) && blend.ensures((c.v, e), v) && r
                == (Hsv {
                h: c.h,
                s: c.s,
                v,
            }),
    }
}

impl State {
    /// The world and the colour table are both well formed.
    pub open spec fn wf(&self) -> bool {
        self.world.wf() && self.biome_lut.wf()
    }

    /// Whether the state is well formed.
    pub fn is_well_formed(&self) -> (ok: bool)
        ensures
            ok == self.wf(),
    {
        self.world.is_well_formed() && self.biome_lut.is_well_formed()
    }

    /// The state at start-up: a blank world of standard dimensions, the
    /// biome view, and a redraw pending.
    pub fn new(biome_lut: ColorLUT) -> (r: State)
        ensures
            r.world.wf(),
            biome_lut.wf() ==> r.wf(),
            r.world.blank(),
            r.world.seed == 0,
            r.world_view_mode == WorldViewMode::Biome,
            r.biome_lut == biome_lut,
            r.is_dirty,
    {
        State {
            world: World::new(),
            world_view_mode: WorldViewMode::Biome,
            biome_lut,
            is_dirty: true,
        }
    }

    /// Reacts to a key. A view key selects its view; `R` takes the next seed
    /// and regenerates the world; each of them asks for a redraw. Any other
    /// key, or none, changes nothing.
    pub fn handle_input<
        S: Fn(NoiseField, Scalar, Scalar) -> Scalar,
        U: Fn(Scalar) -> Scalar,
        W: Fn(Scalar) -> Scalar,
        T: Fn(Scalar, u32, Scalar) -> Scalar,
    >(&mut self, key: Option<Key>, sample: &S, unit: &U, wet: &W, warm: &T)
        requires
            old(self).world.wf(),
            key == Some(Key::R) ==> {
                &&& forall|x: u32, y: u32|
                    x < old(self).world.width && y < old(self).world.height ==> sample.requires(
                        (
                            World::spec_elevation_noise(next_seed(old(self).world.seed)),
                            Scalar::spec_from_u32(x),
                            Scalar::spec_from_u32(y),
                        ),
                    ) && sample.requires(
                        (
                            World::spec_precipitation_noise(next_seed(old(self).world.seed)),
                            Scalar::spec_from_u32(x),
                            Scalar::spec_from_u32(y),
                        ),
                    )
                &&& forall|noise: Scalar| unit.requires((noise,))
                &&& forall|level: Scalar| level.in_unit() ==> wet.requires((level,))
                &&& forall|y: u32, level: Scalar|
                    y < old(self).world.height && level.in_unit() ==> warm.requires(
                        (Scalar::spec_from_u32(y), old(self).world.height, level),
                    )
            },
        ensures
            final(self).world.wf(),
            final(self).world_view_mode == next_mode(old(self).world_view_mode, key),
            final(self).is_dirty == (old(self).is_dirty || asks_redraw(key)),
            final(self).biome_lut == old(self).biome_lut,
            key == Some(Key::R) ==> {
                &&& final(self).world.seed == next_seed(old(self).world.seed)
                &&& final(self).world.generated(*sample, *unit, *wet, *warm)
                &&& final(self).world.bounded()
                &&& final(self).world.width == old(self).world.width
                &&& final(self).world.height == old(self).world.height
                &&& final(self).world.chunk_size == old(self).world.chunk_size
            },
            key != Some(Key::R) ==> final(self).world == old(self).world,
    {
        match key {
            None => {},
            Some(Key::T) => {
                self.is_dirty = true;
                self.world_view_mode = WorldViewMode::Temperature;
            },
            Some(Key::E) => {
                self.is_dirty = true;
                self.world_view_mode = WorldViewMode::Elevation;
            },
            Some(Key::P) => {
                self.is_dirty = true;
                self.world_view_mode = WorldViewMode::Precipitation;
            },
            Some(Key::B) => {
                self.is_dirty = true;
                self.world_view_mode = WorldViewMode::Biome;
            },
            Some(Key::F) => {
                self.is_dirty = true;
                self.world_view_mode = WorldViewMode::Flat;
            },
            Some(Key::R) => {
                self.is_dirty = true;
                let seed: u32 = next_seed(self.world.seed);
                self.world.set_seed(seed, sample, unit, wet, warm);
            },
            Some(Key::Other) => {},
        }
    }

    /// The colour in which cell `i` is drawn in the current view.
    pub fn tile_color<M: Fn(Scalar, u32) -> Scalar, B: Fn(Scalar, Scalar) -> Scalar>(
        &self,
        i: usize,
        scale: &M,
        blend: &B,
    ) -> (r: Hsv)
        requires
            self.world.wf(),
            i < self.world.size,
            forall|v: Scalar, n: u32| scale.requires((v, n)),
            forall|a: Scalar, b: Scalar| blend.requires((a, b)),
        ensures
            is_tile_color(
                r,
                self.world_view_mode,
                self.world.elevation@[i as int],
                self.world.precipitation@[i as int],
                self.world.temperature@[i as int],
                &self.biome_lut,
                *scale,
                *blend,
            ),
    {
        let elevation: Scalar = self.world.elevation[i];
        let precipitation: Scalar = self.world.precipitation[i];
        let temperature: Scalar = self.world.temperature[i];
        match self.world_view_mode {
            WorldViewMode::Biome => {
                let c: Hsv = self.ground_color(elevation, precipitation, temperature, scale);
                let v: Scalar = blend(c.v, elevation);
                Hsv { h: c.h, s: c.s, v }
            },
            WorldViewMode::Flat => self.ground_color(elevation, precipitation, temperature, scale),
            WorldViewMode::Elevation => Hsv {
                h: Scalar::from_bits(0),
                s: Scalar::from_bits(MID_BITS),
                v: elevation,
            },
            WorldViewMode::Precipitation => Hsv {
                h: Scalar::from_bits(PRECIPITATION_HUE_BITS),
                s: Scalar::from_bits(MID_BITS),
                v: precipitation,
            },
            WorldViewMode::Temperature => Hsv {
                h: Scalar::from_bits(TEMPERATURE_HUE_BITS),
                s: temperature,
                v: temperature,
            },
        }
    }

    /// Whether drawing cell `i` in the current view asks the table for a
    /// colour and finds none, so that the cell is drawn in the fallback
    /// colour.
    pub fn table_miss<M: Fn(Scalar, u32) -> Scalar>(&self, i: usize, scale: &M) -> (r: bool)
        requires
            self.world.wf(),
            i < self.world.size,
            forall|v: Scalar, n: u32| scale.requires((v, n)),
        ensures
            !uses_table(self.world_view_mode, self.world.elevation@[i as int]) ==> !r,
            uses_table(self.world_view_mode, self.world.elevation@[i as int]) ==> exists|
                at: Option<(u32, u32)>,
            | #[trigger]
                self.biome_lut.located(
                    at,
                    self.world.temperature@[i as int],
                    self.world.precipitation@[i as int],
                    *scale,
                ) && r == (at is None),
    {
        let elevation: Scalar = self.world.elevation[i];
        let by_table: bool = match self.world_view_mode {
            WorldViewMode::Biome => true,
            WorldViewMode::Flat => true,
            _ => false,
        };
        if by_table && elevation.gt(Scalar::from_bits(SEA_LEVEL)) {
            let at: Option<(u32, u32)> = self.biome_lut.locate(
                self.world.temperature[i],
                self.world.precipitation[i],
                scale,
            );
            at.is_none()
        } else {
            false
        }
    }

    fn ground_color<M: Fn(Scalar, u32) -> Scalar>(
        &self,
        e: Scalar,
        p: Scalar,
        t: Scalar,
        scale: &M,
    ) -> (r: Hsv)
        requires
            forall|v: Scalar, n: u32| scale.requires((v, n)),
        ensures
            is_ground_color(r, e, p, t, &self.biome_lut, *scale),
    {
        if e.gt(Scalar::from_bits(SEA_LEVEL)) {
            self.biome_lut.get_hsv(t, p, scale)
        } else {
            Hsv::from_bits(WATER_HUE_BITS, MID_BITS, MID_BITS)
        }
    }
}

} // verus!
