use bracket_lib::prelude::RGB;
use image::{DynamicImage, Rgb, RgbImage};
use worldgen::color::Hsv;
use worldgen::color_lut::ColorLUT;
use worldgen::noise::NoiseField;
use worldgen::scalar::Scalar;
use worldgen::state::{next_seed, Key, State, WorldViewMode};
use worldgen::world::World;

fn s(v: f32) -> Scalar {
    Scalar::from_bits(v.to_bits())
}

fn f(v: Scalar) -> f32 {
    f32::from_bits(v.to_bits())
}

fn color(h: f32, sat: f32, v: f32) -> Hsv {
    Hsv { h: s(h), s: s(sat), v: s(v) }
}

fn sample(field: NoiseField, x: Scalar, y: Scalar) -> Scalar {
    let spread = (field.seed as f32) * 0.01 + (field.octaves as f32) * 0.001;
    s(((f(x) * 7.0 + f(y) * 13.0) % 20.0) / 10.0 - 1.0 + spread)
}

fn unit(v: Scalar) -> Scalar {
    s((f(v) + 1.0) / 2.0)
}

fn wet(level: Scalar) -> Scalar {
    s((1.0 - f(level)).powf(1.5))
}

fn warm(y: Scalar, height: u32, level: Scalar) -> Scalar {
    let sun = ((f(y) / ((height - 1) as f32)) * std::f32::consts::PI).sin();
    s(sun * (1.0 - f(level).powf(3.0)))
}

fn scale(fraction: Scalar, last: u32) -> Scalar {
    s(f(fraction) * (last as f32))
}

fn blend(value: Scalar, elevation: Scalar) -> Scalar {
    s((f(value) + f(elevation)) / 2.0)
}

fn channels(x: u32, y: u32) -> [u8; 3] {
    [60 * x as u8, 200 - 50 * y as u8, 90]
}

fn table_color(x: u32, y: u32) -> Hsv {
    let c = channels(x, y);
    let hsv = RGB::from_u8(c[0], c[1], c[2]).to_hsv();
    color(hsv.h, hsv.s, hsv.v)
}

fn table() -> ColorLUT {
    let raster = RgbImage::from_fn(3, 3, |x, y| Rgb(channels(x, y)));
    ColorLUT::new(DynamicImage::ImageRgb8(raster)).unwrap()
}

fn state() -> State {
    State::new(table())
}

fn press(state: &mut State, key: Option<Key>) {
    state.handle_input(key, &sample, &unit, &wet, &warm);
}

fn with_cell(mode: WorldViewMode, e: f32, p: f32, t: f32) -> State {
    let mut state = state();
    state.world_view_mode = mode;
    state.world.elevation[5] = s(e);
    state.world.precipitation[5] = s(p);
    state.world.temperature[5] = s(t);
    state
}

#[test]
fn start_up_state() {
    let state = state();
    assert_eq!(state.world_view_mode, WorldViewMode::Biome);
    assert!(state.is_dirty);
    assert_eq!(state.world.seed, 0);
    assert_eq!(state.world.size, 4000);
    assert_eq!(state.biome_lut.dimensions(), (3, 3));
}

#[test]
fn view_keys_select_their_view() {
    let cases = [
        (Key::T, WorldViewMode::Temperature),
        (Key::E, WorldViewMode::Elevation),
        (Key::P, WorldViewMode::Precipitation),
        (Key::B, WorldViewMode::Biome),
        (Key::F, WorldViewMode::Flat),
    ];
    for (key, mode) in cases {
        let mut state = state();
        state.is_dirty = false;
        press(&mut state, Some(key));
        assert_eq!(state.world_view_mode, mode);
        assert!(state.is_dirty);
        assert_eq!(state.world.seed, 0);
        assert_eq!(state.world.elevation, vec![s(0.0); 4000]);
    }
}

#[test]
fn other_keys_change_nothing() {
    for key in [None, Some(Key::Other)] {
        let mut state = state();
        state.is_dirty = false;
        state.world_view_mode = WorldViewMode::Flat;
        press(&mut state, key);
        assert_eq!(state.world_view_mode, WorldViewMode::Flat);
        assert!(!state.is_dirty);
        assert_eq!(state.world.seed, 0);
    }
}

#[test]
fn a_pending_redraw_stays_pending() {
    let mut state = state();
    press(&mut state, None);
    assert!(state.is_dirty);
}

#[test]
fn reroll_takes_the_next_seed_and_regenerates() {
    let mut state = state();
    state.is_dirty = false;
    state.world_view_mode = WorldViewMode::Elevation;
    press(&mut state, Some(Key::R));
    assert_eq!(state.world.seed, 1);
    assert_eq!(state.world_view_mode, WorldViewMode::Elevation);
    assert!(state.is_dirty);
    assert_eq!(state.world.nz_elevation, World::elevation_noise(1));
    let mut want = World::new();
    want.set_seed(1, &sample, &unit, &wet, &warm);
    assert_eq!(state.world.elevation, want.elevation);
    assert_eq!(state.world.precipitation, want.precipitation);
    assert_eq!(state.world.temperature, want.temperature);
    assert_ne!(state.world.elevation, vec![s(0.0); 4000]);
    press(&mut state, Some(Key::R));
    assert_eq!(state.world.seed, 2);
}

#[test]
fn reroll_after_the_greatest_seed_starts_over() {
    let mut state = state();
    state.world.set_seed(u32::MAX, &sample, &unit, &wet, &warm);
    press(&mut state, Some(Key::R));
    assert_eq!(state.world.seed, 0);
}

#[test]
fn field_views_show_the_field_as_value() {
    let state = with_cell(WorldViewMode::Elevation, 0.7, 0.2, 0.9);
    assert_eq!(state.tile_color(5, &scale, &blend), color(0.0, 0.5, 0.7));
    let state = with_cell(WorldViewMode::Precipitation, 0.7, 0.2, 0.9);
    assert_eq!(state.tile_color(5, &scale, &blend), color(0.601, 0.5, 0.2));
    let state = with_cell(WorldViewMode::Temperature, 0.7, 0.2, 0.9);
    assert_eq!(state.tile_color(5, &scale, &blend), color(0.111, 0.9, 0.9));
}

#[test]
fn flat_view_is_water_up_to_the_sea_level() {
    for e in [0.0f32, 0.3, 0.55, f32::NAN] {
        let state = with_cell(WorldViewMode::Flat, e, 0.2, 0.9);
        assert_eq!(state.tile_color(5, &scale, &blend), color(0.55, 0.5, 0.5), "{e}");
    }
}

#[test]
fn flat_view_is_the_table_above_the_sea_level() {
    let state = with_cell(WorldViewMode::Flat, 0.56, 1.0, 0.5);
    assert_eq!(state.tile_color(5, &scale, &blend), table_color(1, 2));
    let state = with_cell(WorldViewMode::Flat, 0.9, 0.0, 1.0);
    assert_eq!(state.tile_color(5, &scale, &blend), table_color(2, 0));
    assert_ne!(table_color(1, 2), table_color(2, 0));
}

#[test]
fn biome_view_blends_the_value_with_the_elevation() {
    let state = with_cell(WorldViewMode::Biome, 0.3, 0.2, 0.9);
    assert_eq!(state.tile_color(5, &scale, &blend), color(0.55, 0.5, (0.5 + 0.3) / 2.0));
    let state = with_cell(WorldViewMode::Biome, 0.9, 1.0, 0.5);
    let c = table_color(1, 2);
    let want = Hsv { h: c.h, s: c.s, v: s((f(c.v) + 0.9) / 2.0) };
    assert_eq!(state.tile_color(5, &scale, &blend), want);
}

#[test]
fn biome_view_off_the_table_is_blended_black() {
    let state = with_cell(WorldViewMode::Biome, 0.8, 5.0, 0.5);
    assert_eq!(state.tile_color(5, &scale, &blend), color(0.0, 0.0, 0.4));
    let state = with_cell(WorldViewMode::Flat, 0.8, 0.5, 1.0001);
    assert_eq!(state.tile_color(5, &scale, &blend), Hsv::black());
}

#[test]
fn a_miss_is_reported_only_where_the_table_is_asked() {
    assert!(with_cell(WorldViewMode::Biome, 0.8, 5.0, 0.5).table_miss(5, &scale));
    assert!(with_cell(WorldViewMode::Flat, 0.8, 0.5, 1.0001).table_miss(5, &scale));
    assert!(!with_cell(WorldViewMode::Flat, 0.8, 0.5, 1.0).table_miss(5, &scale));
    assert!(!with_cell(WorldViewMode::Biome, 0.8, 0.0, 0.0).table_miss(5, &scale));
    assert!(!with_cell(WorldViewMode::Biome, 0.3, 5.0, 0.5).table_miss(5, &scale));
    assert!(!with_cell(WorldViewMode::Elevation, 0.8, 5.0, 0.5).table_miss(5, &scale));
    assert!(!with_cell(WorldViewMode::Temperature, 0.8, 5.0, 0.5).table_miss(5, &scale));
}

#[test]
fn seeds_follow_one_another_and_start_over() {
    assert_eq!(next_seed(0), 1);
    assert_eq!(next_seed(41), 42);
    assert_eq!(next_seed(u32::MAX - 1), u32::MAX);
    assert_eq!(next_seed(u32::MAX), 0);
}
