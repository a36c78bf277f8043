use bracket_lib::prelude::RGB;
use image::{DynamicImage, GrayImage, Luma, Rgb, RgbImage, Rgba, RgbaImage};
use worldgen::color::{hsv, Hsv};
use worldgen::color_lut::ColorLUT;
use worldgen::scalar::Scalar;

fn s(v: f32) -> Scalar {
    Scalar::from_bits(v.to_bits())
}

fn color(h: f32, sat: f32, v: f32) -> Hsv {
    Hsv { h: s(h), s: s(sat), v: s(v) }
}

fn scale(fraction: Scalar, last: u32) -> Scalar {
    s(f32::from_bits(fraction.to_bits()) * (last as f32))
}

fn shade(e: f32) -> f32 {
    e / 1.5 + 0.25
}

/// The bands written over hardware comparisons.
fn expected(e: f32) -> Hsv {
    let v = shade(e);
    if e < 0.6 {
        return color(0.601, 0.5, v);
    }
    if e < 0.65 {
        return color(0.136, 0.5, 0.8);
    }
    if e < 0.8 {
        return color(0.333, 0.5, v);
    }
    if e < 0.85 {
        return color(0.393, 0.5, v);
    }
    if e < 0.9 {
        return color(0.206, 0.5, v);
    }
    if e < 0.95 {
        return color(0.065, 0.5, v);
    }
    color(0.0, 0.0, v)
}

fn channels(x: u32, y: u32) -> [u8; 3] {
    [(x % 251) as u8, 255 - (y % 251) as u8, 40 + (x / 251) as u8]
}

fn ramp(width: u32, height: u32) -> ColorLUT {
    let raster = RgbImage::from_fn(width, height, |x, y| Rgb(channels(x, y)));
    ColorLUT::new(DynamicImage::ImageRgb8(raster)).unwrap()
}

fn to_hsv(red: u8, green: u8, blue: u8) -> Hsv {
    let c = RGB::from_u8(red, green, blue).to_hsv();
    color(c.h, c.s, c.v)
}

fn color_at(x: u32, y: u32) -> Hsv {
    let c = channels(x, y);
    to_hsv(c[0], c[1], c[2])
}

fn single(red: u8, green: u8, blue: u8) -> ColorLUT {
    let raster = RgbImage::from_fn(1, 1, |_x, _y| Rgb([red, green, blue]));
    ColorLUT::new(DynamicImage::ImageRgb8(raster)).unwrap()
}

#[test]
fn black_is_all_zero() {
    assert_eq!(Hsv::black(), color(0.0, 0.0, 0.0));
    assert_eq!(Hsv::from_bits(0, 0, 0), Hsv::black());
}

#[test]
fn bands_agree_with_the_hardware() {
    let mut points: Vec<f32> = Vec::new();
    for edge in [0.6f32, 0.65, 0.8, 0.85, 0.9, 0.95] {
        points.push(edge);
        points.push(f32::from_bits(edge.to_bits() + 1));
        points.push(f32::from_bits(edge.to_bits() - 1));
    }
    for step in 0..=100 {
        points.push(step as f32 / 100.0);
    }
    for e in points {
        assert_eq!(hsv(s(e), s(shade(e))), expected(e), "{e}");
    }
}

#[test]
fn each_band_has_its_hue() {
    assert_eq!(hsv(s(0.3), s(0.45)), color(0.601, 0.5, 0.45));
    assert_eq!(hsv(s(0.62), s(0.66)), color(0.136, 0.5, 0.8));
    assert_eq!(hsv(s(0.7), s(0.71)), color(0.333, 0.5, 0.71));
    assert_eq!(hsv(s(0.82), s(0.79)), color(0.393, 0.5, 0.79));
    assert_eq!(hsv(s(0.87), s(0.83)), color(0.206, 0.5, 0.83));
    assert_eq!(hsv(s(0.92), s(0.86)), color(0.065, 0.5, 0.86));
    assert_eq!(hsv(s(0.97), s(0.9)), color(0.0, 0.0, 0.9));
    assert_eq!(hsv(s(f32::NAN), s(0.9)), color(0.0, 0.0, 0.9));
}

#[test]
fn table_needs_a_pixel() {
    assert!(ColorLUT::new(DynamicImage::new_rgb8(0, 0)).is_none());
    assert!(ColorLUT::new(DynamicImage::new_rgb8(0, 3)).is_none());
    assert!(ColorLUT::new(DynamicImage::new_rgb8(3, 0)).is_none());
    assert!(ColorLUT::new(DynamicImage::new_rgb8(1, 1)).is_some());
}

#[test]
fn new_table_lists_black_alone() {
    let lut = ramp(4, 3);
    assert_eq!(lut.table, vec![Hsv::black()]);
    assert!(lut.is_well_formed());
    assert_eq!(lut.dimensions(), (4, 3));
}

#[test]
fn pixel_reads_by_column_and_row() {
    let lut = ramp(4, 3);
    assert_eq!(lut.pixel(0, 0), color_at(0, 0));
    assert_eq!(lut.pixel(3, 0), color_at(3, 0));
    assert_eq!(lut.pixel(1, 2), color_at(1, 2));
    assert_eq!(lut.pixel(3, 2), color_at(3, 2));
    assert_ne!(lut.pixel(3, 2), lut.pixel(2, 3));
    assert_ne!(lut.pixel(1, 2), lut.pixel(2, 1));
}

#[test]
fn pixel_is_hue_saturation_and_value() {
    assert_eq!(single(255, 0, 0).pixel(0, 0), color(0.0, 1.0, 1.0));
    assert_eq!(single(0, 255, 0).pixel(0, 0), color(2.0 / 6.0, 1.0, 1.0));
    assert_eq!(single(0, 0, 255).pixel(0, 0), color(4.0 / 6.0, 1.0, 1.0));
    assert_eq!(single(255, 255, 255).pixel(0, 0), color(0.0, 0.0, 1.0));
    assert_eq!(single(0, 0, 0).pixel(0, 0), Hsv::black());
    assert_eq!(single(10, 200, 70).pixel(0, 0), to_hsv(10, 200, 70));
}

#[test]
fn pixel_leaves_the_alpha_out() {
    let raster = RgbaImage::from_fn(2, 2, |x, y| Rgba([10 + x as u8, 20 + y as u8, 30, 7]));
    let lut = ColorLUT::new(DynamicImage::ImageRgba8(raster)).unwrap();
    assert_eq!(lut.pixel(1, 0), to_hsv(11, 20, 30));
    assert_eq!(lut.pixel(0, 1), to_hsv(10, 21, 30));
}

#[test]
fn pixel_of_a_grey_raster_has_three_equal_channels() {
    let raster = GrayImage::from_fn(2, 1, |x, _y| Luma([100 + x as u8]));
    let lut = ColorLUT::new(DynamicImage::ImageLuma8(raster)).unwrap();
    assert_eq!(lut.pixel(1, 0), to_hsv(101, 101, 101));
}

#[test]
fn pixel_off_the_raster_is_black() {
    let lut = ramp(4, 3);
    assert!(lut.in_bounds(3, 2));
    assert!(!lut.in_bounds(4, 2));
    assert!(!lut.in_bounds(3, 3));
    assert_eq!(lut.pixel(4, 0), Hsv::black());
    assert_eq!(lut.pixel(0, 3), Hsv::black());
    assert_eq!(lut.pixel(u32::MAX, u32::MAX), Hsv::black());
}

#[test]
fn locate_names_the_nearest_pixel_toward_zero() {
    let lut = ramp(5, 3);
    assert_eq!(lut.locate(s(0.0), s(0.0), &scale), Some((0, 0)));
    assert_eq!(lut.locate(s(1.0), s(1.0), &scale), Some((4, 2)));
    assert_eq!(lut.locate(s(0.5), s(0.5), &scale), Some((2, 1)));
    assert_eq!(lut.locate(s(0.49), s(0.99), &scale), Some((1, 1)));
    assert_eq!(lut.locate(s(-0.5), s(f32::NAN), &scale), Some((0, 0)));
}

#[test]
fn locate_names_nothing_past_the_edge() {
    let lut = ramp(5, 3);
    assert_eq!(lut.locate(s(1.0001), s(0.5), &scale), None);
    assert_eq!(lut.locate(s(0.5), s(1.0001), &scale), None);
    assert_eq!(lut.locate(s(1.000_000_1), s(0.0), &scale), None);
    assert_eq!(lut.locate(s(f32::INFINITY), s(0.0), &scale), None);
}

#[test]
fn locate_names_nothing_where_the_arithmetic_leaves_the_raster() {
    let lut = ramp(5, 3);
    let doubling = |fraction: Scalar, last: u32| {
        s(f32::from_bits(fraction.to_bits()) * (last as f32) * 2.0)
    };
    assert_eq!(lut.locate(s(0.25), s(0.25), &doubling), Some((2, 1)));
    assert_eq!(lut.locate(s(0.75), s(0.25), &doubling), None);
    assert_eq!(lut.get_hsv(s(0.75), s(0.25), &doubling), Hsv::black());
}

#[test]
fn lookup_picks_the_nearest_pixel_toward_zero() {
    let lut = ramp(5, 3);
    assert_eq!(lut.get_hsv(s(0.0), s(0.0), &scale), color_at(0, 0));
    assert_eq!(lut.get_hsv(s(1.0), s(1.0), &scale), color_at(4, 2));
    assert_eq!(lut.get_hsv(s(0.5), s(0.5), &scale), color_at(2, 1));
    assert_eq!(lut.get_hsv(s(0.49), s(0.99), &scale), color_at(1, 1));
}

#[test]
fn lookup_past_the_edge_falls_back_to_black() {
    for (width, height) in [(1u32, 1u32), (2, 2), (256, 256), (10_001, 2)] {
        let lut = ramp(width, height);
        assert_eq!(lut.get_hsv(s(1.0), s(0.0), &scale), color_at(width - 1, 0));
        assert_eq!(lut.get_hsv(s(1.0001), s(0.0), &scale), Hsv::black());
        assert_eq!(lut.get_hsv(s(0.0), s(1.0001), &scale), Hsv::black());
        assert_eq!(lut.get_hsv(s(1.0001), s(1.0001), &scale), Hsv::black());
        assert_eq!(lut.get_hsv(s(0.5), s(2.0), &scale), Hsv::black());
        assert_ne!(lut.get_hsv(s(1.0), s(1.0), &scale), Hsv::black());
    }
}

#[test]
fn lookup_just_above_one_falls_back_to_black() {
    let lut = single(9, 8, 7);
    assert_eq!(lut.get_hsv(s(1.0), s(1.0), &scale), to_hsv(9, 8, 7));
    assert_eq!(lut.get_hsv(s(1.000_000_1), s(1.0), &scale), Hsv::black());
    assert_eq!(lut.get_hsv(s(1.0), s(1.000_000_1), &scale), Hsv::black());
}

#[test]
fn lookup_takes_negative_and_nan_as_the_first_pixel() {
    let lut = ramp(5, 3);
    assert_eq!(lut.get_hsv(s(-0.5), s(f32::NAN), &scale), color_at(0, 0));
}

#[test]
fn lookup_agrees_with_the_hardware() {
    let lut = ramp(64, 48);
    for (x, y) in [(0.0f32, 0.0f32), (0.1, 0.9), (0.33, 0.66), (0.999, 0.001), (1.0, 1.0)] {
        let px = (x * 63.0) as u32;
        let py = (y * 47.0) as u32;
        assert_eq!(lut.get_hsv(s(x), s(y), &scale), color_at(px, py));
    }
}

#[test]
fn lookup_on_a_raster_without_a_pixel_is_black() {
    let mut lut = ramp(4, 3);
    lut.img = DynamicImage::new_rgb8(0, 0);
    assert!(!lut.is_well_formed());
    assert_eq!(lut.locate(s(0.5), s(0.5), &scale), None);
    assert_eq!(lut.get_hsv(s(0.5), s(0.5), &scale), Hsv::black());
    assert_eq!(lut.pixel(0, 0), Hsv::black());
}
