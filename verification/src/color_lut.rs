//! A raster of colours addressed by two fractions.

use vstd::prelude::*;
use crate::color::Hsv;
use crate::scalar::{Scalar, ONE_BITS};

verus! {

/// `image::DynamicImage`, a decoded raster. The verifier sees nothing inside
/// it; what it holds is spoken of through [`raster_size`] and
/// [`raster_rgb`].
#[verifier::external_type_specification]
#[verifier::external_body]
pub struct ExDynamicImage(image::DynamicImage);

/// The width and the height of a raster, in pixels.
pub uninterp spec fn raster_size(img: image::DynamicImage) -> (u32, u32);

/// The red, green and blue of the pixels of a raster, by column and row.
pub uninterp spec fn raster_rgb(img: image::DynamicImage) -> Map<(u32, u32), (u8, u8, u8)>;

/// `GenericImageView::dimensions` of the `image` crate, on a
/// `DynamicImage`. Believed, not proved: it returns the width and the height
/// of the raster.
#[verifier::external_body]
fn raster_dimensions(img: &image::DynamicImage) -> (r: (u32, u32))
    ensures
        r == raster_size(*img),
{
    image::GenericImageView::dimensions(img)
}

/// `GenericImageView::in_bounds` of the `image` crate, on a `DynamicImage`.
/// Believed, not proved: it says whether the column is below the width and
/// the row below the height.
#[verifier::external_body]
fn raster_in_bounds(img: &image::DynamicImage, x: u32, y: u32) -> (r: bool)
    ensures
        r == (x < raster_size(*img).0 && y < raster_size(*img).1),
{
    image::GenericImageView::in_bounds(img, x, y)
}

/// `GenericImageView::get_pixel` of the `image` crate, on a `DynamicImage`,
/// without the pixel's alpha. Believed, not proved: for a pixel on the raster
/// it returns the red, green and blue that the raster holds there. Off the
/// raster the crate panics, so such a pixel may not be asked for.
#[verifier::external_body]
fn raster_pixel(img: &image::DynamicImage, x: u32, y: u32) -> (r: (u8, u8, u8))
    requires
        x < raster_size(*img).0,
        y < raster_size(*img).1,
    ensures
        r == raster_rgb(*img)[(x, y)],
{
    let pixel = image::GenericImageView::get_pixel(img, x, y);
    (pixel.0[0], pixel.0[1], pixel.0[2])
}

/// The bit patterns of the hue, the saturation and the value of the colour
/// with the given red, green and blue.
pub uninterp spec fn rgb_hsv_bits(red: u8, green: u8, blue: u8) -> (u32, u32, u32);

/// `RGB::from_u8` and then `RGB::to_hsv` of the `bracket-lib` crate.
/// Believed, not proved: the hue, saturation and value that come back are
/// decided by the red, green and blue alone.
#[verifier::external_body]
fn rgb_to_hsv(red: u8, green: u8, blue: u8) -> (r: Hsv)
    ensures
        r == Hsv::of_bits(
            rgb_hsv_bits(red, green, blue).0,
            rgb_hsv_bits(red, green, blue).1,
            rgb_hsv_bits(red, green, blue).2,
        ),
{
    let c = bracket_lib::prelude::RGB::from_u8(red, green, blue).to_hsv();
    Hsv {
        h: Scalar { bits: c.h.to_bits() },
        s: Scalar { bits: c.s.to_bits() },
        v: Scalar { bits: c.v.to_bits() },
    }
}

/// A raster of at least one pixel that serves as a table of colours.
pub struct ColorLUT {
    pub img: image::DynamicImage,
    pub table: Vec<Hsv>,
}

impl ColorLUT {
    /// The raster has at least one column and one row.
    pub open spec fn wf(&self) -> bool {
        raster_size(self.img).0 >= 1 && raster_size(self.img).1 >= 1
    }

    /// Whether the pixel `(px, py)` is on the raster.
    pub open spec fn spec_in_bounds(&self, px: u32, py: u32) -> bool {
        px < raster_size(self.img).0 && py < raster_size(self.img).1
    }

    /// The colour of the pixel `(px, py)`: the hue, saturation and value of
    /// the red, green and blue of a pixel on the raster, and black for a
    /// pixel off it.
    pub open spec fn pixel_or_black(&self, px: u32, py: u32) -> Hsv {
        if self.spec_in_bounds(px, py) {
            let rgb = raster_rgb(self.img)[(px, py)];
            let bits = rgb_hsv_bits(rgb.0, rgb.1, rgb.2);
            Hsv::of_bits(bits.0, bits.1, bits.2)
        } else {
            Hsv::spec_black()
        }
    }

    /// The colour of the pixel `at`, and black where there is none.
    pub open spec fn color_at(&self, at: Option<(u32, u32)>) -> Hsv {
        match at {
            Some((px, py)) => self.pixel_or_black(px, py),
            None => Hsv::spec_black(),
        }
    }

    /// Whether a fraction is past the edge of the table: above `1.0`.
    pub open spec fn past_edge(x: Scalar) -> bool {
        x.spec_gt(Scalar { bits: ONE_BITS })
    }

    /// Whether `at` is the pixel that the fractions `x` and `y` name.
    /// - A fraction above `1.0` names no pixel, and on a raster without a
    ///   pixel no fraction does.
    /// - Else each fraction is stretched by `scale` over the index of the
    ///   last pixel along its axis and rounded toward zero; the two numbers
    ///   name a pixel where it is on the raster, and none where it is not.
    pub open spec fn located<M: Fn(Scalar, u32) -> Scalar>(
        &self,
        at: Option<(u32, u32)>,
        x: Scalar,
        y: Scalar,
        scale: M,
    ) -> bool {
        if !self.wf() || ColorLUT::past_edge(x) || ColorLUT::past_edge(y) {
            at is None
        } else {
            exists|sx: Scalar, sy: Scalar|
                #![trigger scale.ensures((x, (raster_size(self.img).0 - 1) as u32), sx), scale.ensures((y, (raster_size(self.img).1 - 1) as u32), sy)]
                scale.ensures((x, (raster_size(self.img).0 - 1) as u32), sx) && scale.ensures(
                    (y, (raster_size(self.img).1 - 1) as u32),
                    sy,
                ) && at == (if self.spec_in_bounds(sx.truncated(), sy.truncated()) {
                    Some((sx.truncated(), sy.truncated()))
                } else {
                    None
                })
        }
    }

    /// Whether `r` is the colour that the table gives for the fractions `x`
    /// and `y`: the colour of the pixel they name, and black where they name
    /// none.
    pub open spec fn looked_up<M: Fn(Scalar, u32) -> Scalar>(
        &self,
        r: Hsv,
        x: Scalar,
        y: Scalar,
        scale: M,
    ) -> bool {
        exists|at: Option<(u32, u32)>| #[trigger]
            self.located(at, x, y, scale) && r == self.color_at(at)
    }

    /// A table over the raster `img`, or nothing where the raster has no
    /// pixel. The list of colours starts out as black alone.
    pub fn new(img: image::DynamicImage) -> (r: Option<ColorLUT>)
        ensures
            r is Some <==> raster_size(img).0 >= 1 && raster_size(img).1 >= 1,
            r is Some ==> r->Some_0.wf() && r->Some_0.img == img && r->Some_0.table@ == seq![
                Hsv::spec_black(),
            ],
    {
        let size: (u32, u32) = raster_dimensions(&img);
        if size.0 == 0 || size.1 == 0 {
            return None;
        }
        let mut table: Vec<Hsv> = Vec::new();
        table.push(Hsv::black());
        proof {
            assert(table@ =~= seq![Hsv::spec_black()]);
        }
        Some(ColorLUT { img, table })
    }

    /// Whether the table is well formed. Callers that fill the public fields
    /// themselves can test it before they call a method that relies on it.
    pub fn is_well_formed(&self) -> (ok: bool)
        ensures
            ok == self.wf(),
    {
        let size: (u32, u32) = raster_dimensions(&self.img);
        size.0 >= 1 && size.1 >= 1
    }

    /// The width and the height of the raster, in pixels.
    pub fn dimensions(&self) -> (r: (u32, u32))
        ensures
            r == raster_size(self.img),
    {
        raster_dimensions(&self.img)
    }

    /// Whether the pixel `(px, py)` is on the raster.
    #[verifier::when_used_as_spec(spec_in_bounds)]
    pub fn in_bounds(&self, px: u32, py: u32) -> (r: bool)
        ensures
            r == self.spec_in_bounds(px, py),
    {
        raster_in_bounds(&self.img, px, py)
    }

    /// The colour of the pixel `(px, py)`. A pixel off the raster is black.
    pub fn pixel(&self, px: u32, py: u32) -> (r: Hsv)
        ensures
            r == self.pixel_or_black(px, py),
            !self.spec_in_bounds(px, py) ==> r == Hsv::spec_black(),
    {
        if !self.in_bounds(px, py) {
            return Hsv::black();
        }
        let rgb: (u8, u8, u8) = raster_pixel(&self.img, px, py);
        rgb_to_hsv(rgb.0, rgb.1, rgb.2)
    }

    /// The pixel that the fractions `x` and `y` name, or nothing where they
    /// lead off the table: where one of them is above `1.0`, where the
    /// stretched and rounded fractions fall off the raster, or where the
    /// raster has no pixel. `scale` is asked only for fractions that are not
    /// above `1.0`.
    pub fn locate<M: Fn(Scalar, u32) -> Scalar>(&self, x: Scalar, y: Scalar, scale: &M) -> (at:
        Option<(u32, u32)>)
        requires
            forall|fraction: Scalar, last: u32| scale.requires((fraction, last)),
        ensures
            self.located(at, x, y, *scale),
            ColorLUT::past_edge(x) || ColorLUT::past_edge(y) ==> at is None,
            at is Some ==> self.spec_in_bounds(at->Some_0.0, at->Some_0.1),
    {
        let size: (u32, u32) = raster_dimensions(&self.img);
        if size.0 == 0 || size.1 == 0 {
            return None;
        }
        if x.gt(Scalar::one()) || y.gt(Scalar::one()) {
            return None;
        }
        let sx: Scalar = scale(x, size.0 - 1);
        let sy: Scalar = scale(y, size.1 - 1);
        let px: u32 = sx.trunc_u32();
        let py: u32 = sy.trunc_u32();
        if self.in_bounds(px, py) {
            Some((px, py))
        } else {
            None
        }
    }

    /// The colour for the fractions `x` and `y`: that of the pixel they name
    /// (see [`ColorLUT::locate`]), and black where they name none. A fraction
    /// above `1.0` always gives black.
    pub fn get_hsv<M: Fn(Scalar, u32) -> Scalar>(&self, x: Scalar, y: Scalar, scale: &M) -> (r:
        Hsv)
        requires
            forall|fraction: Scalar, last: u32| scale.requires((fraction, last)),
        ensures
            self.looked_up(r, x, y, *scale),
            ColorLUT::past_edge(x) || ColorLUT::past_edge(y) ==> r == Hsv::spec_black(),
    {
        let at: Option<(u32, u32)> = self.locate(x, y, scale);
        match at {
            Some((px, py)) => self.pixel(px, py),
            None => Hsv::black(),
        }
    }
}

} // verus!
