//! The colours of the card, and the logo masks as pixels.

use eframe::egui::{Color32, ColorImage};
use vstd::prelude::*;

use crate::double::{whole_units, Double, EIGHTY_FIVE, SIXTY};
use crate::providers::Provider;

verus! {

/// A colour with premultiplied alpha, a byte per channel.
#[derive(Clone, Copy, Debug, PartialEq, Eq, Structural)]
pub struct Rgba {
    pub r: u8,
    pub g: u8,
    pub b: u8,
    pub a: u8,
}

/// An opaque colour.
pub open spec fn opaque(r: u8, g: u8, b: u8) -> Rgba {
    Rgba { r, g, b, a: 255 }
}

/// An opaque gray.
pub open spec fn gray_level(l: u8) -> Rgba {
    opaque(l, l, l)
}

/// `Color32::from_rgb`: the three channels as they are given, with full alpha.
#[verifier::external_body]
fn from_rgb(r: u8, g: u8, b: u8) -> (c: Rgba)
    ensures
        c == opaque(r, g, b),
{
    let [r, g, b, a] = Color32::from_rgb(r, g, b).to_array();
    Rgba { r, g, b, a }
}

/// `Color32::from_gray`: the level in each of the three channels, with full alpha.
#[verifier::external_body]
fn from_gray(l: u8) -> (c: Rgba)
    ensures
        c == gray_level(l),
{
    let [r, g, b, a] = Color32::from_gray(l).to_array();
    Rgba { r, g, b, a }
}

/// One channel times an alpha, in the fixed-point steps that round it to a byte.
pub open spec fn premultiplied(value: u8, alpha: u8) -> int {
    let p = value * alpha + 128;
    (p + p / 256) / 256
}

/// `ColorImage::from_rgba_unmultiplied`: one pixel for each four bytes of red, green, blue and
/// alpha, the colour channels multiplied by the alpha. It panics unless the bytes fill the size.
#[verifier::external_body]
fn image_pixels(width: usize, height: usize, rgba: &[u8]) -> (pixels: Vec<Rgba>)
    requires
        width * height * 4 == rgba@.len(),
    ensures
        pixels@.len() == width * height,
        forall|i: int|
            0 <= i < pixels@.len() ==> {
                let alpha = rgba@[4 * i + 3];
                &&& (#[trigger] pixels@[i]).r == premultiplied(rgba@[4 * i], alpha)
                &&& pixels@[i].g == premultiplied(rgba@[4 * i + 1], alpha)
                &&& pixels@[i].b == premultiplied(rgba@[4 * i + 2], alpha)
                &&& pixels@[i].a == alpha
            },
{
    let image = ColorImage::from_rgba_unmultiplied([width, height], rgba);
    let plain = |c: &Color32| Rgba { r: c.r(), g: c.g(), b: c.b(), a: c.a() };
    image.pixels.iter().map(plain).collect()
}

/// The side of a square logo mask.
pub const LOGO_PX: usize = 64;

/// White at the opacity that an alpha gives.
pub open spec fn white(alpha: u8) -> Rgba {
    Rgba { r: alpha, g: alpha, b: alpha, a: alpha }
}

/// The first `n` pixels of a mask as white: red, green, blue, and the mask as alpha.
spec fn white_bytes(mask: Seq<u8>, n: nat) -> Seq<u8> {
    Seq::new(
        4 * n,
        |j: int|
            if j % 4 == 3 {
                mask[j / 4]
            } else {
                255u8
            },
    )
}

/// The pixels of a mask.
pub open spec fn logo_image(mask: Seq<u8>) -> Seq<Rgba> {
    mask.map_values(|a: u8| white(a))
}

/// The pixels of a logo: white at the opacity of its mask, so that a tint gives it any colour.
pub fn logo_pixels(mask: &[u8]) -> (pixels: Vec<Rgba>)
    requires
        mask@.len() == LOGO_PX * LOGO_PX,
    ensures
        pixels@ == logo_image(mask@),
{
    let mut rgba: Vec<u8> = Vec::new();
    let mut i: usize = 0;
    while i < mask.len()
        invariant
            i <= mask@.len(),
            rgba@ == white_bytes(mask@, i as nat),
        decreases mask@.len() - i,
    {
        rgba.push(255);
        rgba.push(255);
        rgba.push(255);
        rgba.push(mask[i]);
        i = i + 1;
        assert(rgba@ =~= white_bytes(mask@, i as nat));
    }
    let pixels = image_pixels(LOGO_PX, LOGO_PX, rgba.as_slice());
    proof {
        assert forall|k: int| 0 <= k < pixels@.len() implies #[trigger] pixels@[k] == white(
            mask@[k],
        ) by {
            lemma_white(mask@[k]);
        }
        assert(pixels@ =~= logo_image(mask@));
    }
    pixels
}

proof fn lemma_white(a: u8)
    ensures
        premultiplied(255, a) == a,
{
    let p = 255 * a + 128;
    assert(p / 256 == a - 1 || p / 256 == a);
}

/// The background of the whole window.
pub open spec fn bg_color() -> Rgba {
    opaque(24, 26, 32)
}

/// The colour of the text.
pub open spec fn text_color() -> Rgba {
    gray_level(232)
}

/// The colour of the lesser text.
pub open spec fn muted_color() -> Rgba {
    gray_level(135)
}

/// The colour of the empty part of a bar.
pub open spec fn track_color() -> Rgba {
    gray_level(58)
}

/// The colour of an error.
pub open spec fn err_color() -> Rgba {
    opaque(235, 110, 110)
}

/// The background of the whole window.
pub fn bg() -> (c: Rgba)
    ensures
        c == bg_color(),
{
    from_rgb(24, 26, 32)
}

/// The colour of the text.
pub fn text() -> (c: Rgba)
    ensures
        c == text_color(),
{
    from_gray(232)
}

/// The colour of the lesser text.
pub fn muted() -> (c: Rgba)
    ensures
        c == muted_color(),
{
    from_gray(135)
}

/// The colour of the empty part of a bar.
pub fn track() -> (c: Rgba)
    ensures
        c == track_color(),
{
    from_gray(58)
}

/// The colour of an error.
pub fn err() -> (c: Rgba)
    ensures
        c == err_color(),
{
    from_rgb(235, 110, 110)
}

/// The colour of a level of use: green below 60 percent, amber below 85, red from there on. What
/// is no number is red.
pub open spec fn level(percent: Double) -> Rgba {
    if !percent.nan() && percent.units() < whole_units(60) {
        opaque(82, 190, 128)
    } else if !percent.nan() && percent.units() < whole_units(85) {
        opaque(232, 175, 64)
    } else {
        opaque(230, 88, 88)
    }
}

/// The colour of a level of use.
pub fn level_color(percent: Double) -> (c: Rgba)
    ensures
        c == level(percent),
{
    proof {
        crate::double::law_thresholds();
    }
    if percent.less_than(Double { bits: SIXTY }) {
        from_rgb(82, 190, 128)
    } else if percent.less_than(Double { bits: EIGHTY_FIVE }) {
        from_rgb(232, 175, 64)
    } else {
        from_rgb(230, 88, 88)
    }
}

/// More use never looks better: from green over amber to red, and not back.
pub proof fn law_levels_worsen(a: Double, b: Double)
    requires
        !a.nan(),
        !b.nan(),
        a.units() <= b.units(),
    ensures
        level(b) == opaque(82, 190, 128) ==> level(a) == level(b),
        level(a) == opaque(230, 88, 88) ==> level(b) == level(a),
{
    let unit = vstd::arithmetic::power2::pow2(1074) as int;
    vstd::arithmetic::power2::lemma_pow2_pos(1074);
    assert(60 * unit < 85 * unit) by (nonlinear_arith)
        requires
            unit > 0,
    ;
}

/// The colour of a level is green if and only if the percentage is below 60, and red if and only if it
/// is not below 85; between the two it is amber.
pub proof fn law_level_thresholds(percent: Double)
    ensures
        level(percent) == (Rgba { r: 82, g: 190, b: 128, a: 255 }) <==> percent.below(
            Double { bits: 0x404E_0000_0000_0000 },
        ),
        level(percent) == (Rgba { r: 230, g: 88, b: 88, a: 255 }) <==> !percent.below(
            Double { bits: 0x4055_4000_0000_0000 },
        ),
        percent.below(Double { bits: 0x4055_4000_0000_0000 }) && !percent.below(
            Double { bits: 0x404E_0000_0000_0000 },
        ) ==> level(percent) == (Rgba { r: 232, g: 175, b: 64, a: 255 }),
{
    crate::double::law_thresholds();
    let unit = vstd::arithmetic::power2::pow2(1074) as int;
    vstd::arithmetic::power2::lemma_pow2_pos(1074);
    assert(60 * unit < 85 * unit) by (nonlinear_arith)
        requires
            unit > 0,
    ;
}

/// Every colour of the card is opaque; the texts are gray, and the lesser the text the darker. The
/// colour of an error is that of no level.
pub proof fn law_palette_is_readable(percent: Double)
    ensures
        bg_color() == (Rgba { r: 24, g: 26, b: 32, a: 255 }),
        text_color() == (Rgba { r: 232, g: 232, b: 232, a: 255 }),
        muted_color() == (Rgba { r: 135, g: 135, b: 135, a: 255 }),
        track_color() == (Rgba { r: 58, g: 58, b: 58, a: 255 }),
        err_color() == (Rgba { r: 235, g: 110, b: 110, a: 255 }),
        level(percent).a == 255,
        level(percent) != err_color(),
        text_color().r > muted_color().r > track_color().r > bg_color().r,
{
}

/// The logo of the second service is tinted in its own colour; the two others are white as text is.
pub proof fn law_logo_tints(p: Provider)
    ensures
        p == Provider::Claude ==> logo_tint(p) == (Rgba { r: 217, g: 119, b: 87, a: 255 }),
        p != Provider::Claude ==> logo_tint(p) == (Rgba { r: 232, g: 232, b: 232, a: 255 }),
{
}

/// A logo has a pixel for each byte of its mask, as opaque as that byte, and white: each channel is
/// what 255 comes to when it is multiplied by that opacity.
pub proof fn law_logo_is_white(mask: Seq<u8>, i: int)
    requires
        0 <= i < mask.len(),
    ensures
        logo_image(mask).len() == mask.len(),
        logo_image(mask)[i].a == mask[i],
        logo_image(mask)[i].r == premultiplied(255, mask[i]),
        logo_image(mask)[i].g == premultiplied(255, mask[i]),
        logo_image(mask)[i].b == premultiplied(255, mask[i]),
        premultiplied(255, mask[i]) == mask[i],
{
    lemma_white(mask[i]);
}

/// The colour of a button: it lights up under the pointer.
pub fn button_color(hovered: bool) -> (c: Rgba)
    ensures
        c == if hovered {
            text_color()
        } else {
            muted_color()
        },
{
    if hovered {
        text()
    } else {
        muted()
    }
}

/// The tint of a service's logo.
pub open spec fn logo_tint(p: Provider) -> Rgba {
    match p {
        Provider::Claude => opaque(217, 119, 87),
        Provider::Copilot | Provider::Codex => text_color(),
    }
}

/// The tint of a service's logo.
pub fn logo_color(p: Provider) -> (c: Rgba)
    ensures
        c == logo_tint(p),
{
    match p {
        Provider::Claude => from_rgb(217, 119, 87),
        Provider::Copilot | Provider::Codex => text(),
    }
}

} // verus!
