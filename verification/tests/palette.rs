use eframe::egui::{Color32, ColorImage};
use usage_widget::double::Double;
use usage_widget::palette::{
    bg, button_color, err, level_color, logo_color, logo_pixels, muted, text, track, Rgba, LOGO_PX,
};
use usage_widget::providers::Provider;

fn rgba(r: u8, g: u8, b: u8, a: u8) -> Rgba {
    Rgba { r, g, b, a }
}

fn level(x: f64) -> Rgba {
    level_color(Double { bits: x.to_bits() })
}

#[test]
fn colors_of_the_card() {
    assert_eq!(bg(), rgba(24, 26, 32, 255));
    assert_eq!(text(), rgba(232, 232, 232, 255));
    assert_eq!(muted(), rgba(135, 135, 135, 255));
    assert_eq!(track(), rgba(58, 58, 58, 255));
    assert_eq!(err(), rgba(235, 110, 110, 255));
}

#[test]
fn levels() {
    let green = rgba(82, 190, 128, 255);
    let amber = rgba(232, 175, 64, 255);
    let red = rgba(230, 88, 88, 255);
    assert_eq!(level(-1.0), green);
    assert_eq!(level(0.0), green);
    assert_eq!(level(59.999), green);
    assert_eq!(level(60.0), amber);
    assert_eq!(level(84.999), amber);
    assert_eq!(level(85.0), red);
    assert_eq!(level(120.0), red);
    assert_eq!(level(f64::INFINITY), red);
    assert_eq!(level(f64::NAN), red);
}

#[test]
fn levels_only_worsen() {
    let rank = |c: Rgba| match (c.r, c.g) {
        (82, _) => 0,
        (232, _) => 1,
        _ => 2,
    };
    for i in 0..200 {
        let x = i as f64 * 0.7;
        assert!(rank(level(x)) <= rank(level(x + 0.7)));
    }
}

#[test]
fn buttons_light_up() {
    assert_eq!(button_color(true), text());
    assert_eq!(button_color(false), muted());
}

#[test]
fn logo_tints() {
    assert_eq!(logo_color(Provider::Claude), rgba(217, 119, 87, 255));
    assert_eq!(logo_color(Provider::Copilot), rgba(232, 232, 232, 255));
    assert_eq!(logo_color(Provider::Codex), rgba(232, 232, 232, 255));
}

#[test]
fn logo_is_white_at_every_opacity() {
    let mask: Vec<u8> = (0..LOGO_PX * LOGO_PX).map(|i| (i % 256) as u8).collect();
    let pixels = logo_pixels(&mask);
    assert_eq!(pixels.len(), 4096);
    for (p, a) in pixels.iter().zip(mask.iter()) {
        assert_eq!(*p, rgba(*a, *a, *a, *a));
    }
}

#[test]
fn logo_is_the_image_of_its_mask() {
    let mask: Vec<u8> = (0..LOGO_PX * LOGO_PX).map(|i| (i * 7 % 256) as u8).collect();
    let flat: Vec<u8> = mask.iter().flat_map(|&a| [255, 255, 255, a]).collect();
    let image = ColorImage::from_rgba_unmultiplied([LOGO_PX, LOGO_PX], &flat);
    let drawn: Vec<Color32> = logo_pixels(&mask)
        .iter()
        .map(|p| Color32::from_rgba_premultiplied(p.r, p.g, p.b, p.a))
        .collect();
    assert_eq!(image.pixels, drawn);
}

#[test]
fn premultiplying_rounds_in_fixed_point() {
    for v in 0..=255u32 {
        for a in 0..=255u32 {
            let p = v * a + 128;
            let expected = ((p + p / 256) / 256) as u8;
            let image = ColorImage::from_rgba_unmultiplied([1, 1], &[v as u8, 0, 255, a as u8]);
            assert_eq!(image.pixels[0].to_array(), [expected, 0, a as u8, a as u8]);
        }
    }
}
