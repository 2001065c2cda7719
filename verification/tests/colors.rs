use grapes::colors::color::{Color, ColorU32};
use grapes::colors::modify::{alpha_blend, is_transparent, set_alpha, swap_alpha};
use grapes::colors::presets::GrapesColors;

#[test]
pub fn color_conversions() {
    let base = 0x272FA3FF;
    let as_clr_rgba = ColorU32::Rgba(base);
    let as_clr_argb = ColorU32::Argb(swap_alpha(base));
    assert_eq!(Color::from(as_clr_rgba), Color::new(0x27, 0x2F, 0xA3, 0xFF));
    assert_eq!(Color::from(as_clr_argb), Color::new(0x27, 0x2F, 0xA3, 0xFF));
    let diff_alpha = set_alpha(swap_alpha(base), 0xAA);
    assert_eq!(
        Color::from_argb(diff_alpha),
        Color::new(0x27, 0x2F, 0xA3, 0xAA)
    );

    let teal: u32 = 4278222976;
    let clr = Color::from_argb(teal);
    assert_eq!(Color::from(GrapesColors::Teal), clr);

    let base_opaque = Color::from_rgba(0x272FA3FF);
    let base_transparent = Color::from_rgba(0x272FA300);
    assert!(!is_transparent(base_opaque.into()));
    assert!(is_transparent(base_transparent.into()));
}

#[test]
fn channels_read_back() {
    let c = Color::new(1, 2, 3, 4);
    assert_eq!((c.r(), c.g(), c.b(), c.a()), (1, 2, 3, 4));
}

#[test]
fn setters_change_one_channel() {
    let mut c = Color::new(1, 2, 3, 4);
    c.set_r(10);
    assert_eq!(c, Color::new(10, 2, 3, 4));
    c.set_g(20);
    assert_eq!(c, Color::new(10, 20, 3, 4));
    c.set_b(30);
    assert_eq!(c, Color::new(10, 20, 30, 4));
    c.set_alpha(40);
    assert_eq!(c, Color::new(10, 20, 30, 40));
}

#[test]
fn default_color_is_all_zero() {
    assert_eq!(Color::default(), Color::new(0, 0, 0, 0));
}

#[test]
fn decode_rgba_splits_bytes() {
    assert_eq!(Color::decode_rgba(0x11223344), Color::new(0x11, 0x22, 0x33, 0x44));
    assert_eq!(Color::decode_rgba(0), Color::new(0, 0, 0, 0));
    assert_eq!(Color::decode_rgba(u32::MAX), Color::new(255, 255, 255, 255));
}

#[test]
fn decode_argb_splits_bytes() {
    assert_eq!(Color::decode_argb(0x11223344), Color::new(0x22, 0x33, 0x44, 0x11));
}

#[test]
fn from_rgba_reads_one_of_two_byte_orders() {
    let c = Color::from_rgba(0x11223344);
    assert!(c == Color::new(0x11, 0x22, 0x33, 0x44) || c == Color::new(0x44, 0x33, 0x22, 0x11));
    assert_ne!(c, Color::new(0x11, 0x11, 0x11, 0x11));
}

#[test]
fn from_argb_reads_one_of_two_byte_orders() {
    let c = Color::from_argb(0x11223344);
    assert!(c == Color::new(0x22, 0x33, 0x44, 0x11) || c == Color::new(0x33, 0x22, 0x11, 0x44));
}

#[test]
fn to_argb_packs_in_x11_order() {
    assert_eq!(Color::new(0x27, 0x2F, 0xA3, 0xFF).to_argb(), 0xFF272FA3);
    let packed: u32 = Color::new(1, 2, 3, 4).into();
    assert_eq!(packed, 0x04010203);
}

#[test]
fn pack_then_decode_is_identity() {
    let c = Color::new(9, 8, 7, 6);
    assert_eq!(Color::decode_argb(c.to_argb()), c);
}

#[test]
fn color_from_array() {
    assert_eq!(Color::from([5u8, 6, 7, 8]), Color::new(5, 6, 7, 8));
}

#[test]
fn color_from_word_is_argb() {
    let c = Color::from(0xFF008080u32);
    assert_eq!(c, Color::from_argb(0xFF008080));
}

#[test]
fn set_alpha_replaces_top_byte() {
    assert_eq!(set_alpha(0xFF272FA3, 0xAA), 0xAA272FA3);
    assert_eq!(set_alpha(0x00000000, 0xFF), 0xFF000000);
    assert_eq!(set_alpha(0x12345678, 0), 0x00345678);
}

#[test]
fn swap_alpha_rotates_lowest_byte_to_top() {
    assert_eq!(swap_alpha(0x272FA3FF), 0xFF272FA3);
    assert_eq!(swap_alpha(0x11223344), 0x44112233);
}

#[test]
fn is_transparent_looks_at_top_byte() {
    assert!(is_transparent(0x00FFFFFF));
    assert!(!is_transparent(0x01000000));
}

#[test]
fn alpha_blend_opaque_foreground_wins() {
    assert_eq!(alpha_blend(0xFF102030, 0xFF405060), 0xFF102030);
}

#[test]
fn alpha_blend_clear_foreground_keeps_background() {
    assert_eq!(alpha_blend(0x00102030, 0x77405060), 0xFF405060);
}

#[test]
fn alpha_blend_half_alpha() {
    // alpha 0x80: weights 129 and 128 over 256
    // red: (129 * 200 + 128 * 100) / 256 = 150
    // green: (129 * 0 + 128 * 255) / 256 = 127
    // blue: (129 * 255 + 128 * 0) / 256 = 128
    let fg = 0x80_C8_00_FF;
    let bg = 0xFF_64_FF_00;
    assert_eq!(alpha_blend(fg, bg), 0xFF_96_7F_80);
}

#[test]
fn preset_codes() {
    assert_eq!(GrapesColors::Black.code(), 0x000000FF);
    assert_eq!(GrapesColors::White.code(), 0xFFFFFFFF);
    assert_eq!(GrapesColors::GrapesBlack.code(), 0x222222FF);
    assert_eq!(GrapesColors::GrapesWhite.code(), 0xFFFFEEFF);
    assert_eq!(GrapesColors::LightGray.code(), 0x6D6D6DFF);
    assert_eq!(GrapesColors::Gray.code(), 0x999999FF);
    assert_eq!(GrapesColors::DarkGray.code(), 0x5E5E5EFF);
    assert_eq!(GrapesColors::Red.code(), 0xFF0000FF);
    assert_eq!(GrapesColors::GrapesRed.code(), 0x8C0707FF);
    assert_eq!(GrapesColors::Green.code(), 0x00FF00FF);
    assert_eq!(GrapesColors::GrapesGreen.code(), 0x319939FF);
    assert_eq!(GrapesColors::DBlue.code(), 0x0000FFFF);
    assert_eq!(GrapesColors::GrapesBlue.code(), 0x272FA3FF);
    assert_eq!(GrapesColors::Purple.code(), 0x5F1D99FF);
    assert_eq!(GrapesColors::Teal.code(), 0x008080FF);
    assert_eq!(GrapesColors::Maroon.code(), 0x550000FF);
    assert_eq!(GrapesColors::Orange.code(), 0xCF8608FF);
    assert_eq!(GrapesColors::Yellow.code(), 0xD4C222FF);
    assert_eq!(GrapesColors::Transparent.code(), 0);
}

#[test]
fn preset_into_word_is_x11_order() {
    let w: u32 = GrapesColors::Teal.into();
    assert_eq!(w, Color::from(GrapesColors::Teal).to_argb());
}
