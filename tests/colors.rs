use gpui_web::colors::{rgb, Colors, DefaultAppearance, GlobalColors, Rgba, WindowAppearance, DefaultColors};

#[test]
fn rgb_splits_channels() {
    assert_eq!(rgb(0x0a84ff), Rgba { r: 0x0a, g: 0x84, b: 0xff, a: 0xff });
    assert_eq!(rgb(0xff_123456), Rgba { r: 0x12, g: 0x34, b: 0x56, a: 0xff });
}

#[test]
fn dark_palette_values() {
    let c = Colors::dark();
    assert_eq!(c.text, rgb(0xffffff));
    assert_eq!(c.background, rgb(0x1e1e1e));
    assert_eq!(c.accent, rgb(0x0a84ff));
    assert_eq!(c.error_hover, rgb(0xff6961));
}

#[test]
fn light_palette_values() {
    let c = Colors::light();
    assert_eq!(c.text, rgb(0x1d1d1f));
    assert_eq!(c.surface, rgb(0xf5f5f7));
    assert_eq!(c.accent_active, rgb(0x0058d0));
    assert_eq!(c.warning_hover, rgb(0xe68f09));
    assert_eq!(Colors::default(), c);
}

#[test]
fn palette_follows_appearance() {
    assert_eq!(Colors::for_appearance(WindowAppearance::Light), Colors::light());
    assert_eq!(Colors::for_appearance(WindowAppearance::VibrantLight), Colors::light());
    assert_eq!(Colors::for_appearance(WindowAppearance::Dark), Colors::dark());
    assert_eq!(Colors::for_appearance(WindowAppearance::VibrantDark), Colors::dark());
}

#[test]
fn default_appearance_from_window() {
    assert_eq!(DefaultAppearance::from(WindowAppearance::VibrantDark), DefaultAppearance::Dark);
    assert_eq!(DefaultAppearance::from(WindowAppearance::Light), DefaultAppearance::Light);
    assert_eq!(DefaultAppearance::default(), DefaultAppearance::Light);
}

#[test]
fn global_palette_is_shared() {
    let global = GlobalColors::new(Colors::dark());
    assert_eq!(**Colors::get_global(&global), Colors::dark());
    assert_eq!(**global.default_colors(), Colors::dark());
}
