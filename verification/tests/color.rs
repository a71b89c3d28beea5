use procmod_overlay::Color;

#[test]
fn rgb_sets_full_alpha() {
    let c = Color::rgb(10, 20, 30);
    assert_eq!(c.a, 255);
}

#[test]
fn rgba_preserves_all_channels() {
    let c = Color::rgba(10, 20, 30, 40);
    assert_eq!((c.r, c.g, c.b, c.a), (10, 20, 30, 40));
}

#[test]
fn constants_are_correct() {
    assert_eq!(Color::red(), Color::rgb(255, 0, 0));
    assert_eq!(Color::transparent(), Color::rgba(0, 0, 0, 0));
}

#[test]
fn named_colors_have_their_channels() {
    assert_eq!(Color::green(), Color::rgb(0, 255, 0));
    assert_eq!(Color::blue(), Color::rgb(0, 0, 255));
    assert_eq!(Color::white(), Color::rgb(255, 255, 255));
    assert_eq!(Color::black(), Color::rgb(0, 0, 0));
    assert_eq!(Color::yellow(), Color::rgb(255, 255, 0));
    assert_eq!(Color::cyan(), Color::rgb(0, 255, 255));
    assert_eq!(Color::magenta(), Color::rgb(255, 0, 255));
    assert_eq!(Color::black().a, 255);
    assert_eq!(Color::transparent().a, 0);
}

#[test]
fn rgb_is_rgba_with_opaque_alpha() {
    for (r, g, b) in [(0u8, 0u8, 0u8), (1, 2, 3), (255, 128, 7)] {
        assert_eq!(Color::rgb(r, g, b), Color::rgba(r, g, b, 255));
    }
    assert_ne!(Color::rgb(1, 2, 3), Color::rgba(1, 2, 3, 254));
}
