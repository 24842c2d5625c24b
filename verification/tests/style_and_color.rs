//! Color math and theme behavior.

use structura::component::style::{
    Color, ColorFactor, ComponentStyle, ComponentTheme, DefaultComponentTheme,
};
use structura::component::ComponentState;

#[test]
fn color_new_keeps_value() {
    let c = Color::new(0xFF123456);
    assert_eq!(c.value, 0xFF123456);
}

#[test]
fn darken_scales_each_channel_toward_zero() {
    // Channel 140 darkened by 20 percent: 140 * 80 / 100 = 112.
    let c = Color::new(0xFF8C8C8C);
    let d = c.darken(ColorFactor::default());
    assert_eq!(d.value, 0xFF707070);
}

#[test]
fn lighten_moves_each_channel_toward_255() {
    // Channel 0 lightened by 20 percent: 255 * 20 / 100 = 51.
    let c = Color::new(0xFF000000);
    let l = c.lighten(ColorFactor::default());
    assert_eq!(l.value, 0xFF333333);
}

#[test]
fn alpha_channel_is_never_touched() {
    let c = Color::new(0x7F404040);
    assert_eq!(c.darken(ColorFactor::default()).value >> 24, 0x7F);
    assert_eq!(c.lighten(ColorFactor::default()).value >> 24, 0x7F);
}

#[test]
fn darken_then_lighten_restores_mid_range_channels() {
    // Channels at 140 survive the round trip exactly; the law allows an
    // error of one unit per channel on the mid-range band.
    let c = Color::new(0xFF8C8C8C);
    let rt = c.darken(ColorFactor::default()).lighten(ColorFactor::default());
    for shift in [0u32, 8, 16] {
        let before = (c.value >> shift) & 0xFF;
        let after = (rt.value >> shift) & 0xFF;
        let diff = if before > after { before - after } else { after - before };
        assert!(diff <= 1);
    }
}

#[test]
fn color_factor_default_and_double() {
    assert_eq!(ColorFactor::default().factor, 20);
    assert_eq!(ColorFactor::double().factor, 40);
}

#[test]
fn style_for_is_pure() {
    // Two calls with the same state yield identical palettes.
    let theme = DefaultComponentTheme::theme();
    for state in [
        ComponentState::Active,
        ComponentState::Hovered,
        ComponentState::Pressed,
        ComponentState::Focused,
        ComponentState::Disabled,
    ] {
        let a = theme.style_for(&state);
        let b = theme.style_for(&state);
        assert_eq!(a, b);
    }
}

#[test]
fn default_theme_maps_states_to_distinct_backgrounds() {
    let theme = DefaultComponentTheme::theme();
    let active = theme.style_for(&ComponentState::Active);
    let disabled = theme.style_for(&ComponentState::Disabled);
    assert_eq!(active.back_color.value, 0xFF0033CC);
    assert_eq!(disabled.back_color.value, 0xFFCCCCCC);
}

#[test]
fn style_new_shares_background_with_edit_background() {
    let s = ComponentStyle::new(0x01, 0x02, 0x03, 0x04, 0x05, 2);
    assert_eq!(s.edit_back_color.value, 0x03);
    assert_eq!(s.back_color.value, 0x03);
    assert_eq!(s.edit_text_color.value, 0x01);
    assert_eq!(s.fore_color.value, 0x02);
    assert_eq!(s.cursor_color.value, 0x04);
    assert_eq!(s.border_color.value, 0x05);
    assert_eq!(s.border_width, 2);
}

#[test]
fn style_darken_keeps_border_width() {
    let s = ComponentStyle::style_active();
    assert_eq!(s.darken().border_width, s.border_width);
    assert_eq!(s.lighten().border_width, s.border_width);
}

#[test]
fn default_for_follows_the_fixed_palette() {
    let hovered = ComponentStyle::default_for(&ComponentState::Hovered);
    assert_eq!(hovered, ComponentStyle::style_active());
    let active = ComponentStyle::default_for(&ComponentState::Active);
    assert_eq!(active, ComponentStyle::style_active().darken());
}
