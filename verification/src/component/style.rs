//! Colors, per-state styles and themes.
//!
//! Colors are packed `ARGB (0xAARRGGBB)` words held in a `u32`. Brightness
//! adjustment works channel-wise: `darken` scales each RGB channel toward 0,
//! `lighten` moves each RGB channel toward 255, both by a factor given in
//! whole percent; the alpha channel is never touched.

use vstd::prelude::*;
use crate::component::ComponentState;

verus! {

/// The denominator of a `ColorFactor`: factors are whole percentages.
pub const FACTOR_SCALE: u32 = 100;

/// The factor applied by `Color::lighten` and `Color::darken`: a percentage
/// between 0 and 100 standing for a fraction of full brightness range.
#[derive(Debug, Clone, Copy, PartialEq, Eq, Structural)]
pub struct ColorFactor {
    pub factor: u32,
}

impl ColorFactor {
    /// Whether the factor is a valid percentage.
    pub open spec fn wf(&self) -> bool {
        self.factor <= 100
    }

    /// Constructor.
    pub fn new(factor: u32) -> (r: ColorFactor)
        requires
            factor <= 100,
        ensures
            r.factor == factor,
            r.wf(),
    {
        ColorFactor { factor }
    }

    /// Twice the default factor.
    pub fn double() -> (r: ColorFactor)
        ensures
            r.factor == 40,
            r.wf(),
    {
        ColorFactor { factor: 40 }
    }
}

impl Default for ColorFactor {
    /// The default adjustment factor: 20 percent.
    fn default() -> (r: Self)
        ensures
            r.factor == 20,
            r.wf(),
    {
        ColorFactor { factor: 20 }
    }
}

/// The alpha channel of a packed `ARGB` word.
pub open spec fn chan_a(v: u32) -> int {
    (v as int) / 0x1000000
}

/// The red channel of a packed `ARGB` word.
pub open spec fn chan_r(v: u32) -> int {
    ((v as int) / 0x10000) % 0x100
}

/// The green channel of a packed `ARGB` word.
pub open spec fn chan_g(v: u32) -> int {
    ((v as int) / 0x100) % 0x100
}

/// The blue channel of a packed `ARGB` word.
pub open spec fn chan_b(v: u32) -> int {
    (v as int) % 0x100
}

/// Packs four channel values (each in `[0, 255]`) into an `ARGB` word.
pub open spec fn pack_argb(a: int, r: int, g: int, b: int) -> int {
    a * 0x1000000 + r * 0x10000 + g * 0x100 + b
}

/// One RGB channel darkened by `factor` percent: the channel is scaled by
/// `(100 - factor) / 100`, truncating toward zero.
pub open spec fn darken_chan(c: int, factor: int) -> int {
    (c * (100 - factor)) / 100
}

/// One RGB channel lightened by `factor` percent: the channel is scaled by
/// `(100 - factor) / 100` and offset by `255 * factor / 100`, truncating
/// toward zero. This moves the channel toward 255 by the given fraction.
pub open spec fn lighten_chan(c: int, factor: int) -> int {
    (c * (100 - factor) + 255 * factor) / 100
}

/// A color used by components to draw controls, text and other GUI items,
/// packed in `ARGB (0xAARRGGBB)` format.
#[derive(Debug, Clone, Copy, PartialEq, Eq, Structural)]
pub struct Color {
    pub value: u32,
}

impl Color {
    /// Constructor.
    pub fn new(value: u32) -> (r: Self)
        ensures
            r.value == value,
    {
        Color { value }
    }

    /// The packed word with each RGB channel darkened by `factor` percent
    /// and the alpha channel kept.
    pub open spec fn spec_darken(&self, factor: int) -> int {
        pack_argb(
            chan_a(self.value),
            darken_chan(chan_r(self.value), factor),
            darken_chan(chan_g(self.value), factor),
            darken_chan(chan_b(self.value), factor),
        )
    }

    /// The packed word with each RGB channel lightened by `factor` percent
    /// and the alpha channel kept.
    pub open spec fn spec_lighten(&self, factor: int) -> int {
        pack_argb(
            chan_a(self.value),
            lighten_chan(chan_r(self.value), factor),
            lighten_chan(chan_g(self.value), factor),
            lighten_chan(chan_b(self.value), factor),
        )
    }

    /// Darken the color: scale each RGB channel toward zero by the factor.
    pub fn darken(&self, color_factor: ColorFactor) -> (r: Color)
        requires
            color_factor.wf(),
        ensures
            r.value == self.spec_darken(color_factor.factor as int),
    {
        let a = self.value / 0x1000000;
        let red = (self.value / 0x10000) % 0x100;
        let g = (self.value / 0x100) % 0x100;
        let b = self.value % 0x100;
        let s = 100 - color_factor.factor;
        proof {
            assert(red * s <= 255 * 100 && g * s <= 255 * 100 && b * s <= 255 * 100)
                by (nonlinear_arith)
                requires red <= 255 && g <= 255 && b <= 255 && s <= 100;
        }
        let nr = (red * s) / 100;
        let ng = (g * s) / 100;
        let nb = (b * s) / 100;
        Color { value: a * 0x1000000 + nr * 0x10000 + ng * 0x100 + nb }
    }

    /// Lighten the color: move each RGB channel toward 255 by the factor.
    pub fn lighten(&self, color_factor: ColorFactor) -> (r: Color)
        requires
            color_factor.wf(),
        ensures
            r.value == self.spec_lighten(color_factor.factor as int),
    {
        let a = self.value / 0x1000000;
        let red = (self.value / 0x10000) % 0x100;
        let g = (self.value / 0x100) % 0x100;
        let b = self.value % 0x100;
        let s = 100 - color_factor.factor;
        let off = 255 * color_factor.factor;
        proof {
            assert(red * s + off <= 255 * 100 && g * s + off <= 255 * 100 && b * s + off <= 255
                * 100) by (nonlinear_arith)
                requires red <= 255 && g <= 255 && b <= 255 && s == 100 - color_factor.factor
                    && off == 255 * color_factor.factor && color_factor.factor <= 100;
        }
        let nr = (red * s + off) / 100;
        let ng = (g * s + off) / 100;
        let nb = (b * s + off) / 100;
        Color { value: a * 0x1000000 + nr * 0x10000 + ng * 0x100 + nb }
    }
}

/// A per-state palette: the colors and border width a component is drawn
/// with while it is in one `ComponentState`.
#[derive(Debug, Clone, Copy, PartialEq, Eq, Structural)]
pub struct ComponentStyle {
    /// Foreground text color in a component where text can be edited.
    pub edit_text_color: Color,
    /// Background color in a component where text can be edited.
    pub edit_back_color: Color,
    /// Foreground color, used for text on components such as a button.
    pub fore_color: Color,
    pub back_color: Color,
    pub cursor_color: Color,
    pub border_color: Color,
    pub border_width: usize,
}

impl ComponentStyle {
    /// The style built by `ComponentStyle::new` from packed color words.
    pub open spec fn spec_new(
        text_color: u32,
        fore_color: u32,
        back_color: u32,
        cursor_color: u32,
        border_color: u32,
        border_width: usize,
    ) -> ComponentStyle {
        ComponentStyle {
            edit_text_color: Color { value: text_color },
            edit_back_color: Color { value: back_color },
            fore_color: Color { value: fore_color },
            back_color: Color { value: back_color },
            cursor_color: Color { value: cursor_color },
            border_color: Color { value: border_color },
            border_width,
        }
    }

    /// Constructor. The editable-background color is shared with the
    /// general background color.
    pub fn new(
        text_color: u32,
        fore_color: u32,
        back_color: u32,
        cursor_color: u32,
        border_color: u32,
        border_width: usize,
    ) -> (r: Self)
        ensures
            r == ComponentStyle::spec_new(
                text_color,
                fore_color,
                back_color,
                cursor_color,
                border_color,
                border_width,
            ),
    {
        ComponentStyle {
            edit_text_color: Color { value: text_color },
            edit_back_color: Color { value: back_color },
            fore_color: Color { value: fore_color },
            back_color: Color { value: back_color },
            cursor_color: Color { value: cursor_color },
            border_color: Color { value: border_color },
            border_width,
        }
    }

    /// The style with every color darkened by `factor` percent and the
    /// border width kept.
    pub open spec fn spec_darken(&self, factor: int) -> ComponentStyle {
        ComponentStyle {
            edit_text_color: Color { value: self.edit_text_color.spec_darken(factor) as u32 },
            edit_back_color: Color { value: self.edit_back_color.spec_darken(factor) as u32 },
            fore_color: Color { value: self.fore_color.spec_darken(factor) as u32 },
            back_color: Color { value: self.back_color.spec_darken(factor) as u32 },
            cursor_color: Color { value: self.cursor_color.spec_darken(factor) as u32 },
            border_color: Color { value: self.border_color.spec_darken(factor) as u32 },
            border_width: self.border_width,
        }
    }

    /// The style with every color lightened by `factor` percent and the
    /// border width kept.
    pub open spec fn spec_lighten(&self, factor: int) -> ComponentStyle {
        ComponentStyle {
            edit_text_color: Color { value: self.edit_text_color.spec_lighten(factor) as u32 },
            edit_back_color: Color { value: self.edit_back_color.spec_lighten(factor) as u32 },
            fore_color: Color { value: self.fore_color.spec_lighten(factor) as u32 },
            back_color: Color { value: self.back_color.spec_lighten(factor) as u32 },
            cursor_color: Color { value: self.cursor_color.spec_lighten(factor) as u32 },
            border_color: Color { value: self.border_color.spec_lighten(factor) as u32 },
            border_width: self.border_width,
        }
    }

    /// Every color darkened by the default factor.
    pub fn darken(&self) -> (r: ComponentStyle)
        ensures
            r == self.spec_darken(20),
    {
        let f = ColorFactor::default();
        let r = ComponentStyle {
            edit_text_color: self.edit_text_color.darken(f),
            edit_back_color: self.edit_back_color.darken(f),
            fore_color: self.fore_color.darken(f),
            back_color: self.back_color.darken(f),
            cursor_color: self.cursor_color.darken(f),
            border_color: self.border_color.darken(f),
            border_width: self.border_width,
        };
        r
    }

    /// Every color lightened by the default factor.
    pub fn lighten(&self) -> (r: ComponentStyle)
        ensures
            r == self.spec_lighten(20),
    {
        let f = ColorFactor::default();
        let r = ComponentStyle {
            edit_text_color: self.edit_text_color.lighten(f),
            edit_back_color: self.edit_back_color.lighten(f),
            fore_color: self.fore_color.lighten(f),
            back_color: self.back_color.lighten(f),
            cursor_color: self.cursor_color.lighten(f),
            border_color: self.border_color.lighten(f),
            border_width: self.border_width,
        };
        r
    }

    /// The base style of an idle component.
    pub open spec fn spec_style_active() -> ComponentStyle {
        ComponentStyle {
            edit_text_color: Color { value: 0xFF222222 },
            edit_back_color: Color { value: 0xFFFFFFFF },
            fore_color: Color { value: 0xFFFF3333 },
            back_color: Color { value: 0xFF0033CC },
            cursor_color: Color { value: 0xFF000000 },
            border_color: Color { value: 0xFF000000 },
            border_width: 2,
        }
    }

    /// The base style of an idle component.
    pub fn style_active() -> (r: ComponentStyle)
        ensures
            r == ComponentStyle::spec_style_active(),
    {
        ComponentStyle {
            edit_text_color: Color { value: 0xFF222222 },
            edit_back_color: Color { value: 0xFFFFFFFF },
            fore_color: Color { value: 0xFFFF3333 },
            back_color: Color { value: 0xFF0033CC },
            cursor_color: Color { value: 0xFF000000 },
            border_color: Color { value: 0xFF000000 },
            border_width: 2,
        }
    }

    /// The base style of a component under the pointer.
    pub open spec fn spec_style_hovered() -> ComponentStyle {
        ComponentStyle {
            edit_text_color: Color { value: 0xFF000000 },
            edit_back_color: Color { value: 0xFFFFFFFF },
            fore_color: Color { value: 0xFFFF0000 },
            back_color: Color { value: 0xFF0077CC },
            cursor_color: Color { value: 0xFF000000 },
            border_color: Color { value: 0xFF000000 },
            border_width: 2,
        }
    }

    /// The base style of a component under the pointer.
    pub fn style_hovered() -> (r: ComponentStyle)
        ensures
            r == ComponentStyle::spec_style_hovered(),
    {
        ComponentStyle {
            edit_text_color: Color { value: 0xFF000000 },
            edit_back_color: Color { value: 0xFFFFFFFF },
            fore_color: Color { value: 0xFFFF0000 },
            back_color: Color { value: 0xFF0077CC },
            cursor_color: Color { value: 0xFF000000 },
            border_color: Color { value: 0xFF000000 },
            border_width: 2,
        }
    }

    /// The base style of a component held pressed.
    pub open spec fn spec_style_pressed() -> ComponentStyle {
        ComponentStyle {
            edit_text_color: Color { value: 0xFF000000 },
            edit_back_color: Color { value: 0xFFFFFFFF },
            fore_color: Color { value: 0xFF000000 },
            back_color: Color { value: 0xFF0099CC },
            cursor_color: Color { value: 0xFF000000 },
            border_color: Color { value: 0xFF0077CC },
            border_width: 2,
        }
    }

    /// The base style of a component held pressed.
    pub fn style_pressed() -> (r: ComponentStyle)
        ensures
            r == ComponentStyle::spec_style_pressed(),
    {
        ComponentStyle {
            edit_text_color: Color { value: 0xFF000000 },
            edit_back_color: Color { value: 0xFFFFFFFF },
            fore_color: Color { value: 0xFF000000 },
            back_color: Color { value: 0xFF0099CC },
            cursor_color: Color { value: 0xFF000000 },
            border_color: Color { value: 0xFF0077CC },
            border_width: 2,
        }
    }

    /// The base style of a component holding keyboard focus.
    pub open spec fn spec_style_focused() -> ComponentStyle {
        ComponentStyle {
            edit_text_color: Color { value: 0xFF000000 },
            edit_back_color: Color { value: 0xFFFFFFFF },
            fore_color: Color { value: 0xFF000000 },
            back_color: Color { value: 0xFF0099CC },
            cursor_color: Color { value: 0xFF000000 },
            border_color: Color { value: 0xFF000000 },
            border_width: 2,
        }
    }

    /// The base style of a component holding keyboard focus.
    pub fn style_focused() -> (r: ComponentStyle)
        ensures
            r == ComponentStyle::spec_style_focused(),
    {
        ComponentStyle {
            edit_text_color: Color { value: 0xFF000000 },
            edit_back_color: Color { value: 0xFFFFFFFF },
            fore_color: Color { value: 0xFF000000 },
            back_color: Color { value: 0xFF0099CC },
            cursor_color: Color { value: 0xFF000000 },
            border_color: Color { value: 0xFF000000 },
            border_width: 2,
        }
    }

    /// The base style of a component that ignores input.
    pub open spec fn spec_style_disabled() -> ComponentStyle {
        ComponentStyle {
            edit_text_color: Color { value: 0xFF000000 },
            edit_back_color: Color { value: 0xFFFFFFFF },
            fore_color: Color { value: 0xFF000000 },
            back_color: Color { value: 0xFFCCCCCC },
            cursor_color: Color { value: 0xFF000000 },
            border_color: Color { value: 0xFF000000 },
            border_width: 2,
        }
    }

    /// The base style of a component that ignores input.
    pub fn style_disabled() -> (r: ComponentStyle)
        ensures
            r == ComponentStyle::spec_style_disabled(),
    {
        ComponentStyle {
            edit_text_color: Color { value: 0xFF000000 },
            edit_back_color: Color { value: 0xFFFFFFFF },
            fore_color: Color { value: 0xFF000000 },
            back_color: Color { value: 0xFFCCCCCC },
            cursor_color: Color { value: 0xFF000000 },
            border_color: Color { value: 0xFF000000 },
            border_width: 2,
        }
    }

    /// The palette used for a given state when no theme overrides it.
    pub open spec fn spec_default_for(state: ComponentState) -> ComponentStyle {
        match state {
            ComponentState::Active => ComponentStyle::spec_style_active().spec_darken(20),
            ComponentState::Hovered => ComponentStyle::spec_style_active(),
            ComponentState::Pressed => ComponentStyle::spec_style_active().spec_lighten(20),
            ComponentState::Focused => ComponentStyle::spec_style_focused(),
            ComponentState::Disabled => ComponentStyle::spec_style_disabled(),
        }
    }

    /// The palette used for a given state when no theme overrides it.
    pub fn default_for(state: &ComponentState) -> (r: Self)
        ensures
            r == ComponentStyle::spec_default_for(*state),
    {
        match state {
            ComponentState::Active => ComponentStyle::style_active().darken(),
            ComponentState::Hovered => ComponentStyle::style_active(),
            ComponentState::Pressed => ComponentStyle::style_active().lighten(),
            ComponentState::Focused => ComponentStyle::style_focused(),
            ComponentState::Disabled => ComponentStyle::style_disabled(),
        }
    }
}

impl Default for ComponentStyle {
    /// The base style of an idle component.
    fn default() -> (r: Self)
        ensures
            r == ComponentStyle::spec_style_active(),
    {
        ComponentStyle::style_active()
    }
}

/// A theme maps each possible `ComponentState` to the palette a component in
/// that state is drawn with. `style_for` must be a pure function of the
/// theme and the state: its result is pinned to `spec_style_for`, so two
/// calls with the same state always yield identical palettes.
pub trait ComponentTheme {
    /// The palette this theme assigns to `state`.
    spec fn spec_style_for(&self, state: ComponentState) -> ComponentStyle;

    /// Look up the palette for `state`.
    fn style_for(&self, state: &ComponentState) -> (s: ComponentStyle)
        ensures
            s == self.spec_style_for(*state),
    ;
}

/// A theme given as plain data: one palette per component state.
#[derive(Debug, Clone, Copy, PartialEq, Eq, Structural)]
pub struct Theme {
    pub active: ComponentStyle,
    pub hovered: ComponentStyle,
    pub pressed: ComponentStyle,
    pub focused: ComponentStyle,
    pub disabled: ComponentStyle,
}

impl ComponentTheme for Theme {
    open spec fn spec_style_for(&self, state: ComponentState) -> ComponentStyle {
        match state {
            ComponentState::Active => self.active,
            ComponentState::Hovered => self.hovered,
            ComponentState::Pressed => self.pressed,
            ComponentState::Focused => self.focused,
            ComponentState::Disabled => self.disabled,
        }
    }

    fn style_for(&self, state: &ComponentState) -> (s: ComponentStyle) {
        match state {
            ComponentState::Active => self.active,
            ComponentState::Hovered => self.hovered,
            ComponentState::Pressed => self.pressed,
            ComponentState::Focused => self.focused,
            ComponentState::Disabled => self.disabled,
        }
    }
}

/// The default theme.
#[derive(Debug, Clone, Copy, PartialEq, Eq, Structural)]
pub struct DefaultComponentTheme;

impl DefaultComponentTheme {
    /// The default palette for each state, as plain theme data.
    pub open spec fn spec_theme() -> Theme {
        Theme {
            active: ComponentStyle::spec_style_active(),
            hovered: ComponentStyle::spec_style_active().spec_lighten(20),
            pressed: ComponentStyle::spec_style_pressed().spec_darken(20),
            focused: ComponentStyle::spec_style_focused(),
            disabled: ComponentStyle::spec_style_disabled(),
        }
    }

    /// The default palette for each state, as plain theme data.
    pub fn theme() -> (t: Theme)
        ensures
            t == DefaultComponentTheme::spec_theme(),
    {
        Theme {
            active: ComponentStyle::style_active(),
            hovered: ComponentStyle::style_active().lighten(),
            pressed: ComponentStyle::style_pressed().darken(),
            focused: ComponentStyle::style_focused(),
            disabled: ComponentStyle::style_disabled(),
        }
    }
}

impl Default for DefaultComponentTheme {
    fn default() -> (r: Self)
        ensures
            r == (DefaultComponentTheme),
    {
        DefaultComponentTheme
    }
}

impl ComponentTheme for DefaultComponentTheme {
    open spec fn spec_style_for(&self, state: ComponentState) -> ComponentStyle {
        DefaultComponentTheme::spec_theme().spec_style_for(state)
    }

    fn style_for(&self, state: &ComponentState) -> (s: ComponentStyle) {
        DefaultComponentTheme::theme().style_for(state)
    }
}

/// Darkening then lightening one RGB channel with the default factor restores
/// the channel up to one unit of integer rounding error, for channels in the
/// mid-range band where the two adjustments cancel out.
pub proof fn lemma_darken_lighten_roundtrip_channel(c: int)
    requires
        136 <= c <= 144,
    ensures
        lighten_chan(darken_chan(c, 20), 20) - c <= 1,
        c - lighten_chan(darken_chan(c, 20), 20) <= 1,
{
    assert(darken_chan(c, 20) == (c * 80) / 100);
    assert(lighten_chan(darken_chan(c, 20), 20) == (((c * 80) / 100) * 80 + 255 * 20) / 100);
}

} // verus!
