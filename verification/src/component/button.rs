//! A basic clickable button with a text label.
//!
//! The button tracks its own `ComponentState` from mouse input, hit-testing
//! the pointer against its axis-aligned bounding box. While the pointer
//! stays pressed after entering the box, a drag flag keeps the pressed
//! visual even if the pointer leaves the box mid-drag. Releasing inside the
//! box while pressed or dragging emits a `Clicked` event exactly once; every
//! mouse event with the pointer over the box emits a `MouseOver` event.

use vstd::prelude::*;
use crate::component::ComponentState;
use crate::component::style::{ComponentTheme, Theme};
use crate::component::text::str_chars;
use crate::event::{MouseInput, UiEvent};
use crate::font::FontMetrics;
use crate::geometry::{Point, Size, sat_add_i64, spec_contains, spec_sat_add_i64};
use crate::primitive::{blit_post, draw_border_rect, fill_post, fill_rect, ring_post};
use crate::view::BufferContext;

verus! {

/// A basic button component with a text label.
pub struct Button {
    /// Identifies this button in the `UiEvent`s it emits.
    pub id: u64,
    pub position: Point,
    pub size: Size,
    pub text: String,
    pub component_state: ComponentState,
    pub mouse_dragging: bool,
}

/// Whether the pointer position of `input` lies inside the button's box.
pub open spec fn spec_inside(b: Button, input: MouseInput) -> bool {
    spec_contains(
        b.position.x as int,
        b.position.y as int,
        b.size.width as int,
        b.size.height as int,
        input.position.x as int,
        input.position.y as int,
    )
}

/// Whether handling `input` fires the button's click: the button accepts
/// input, the pointer is released inside the box, and the button was either
/// freshly pressed or already being dragged.
pub open spec fn spec_clicked(b: Button, input: MouseInput) -> bool {
    &&& b.component_state != ComponentState::Disabled
    &&& spec_inside(b, input)
    &&& input.just_released
    &&& (input.pressed || b.mouse_dragging)
}

/// Whether handling `input` emits a `MouseOver` notification: the button
/// accepts input and the pointer is over the box.
pub open spec fn spec_mouse_over(b: Button, input: MouseInput) -> bool {
    &&& b.component_state != ComponentState::Disabled
    &&& spec_inside(b, input)
}

/// The button after handling one mouse event. While a drag is in progress
/// the pressed visual persists until the release, even if the pointer has
/// left the box.
pub open spec fn spec_after_mouse(b: Button, input: MouseInput) -> Button {
    if b.component_state == ComponentState::Disabled {
        b
    } else if input.just_released {
        Button { component_state: ComponentState::Active, mouse_dragging: false, ..b }
    } else if spec_inside(b, input) {
        Button {
            component_state: if input.pressed || b.mouse_dragging {
                ComponentState::Pressed
            } else {
                ComponentState::Hovered
            },
            mouse_dragging: b.mouse_dragging || input.pressed,
            ..b
        }
    } else {
        Button {
            component_state: if b.mouse_dragging {
                ComponentState::Pressed
            } else {
                ComponentState::Active
            },
            ..b
        }
    }
}

/// The events the button emits while handling one mouse event: the click
/// first (if any), then the mouse-over notification (if the pointer is over
/// the box).
pub open spec fn spec_mouse_events(b: Button, input: MouseInput) -> Seq<UiEvent> {
    if spec_clicked(b, input) {
        seq![UiEvent::Clicked { id: b.id }, UiEvent::MouseOver { id: b.id }]
    } else if spec_mouse_over(b, input) {
        seq![UiEvent::MouseOver { id: b.id }]
    } else {
        Seq::empty()
    }
}


/// The pixels after a button's background fill: the rectangle inset by the
/// state's border width takes the state's background color.
pub open spec fn spec_button_fill_post(b: Button, theme: Theme, w: int, pre: Seq<u32>) -> Seq<
    u32,
> {
    let style = theme.spec_style_for(b.component_state);
    let bw = style.border_width as int;
    fill_post(
        pre,
        spec_sat_add_i64(b.position.x as int, Button::spec_bw_i64(bw)),
        spec_sat_add_i64(b.position.y as int, Button::spec_bw_i64(bw)),
        Button::spec_inner_extent(b.size.width as int, bw),
        Button::spec_inner_extent(b.size.height as int, bw),
        w,
        style.back_color.value,
    )
}

/// The pixels after a button's border: the ring of the state's border width
/// just inside the bounding box takes the state's border color.
pub open spec fn spec_button_border_post(b: Button, theme: Theme, w: int, pre: Seq<u32>) -> Seq<
    u32,
> {
    let style = theme.spec_style_for(b.component_state);
    ring_post(
        pre,
        b.position.x as int,
        b.position.y as int,
        b.size.width as int,
        b.size.height as int,
        style.border_width as int,
        w,
        style.border_color.value,
    )
}

/// The pixels after blitting one character at the pen position: the glyph's
/// raster is blended over the pixels; a character beyond the font's raster
/// table leaves the pixels unchanged.
pub open spec fn glyph_post(
    font: FontMetrics,
    c: char,
    pen: int,
    baseline: int,
    color: u32,
    w: int,
    pre: Seq<u32>,
) -> Seq<u32> {
    if (c as int) < font.rasters@.len() {
        blit_post(pre, pen, baseline, font.rasters@[c as int], w, color)
    } else {
        pre
    }
}

/// The pixels after drawing one run of text: the characters' glyphs are
/// blended left to right, each at the pen position reached by the advances
/// of the characters before it.
pub open spec fn text_run_post(
    font: FontMetrics,
    x: int,
    baseline: int,
    chars: Seq<char>,
    color: u32,
    w: int,
    pre: Seq<u32>,
) -> Seq<u32>
    decreases chars.len(),
{
    if chars.len() == 0 {
        pre
    } else {
        glyph_post(
            font,
            chars.last(),
            spec_pen_after(font, x, chars.drop_last()),
            baseline,
            color,
            w,
            text_run_post(font, x, baseline, chars.drop_last(), color, w, pre),
        )
    }
}

/// The pixels after drawing a whole button: its background fill, then its
/// border ring, then its label's glyph run at ten pixels in from the left
/// edge, on the baseline half way down the box plus half the font's ascent.
pub open spec fn spec_button_draw_post(
    b: Button,
    font: FontMetrics,
    theme: Theme,
    w: int,
    pre: Seq<u32>,
) -> Seq<u32> {
    text_run_post(
        font,
        spec_sat_add_i64(b.position.x as int, 10),
        spec_sat_add_i64(
            spec_sat_add_i64(b.position.y as int, b.size.height as int / 2),
            font.ascent as int / 2,
        ),
        b.text@,
        0xFFFFFF,
        w,
        spec_button_border_post(b, theme, w, spec_button_fill_post(b, theme, w, pre)),
    )
}

impl Button {
    /// Constructor.
    pub fn new(x: usize, y: usize, width: usize, height: usize, text: String) -> (r: Self)
        requires
            x <= i64::MAX,
            y <= i64::MAX,
            width <= u32::MAX,
            height <= u32::MAX,
        ensures
            r.id == 0,
            r.position == (Point { x: x as i64, y: y as i64 }),
            r.size == (Size { width: width as u32, height: height as u32 }),
            r.text == text,
            r.component_state == ComponentState::Active,
            !r.mouse_dragging,
    {
        Self {
            id: 0,
            position: Point { x: x as i64, y: y as i64 },
            size: Size { width: width as u32, height: height as u32 },
            text,
            component_state: ComponentState::Active,
            mouse_dragging: false,
        }
    }

    /// Set the text displayed on the button.
    pub fn set_text(self, text: String) -> (r: Self)
        ensures
            r == (Button { text, ..self }),
    {
        Button { text, ..self }
    }

    /// Give the button the id carried by the events it emits.
    pub fn with_id(self, id: u64) -> (r: Self)
        ensures
            r == (Button { id, ..self }),
    {
        Button { id, ..self }
    }

    /// Whether `(px, py)` lies inside the button's box (half-open on the
    /// right and bottom edges).
    pub fn contains(&self, px: i64, py: i64) -> (r: bool)
        ensures
            r == spec_contains(
                self.position.x as int,
                self.position.y as int,
                self.size.width as int,
                self.size.height as int,
                px as int,
                py as int,
            ),
    {
        px >= self.position.x && (px as i128) < self.position.x as i128 + self.size.width as i128
            && py >= self.position.y && (py as i128) < self.position.y as i128
            + self.size.height as i128
    }

    /// Set the component state from the pointer position and button state
    /// alone: pressed inside the box, hovered inside the box unpressed,
    /// active outside.
    pub fn update_state(&mut self, cursor_x: i64, cursor_y: i64, mouse_pressed: bool)
        ensures
            *final(self) == (Button {
                component_state: if spec_contains(
                    old(self).position.x as int,
                    old(self).position.y as int,
                    old(self).size.width as int,
                    old(self).size.height as int,
                    cursor_x as int,
                    cursor_y as int,
                ) {
                    if mouse_pressed {
                        ComponentState::Pressed
                    } else {
                        ComponentState::Hovered
                    }
                } else {
                    ComponentState::Active
                },
                ..*old(self)
            }),
    {
        if self.contains(cursor_x, cursor_y) {
            if mouse_pressed {
                self.component_state = ComponentState::Pressed;
            } else {
                self.component_state = ComponentState::Hovered;
            }
        } else {
            self.component_state = ComponentState::Active;
        }
    }

    /// Update the component state from one mouse event and append the
    /// notifications it triggers. A disabled button ignores all input.
    pub fn handle_mouse_event(&mut self, input: MouseInput, events: &mut Vec<UiEvent>)
        ensures
            *final(self) == spec_after_mouse(*old(self), input),
            final(events)@ == old(events)@ + spec_mouse_events(*old(self), input),
    {
        let ghost orig = *self;
        if self.component_state == ComponentState::Disabled {
            proof {
                assert(final(events)@ =~= old(events)@ + spec_mouse_events(orig, input));
            }
            return ;
        }
        self.component_state = ComponentState::Active;
        if self.contains(input.position.x, input.position.y) {
            self.component_state = ComponentState::Hovered;
            if input.pressed {
                self.component_state = ComponentState::Pressed;
                self.mouse_dragging = true;
            }
            if self.mouse_dragging {
                self.component_state = ComponentState::Pressed;
            }
            if input.just_released {
                if self.component_state == ComponentState::Pressed {
                    events.push(UiEvent::Clicked { id: self.id });
                }
                self.component_state = ComponentState::Active;
                self.mouse_dragging = false;
            }
            events.push(UiEvent::MouseOver { id: self.id });
        } else if self.mouse_dragging {
            // The pressed visual persists while dragging, even with the
            // pointer outside the box, until the release below.
            self.component_state = ComponentState::Pressed;
        }
        if input.just_released {
            self.component_state = ComponentState::Active;
            self.mouse_dragging = false;
        }
        proof {
            assert(events@ =~= old(events)@ + spec_mouse_events(orig, input));
        }
    }

    /// A border width as a coordinate offset, saturating at the coordinate
    /// range bound.
    pub open spec fn spec_bw_i64(bw: int) -> int {
        if bw > i64::MAX as int {
            i64::MAX as int
        } else {
            bw
        }
    }

    /// A box extent shrunk by the border width on both sides.
    pub open spec fn spec_inner_extent(extent: int, bw: int) -> int {
        if extent > 2 * bw {
            extent - 2 * bw
        } else {
            0
        }
    }

    /// Fill the button's background: the rectangle inset by the state's
    /// border width takes the state's background color, clipped to the
    /// screen; every other pixel is untouched.
    pub fn fill_background(&self, ctx: &mut BufferContext)
        requires
            old(ctx).wf(),
        ensures
            final(ctx).wf(),
            final(ctx).same_frame(old(ctx)),
            final(ctx).buffer@ == spec_button_fill_post(
                *self,
                old(ctx).theme,
                old(ctx).screen_size.width as int,
                old(ctx).buffer@,
            ),
    {
        let w = ctx.screen_size.width;
        let h = ctx.screen_size.height;
        let style = ctx.theme.style_for(&self.component_state);
        let bw = style.border_width;
        let bwi: i64 = if (bw as u64) > 0x7fffffffffffffff {
            i64::MAX
        } else {
            bw as i64
        };
        let inner_w: u32 = if (self.size.width as u128) > 2 * (bw as u128) {
            (self.size.width as u128 - 2 * (bw as u128)) as u32
        } else {
            0
        };
        let inner_h: u32 = if (self.size.height as u128) > 2 * (bw as u128) {
            (self.size.height as u128 - 2 * (bw as u128)) as u32
        } else {
            0
        };
        fill_rect(
            &mut ctx.buffer,
            w,
            h,
            sat_add_i64(self.position.x, bwi),
            sat_add_i64(self.position.y, bwi),
            inner_w,
            inner_h,
            style.back_color.value,
        );
    }

    /// Draw the button's border: the ring of the state's border width just
    /// inside the bounding box takes the state's border color, clipped to
    /// the screen; every other pixel is untouched.
    pub fn draw_border(&self, ctx: &mut BufferContext)
        requires
            old(ctx).wf(),
        ensures
            final(ctx).wf(),
            final(ctx).same_frame(old(ctx)),
            final(ctx).buffer@ == spec_button_border_post(
                *self,
                old(ctx).theme,
                old(ctx).screen_size.width as int,
                old(ctx).buffer@,
            ),
    {
        let w = ctx.screen_size.width;
        let h = ctx.screen_size.height;
        let style = ctx.theme.style_for(&self.component_state);
        draw_border_rect(
            &mut ctx.buffer,
            w,
            h,
            self.position.x,
            self.position.y,
            self.size.width,
            self.size.height,
            style.border_width,
            style.border_color.value,
        );
    }

    /// Paint the button: background fill inset by the border width, then the
    /// border ring, then the anti-aliased text label. All writes are clipped
    /// to the screen and stay inside the buffer.
    pub fn draw(&self, ctx: &mut BufferContext)
        requires
            old(ctx).wf(),
        ensures
            final(ctx).wf(),
            final(ctx).same_frame(old(ctx)),
            final(ctx).buffer@ == spec_button_draw_post(
                *self,
                old(ctx).font,
                old(ctx).theme,
                old(ctx).screen_size.width as int,
                old(ctx).buffer@,
            ),
    {
        self.fill_background(ctx);
        self.draw_border(ctx);
        let w = ctx.screen_size.width;
        let h = ctx.screen_size.height;
        let start_x = sat_add_i64(self.position.x, 10);
        let baseline = sat_add_i64(
            sat_add_i64(self.position.y, (self.size.height / 2) as i64),
            (ctx.font.ascent / 2) as i64,
        );
        let chars = str_chars(self.text.as_str());
        draw_text_run(&mut ctx.buffer, w, h, &ctx.font, start_x, baseline, &chars, 0xFFFFFF);
    }

    /// Set the position of the button relative to the screen origin.
    pub fn set_position(&mut self, x: i64, y: i64)
        ensures
            *final(self) == (Button { position: Point { x, y }, ..*old(self) }),
    {
        self.position = Point { x, y };
    }

    /// Get the position of the button.
    pub fn get_position(&self) -> (r: Point)
        ensures
            r == self.position,
    {
        self.position
    }

    /// Set the size of the button.
    pub fn set_size(&mut self, width: u32, height: u32)
        ensures
            *final(self) == (Button { size: Size { width, height }, ..*old(self) }),
    {
        self.size = Size { width, height };
    }

    /// Get the size of the button.
    pub fn get_size(&self) -> (r: Size)
        ensures
            r == self.size,
    {
        self.size
    }
}

impl Default for Button {
    /// A 200 x 60 button at the origin labelled "button".
    fn default() -> (r: Self)
        ensures
            r.id == 0,
            r.position == (Point { x: 0, y: 0 }),
            r.size == (Size { width: 200, height: 60 }),
            r.component_state == ComponentState::Active,
            !r.mouse_dragging,
            r.text@ == "button"@,
    {
        Self {
            id: 0,
            position: Point { x: 0, y: 0 },
            size: Size { width: 200, height: 60 },
            text: String::from_str("button"),
            component_state: ComponentState::Active,
            mouse_dragging: false,
        }
    }
}

/// The pen position after laying out `chars` left to right starting at `x`,
/// each character advancing the pen by its font advance width (saturating at
/// the coordinate range bounds).
pub open spec fn spec_pen_after(font: FontMetrics, x: int, chars: Seq<char>) -> int
    decreases chars.len(),
{
    if chars.len() == 0 {
        x
    } else {
        spec_sat_add_i64(
            spec_pen_after(font, x, chars.drop_last()),
            font.spec_advance(chars.last()),
        )
    }
}

/// Draw one run of text: each character's glyph raster is blended at the
/// current pen position on the given baseline, and the pen advances by the
/// character's advance width. Returns the final pen position.
#[verifier::loop_isolation(false)]
pub fn draw_text_run(
    buffer: &mut Vec<u32>,
    w: u32,
    h: u32,
    font: &FontMetrics,
    x: i64,
    baseline: i64,
    chars: &Vec<char>,
    color: u32,
) -> (pen: i64)
    requires
        old(buffer)@.len() == w * h,
        font.wf(),
    ensures
        final(buffer)@.len() == old(buffer)@.len(),
        pen == spec_pen_after(*font, x as int, chars@),
        final(buffer)@ == text_run_post(
            *font,
            x as int,
            baseline as int,
            chars@,
            color,
            w as int,
            old(buffer)@,
        ),
{
    let mut pen: i64 = x;
    let mut i: usize = 0;
    proof {
        assert(chars@.take(0) =~= Seq::<char>::empty());
    }
    while i < chars.len()
        invariant
            i <= chars@.len(),
            buffer@.len() == old(buffer)@.len(),
            pen == spec_pen_after(*font, x as int, chars@.take(i as int)),
            buffer@ == text_run_post(
                *font,
                x as int,
                baseline as int,
                chars@.take(i as int),
                color,
                w as int,
                old(buffer)@,
            ),
        decreases chars@.len() - i,
    {
        let ghost snap = buffer@;
        let c = chars[i];
        match font.raster_for(c) {
            Some(raster) => {
                crate::primitive::blit_glyph(buffer, w, h, pen, baseline, raster, color);
            },
            None => {},
        }
        let adv = font.advance(c);
        pen = sat_add_i64(pen, adv as i64);
        proof {
            assert(chars@.take(i + 1).drop_last() =~= chars@.take(i as int));
            assert(chars@.take(i + 1).last() == chars@[i as int]);
            assert(buffer@ == glyph_post(
                *font,
                chars@[i as int],
                spec_pen_after(*font, x as int, chars@.take(i as int)),
                baseline as int,
                color,
                w as int,
                snap,
            ));
        }
        i = i + 1;
    }
    proof {
        assert(chars@.take(chars@.len() as int) =~= chars@);
    }
    pen
}

/// A button's box test is half-open: the top-left corner lies inside the
/// box, the bottom-right corner `(x + width, y + height)` lies outside it.
pub proof fn lemma_contains_half_open(b: Button)
    requires
        b.size.width > 0,
        b.size.height > 0,
    ensures
        spec_contains(
            b.position.x as int,
            b.position.y as int,
            b.size.width as int,
            b.size.height as int,
            b.position.x as int,
            b.position.y as int,
        ),
        !spec_contains(
            b.position.x as int,
            b.position.y as int,
            b.size.width as int,
            b.size.height as int,
            b.position.x + b.size.width,
            b.position.y + b.size.height,
        ),
{
}

/// A click fires exactly once per press-drag-release cycle: pressing inside
/// the box, dragging to another point inside the box, then releasing fires
/// the click exactly once if the release is inside the box, and not at all
/// if it is outside. No event before the release fires it.
pub proof fn lemma_click_fires_once_per_cycle(
    b0: Button,
    press: MouseInput,
    drag: MouseInput,
    release: MouseInput,
)
    requires
        b0.component_state != ComponentState::Disabled,
        spec_inside(b0, press),
        press.pressed,
        !press.just_released,
        spec_inside(spec_after_mouse(b0, press), drag),
        !drag.just_released,
        release.just_released,
    ensures
        ({
            let b1 = spec_after_mouse(b0, press);
            let b2 = spec_after_mouse(b1, drag);
            let clicks = (if spec_clicked(b0, press) {
                1int
            } else {
                0int
            }) + (if spec_clicked(b1, drag) {
                1int
            } else {
                0int
            }) + (if spec_clicked(b2, release) {
                1int
            } else {
                0int
            });
            clicks == if spec_inside(b2, release) {
                1int
            } else {
                0int
            }
        }),
{
}

} // verus!
