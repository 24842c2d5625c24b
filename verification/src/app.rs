//! The application: a single root container, shared state, and the mapping
//! of host window events onto the component protocol.
//!
//! The host event loop owns the window and the surface; for each event it
//! calls one of the handlers here, which updates the tracked pointer state,
//! walks the widget tree, and hands back the notifications the components
//! emitted. Drawing happens against a `BufferContext` the host prepares for
//! each frame and presents afterwards.

use vstd::prelude::*;
use crate::component::style::{DefaultComponentTheme, Theme};
use crate::event::{KeyboardEvent, MouseInput, ScrollDelta, UiEvent};
use crate::geometry::Point;
use crate::view::BufferContext;
use crate::widget::{
    Widget, lemma_wf_resize, lemma_wf_set_size, rel_key, rel_mouse, rel_resize, rel_set_size,
    rel_wheel, spec_fills_parent, spec_wf, tree_key_events, tree_mouse_events,
};

verus! {

/// One event delivered by the host window, reduced to plain values.
pub enum AppEvent {
    CursorMoved { x: i64, y: i64 },
    MouseButton { pressed: bool },
    MouseWheel { delta: ScrollDelta },
    Keyboard { event: KeyboardEvent },
    Resized { width: u32, height: u32 },
}

/// The application: the root container, the tracked pointer state, and the
/// theme shared read-only by all components during drawing.
pub struct Application {
    pub root: Widget,
    pub cursor_pos: Option<Point>,
    pub mouse_pressed: bool,
    pub theme: Theme,
    /// The host's device scale factor in whole percent (100 = 1.0).
    pub scale_factor: u32,
}

/// The mouse input a cursor-move event translates to: an unpressed pointer
/// at the new position.
pub open spec fn spec_move_input(x: i64, y: i64, scale: u32) -> MouseInput {
    MouseInput {
        scale_factor: scale,
        position: Point { x, y },
        pressed: false,
        just_released: false,
        mouse_scroll: Option::None,
    }
}

/// The mouse input a button event translates to: the pointer at its last
/// tracked position, pressed on a press, just-released on a release.
pub open spec fn spec_button_input(pos: Point, pressed: bool, scale: u32) -> MouseInput {
    MouseInput {
        scale_factor: scale,
        position: pos,
        pressed,
        just_released: !pressed,
        mouse_scroll: Option::None,
    }
}

impl Application {
    /// The widget tree is well-formed.
    pub open spec fn wf(&self) -> bool {
        spec_wf(self.root)
    }

    /// Constructor: wrap a root container with the default theme and no
    /// tracked pointer.
    pub fn new(root: Widget) -> (r: Self)
        ensures
            r.root == root,
            r.cursor_pos == Option::<Point>::None,
            !r.mouse_pressed,
            r.theme == DefaultComponentTheme::spec_theme(),
            r.scale_factor == 100,
    {
        Self {
            root,
            cursor_pos: None,
            mouse_pressed: false,
            theme: DefaultComponentTheme::theme(),
            scale_factor: 100,
        }
    }

    /// The pointer moved: track its position and deliver an unpressed mouse
    /// event to the tree.
    pub fn handle_cursor_moved(&mut self, x: i64, y: i64, events: &mut Vec<UiEvent>)
        requires
            old(self).wf(),
        ensures
            final(self).wf(),
            final(self).cursor_pos == Option::Some(Point { x, y }),
            final(self).mouse_pressed == old(self).mouse_pressed,
            final(self).theme == old(self).theme,
            final(self).scale_factor == old(self).scale_factor,
            rel_mouse(
                old(self).root,
                final(self).root,
                spec_move_input(x, y, old(self).scale_factor),
            ),
            final(events)@ == old(events)@ + tree_mouse_events(
                old(self).root,
                spec_move_input(x, y, old(self).scale_factor),
            ),
    {
        let input = MouseInput {
            scale_factor: self.scale_factor,
            position: Point { x, y },
            pressed: false,
            just_released: false,
            mouse_scroll: None,
        };
        self.cursor_pos = Some(Point { x, y });
        self.root.handle_mouse_event(input, events);
    }

    /// A mouse button changed state: deliver a pressed or just-released
    /// mouse event at the last tracked pointer position. With no tracked
    /// position the event is dropped.
    pub fn handle_mouse_button(&mut self, pressed: bool, events: &mut Vec<UiEvent>)
        requires
            old(self).wf(),
        ensures
            final(self).wf(),
            final(self).cursor_pos == old(self).cursor_pos,
            final(self).theme == old(self).theme,
            final(self).scale_factor == old(self).scale_factor,
            match old(self).cursor_pos {
                Option::Some(pos) => {
                    &&& final(self).mouse_pressed == pressed
                    &&& rel_mouse(
                        old(self).root,
                        final(self).root,
                        spec_button_input(pos, pressed, old(self).scale_factor),
                    )
                    &&& final(events)@ == old(events)@ + tree_mouse_events(
                        old(self).root,
                        spec_button_input(pos, pressed, old(self).scale_factor),
                    )
                },
                Option::None => *final(self) == *old(self) && final(events)@ == old(events)@,
            },
    {
        match self.cursor_pos {
            Some(pos) => {
                let input = MouseInput {
                    scale_factor: self.scale_factor,
                    position: pos,
                    pressed,
                    just_released: !pressed,
                    mouse_scroll: None,
                };
                self.mouse_pressed = pressed;
                self.root.handle_mouse_event(input, events);
            },
            None => {},
        }
    }

    /// A mouse wheel moved: deliver the delta to the tree.
    pub fn handle_mouse_wheel(&mut self, delta: &ScrollDelta)
        requires
            old(self).wf(),
        ensures
            final(self).wf(),
            final(self).cursor_pos == old(self).cursor_pos,
            final(self).mouse_pressed == old(self).mouse_pressed,
            final(self).theme == old(self).theme,
            final(self).scale_factor == old(self).scale_factor,
            rel_wheel(old(self).root, final(self).root, *delta),
    {
        self.root.handle_mouse_wheel_event(delta);
    }

    /// A key changed state: deliver the event to the tree.
    pub fn handle_keyboard(&mut self, event: &KeyboardEvent, events: &mut Vec<UiEvent>)
        requires
            old(self).wf(),
        ensures
            final(self).wf(),
            final(self).cursor_pos == old(self).cursor_pos,
            final(self).mouse_pressed == old(self).mouse_pressed,
            final(self).theme == old(self).theme,
            final(self).scale_factor == old(self).scale_factor,
            rel_key(old(self).root, final(self).root, *event),
            final(events)@ == old(events)@ + tree_key_events(old(self).root, *event),
    {
        self.root.handle_keyboard_event(event, events);
    }

    /// The window was resized: a root that fills its parent takes the new
    /// extent, and the resize is propagated down the tree.
    pub fn handle_resized(&mut self, width: u32, height: u32)
        requires
            old(self).wf(),
        ensures
            final(self).wf(),
            final(self).cursor_pos == old(self).cursor_pos,
            final(self).mouse_pressed == old(self).mouse_pressed,
            final(self).theme == old(self).theme,
            final(self).scale_factor == old(self).scale_factor,
            if spec_fills_parent(old(self).root) {
                exists|mid: Widget|
                    rel_set_size(old(self).root, mid, width, height) && rel_resize(
                        mid,
                        final(self).root,
                        width,
                        height,
                    )
            } else {
                rel_resize(old(self).root, final(self).root, width, height)
            },
    {
        if self.root.fills_parent_container() {
            self.root.set_size(width, height);
            proof {
                lemma_wf_set_size(old(self).root, self.root, width, height);
            }
            let ghost mid = self.root;
            self.root.resize(width, height);
            proof {
                lemma_wf_resize(mid, self.root, width, height);
                assert(rel_set_size(old(self).root, mid, width, height) && rel_resize(
                    mid,
                    self.root,
                    width,
                    height,
                ));
            }
        } else {
            self.root.resize(width, height);
            proof {
                lemma_wf_resize(old(self).root, self.root, width, height);
            }
        }
    }

    /// Record the host's device scale factor (in whole percent).
    pub fn set_scale_factor(&mut self, scale_percent: u32)
        ensures
            *final(self) == (Application { scale_factor: scale_percent, ..*old(self) }),
    {
        self.scale_factor = scale_percent;
    }

    /// Dispatch one host event to the matching handler, appending the
    /// notifications the components emitted.
    pub fn handle_event(&mut self, event: &AppEvent, events: &mut Vec<UiEvent>)
        requires
            old(self).wf(),
        ensures
            final(self).wf(),
            final(self).theme == old(self).theme,
            final(self).scale_factor == old(self).scale_factor,
            match *event {
                AppEvent::CursorMoved { x, y } => {
                    &&& final(self).cursor_pos == Option::Some(Point { x, y })
                    &&& rel_mouse(
                        old(self).root,
                        final(self).root,
                        spec_move_input(x, y, old(self).scale_factor),
                    )
                    &&& final(events)@ == old(events)@ + tree_mouse_events(
                        old(self).root,
                        spec_move_input(x, y, old(self).scale_factor),
                    )
                },
                AppEvent::MouseButton { pressed } => match old(self).cursor_pos {
                    Option::Some(pos) => rel_mouse(
                        old(self).root,
                        final(self).root,
                        spec_button_input(pos, pressed, old(self).scale_factor),
                    ) && final(events)@ == old(events)@ + tree_mouse_events(
                        old(self).root,
                        spec_button_input(pos, pressed, old(self).scale_factor),
                    ),
                    Option::None => *final(self) == *old(self) && final(events)@ == old(events)@,
                },
                AppEvent::MouseWheel { delta } => rel_wheel(
                    old(self).root,
                    final(self).root,
                    delta,
                ) && final(events)@ == old(events)@,
                AppEvent::Keyboard { event: key } => rel_key(old(self).root, final(self).root, key)
                    && final(events)@ == old(events)@ + tree_key_events(old(self).root, key),
                AppEvent::Resized { width, height } => if spec_fills_parent(old(self).root) {
                    exists|mid: Widget|
                        rel_set_size(old(self).root, mid, width, height) && rel_resize(
                            mid,
                            final(self).root,
                            width,
                            height,
                        )
                } else {
                    rel_resize(old(self).root, final(self).root, width, height)
                },
            },
    {
        match event {
            AppEvent::CursorMoved { x, y } => {
                self.handle_cursor_moved(*x, *y, events);
            },
            AppEvent::MouseButton { pressed } => {
                self.handle_mouse_button(*pressed, events);
            },
            AppEvent::MouseWheel { delta } => {
                self.handle_mouse_wheel(delta);
            },
            AppEvent::Keyboard { event: key } => {
                self.handle_keyboard(key, events);
            },
            AppEvent::Resized { width, height } => {
                self.handle_resized(*width, *height);
            },
        }
    }

    /// Draw the whole tree into the frame's buffer: the pixels afterwards
    /// are exactly the composition of every component's draw effect, walked
    /// from the root.
    pub fn draw(&self, ctx: &mut BufferContext)
        requires
            old(ctx).wf(),
        ensures
            final(ctx).wf(),
            final(ctx).same_frame(old(ctx)),
            final(ctx).buffer@ == crate::widget::widget_draw_post(
                self.root,
                old(ctx).font,
                old(ctx).theme,
                old(ctx).screen_size.width as int,
                old(ctx).buffer@,
            ),
    {
        self.root.draw(ctx);
    }
}

} // verus!
