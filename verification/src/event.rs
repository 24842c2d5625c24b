//! Input events delivered by the host window, and the notification events
//! components emit back to the embedding application.
//!
//! Components do not hold callback closures; instead every input handler
//! appends `UiEvent` notifications to a caller-supplied queue, and the
//! embedding application interprets them after the dispatch walk.

use vstd::prelude::*;
use crate::geometry::Point;

verus! {

/// A mouse-wheel movement. `Lines` counts whole scroll notches; `Pixels` is
/// an exact pixel distance reported by the device.
#[derive(Debug, Clone, Copy, PartialEq, Eq, Structural)]
pub enum ScrollDelta {
    Lines { x: i64, y: i64 },
    Pixels { x: i64, y: i64 },
}

/// Mouse state for mouse events. `scale_factor` is the host's device scale
/// factor in whole percent (100 stands for a 1.0 scale).
#[derive(Debug, Clone, Copy, PartialEq, Eq, Structural)]
pub struct MouseInput {
    pub scale_factor: u32,
    pub position: Point,
    pub pressed: bool,
    pub just_released: bool,
    pub mouse_scroll: Option<ScrollDelta>,
}

/// The key carried by a keyboard event: either typed text or one of the
/// named keys the components react to.
#[derive(Debug, Clone, PartialEq, Eq)]
pub enum KeyInput {
    Character(String),
    Space,
    Enter,
    Backspace,
    Delete,
    Other,
}

/// A keyboard event: the key and whether this is a press (as opposed to a
/// release).
#[derive(Debug, Clone, PartialEq, Eq)]
pub struct KeyboardEvent {
    pub pressed: bool,
    pub key: KeyInput,
}

/// A notification emitted by a component while handling input, identifying
/// the component by its numeric id.
#[derive(Debug, Clone, Copy, PartialEq, Eq, Structural)]
pub enum UiEvent {
    /// A button completed a press-release cycle inside its box.
    Clicked { id: u64 },
    /// The pointer was over a button during a mouse event.
    MouseOver { id: u64 },
    /// A text area's text was changed by keyboard input.
    TextChanged { id: u64 },
}

/// A plain application-level input event.
#[derive(Debug, Clone, Copy, PartialEq, Eq, Structural)]
pub enum Event {
    MouseClick { x: i32, y: i32 },
    KeyPress(char),
}

} // verus!
