//! GUI components: the interaction states shared by every component, and the
//! leaf widgets themselves.

pub mod button;
pub mod style;
pub mod text;
pub mod textarea;
pub mod tooltip;

use vstd::prelude::*;

verus! {

/// The interaction state of a component. It drives visual style selection
/// and input eligibility, and is mutated only by the owning component in
/// response to input events.
#[derive(Debug, Clone, Copy, PartialEq, Eq, Structural)]
pub enum ComponentState {
    Active,
    Hovered,
    Pressed,
    Focused,
    Disabled,
}

} // verus!
