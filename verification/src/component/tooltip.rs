//! A tooltip that floats over another component.

use vstd::prelude::*;
use crate::geometry::{Point, Size};

verus! {

/// A floating text label. It ignores input and, for now, draws nothing.
pub struct Tooltip {
    pub text: String,
    pub position: Point,
    pub size: Size,
    pub visible: bool,
}

impl Tooltip {
    /// Constructor.
    pub fn new(text: String, position: Point, size: Size) -> (r: Self)
        ensures
            r.text == text,
            r.position == position,
            r.size == size,
            r.visible,
    {
        Self { text, position, size, visible: true }
    }
}

} // verus!
