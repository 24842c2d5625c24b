//! Host window description: plain data handed to the windowing layer.

use vstd::prelude::*;
use crate::geometry::{Point, Size};

verus! {

/// An opaque numeric handle for a host window.
pub type WindowHandle = i64;

/// Settings used to create a host window.
pub struct WindowSettings {
    pub title: String,
}

/// The geometry of a host window.
pub struct Window {
    pub size: Size,
    pub location: Point,
}

} // verus!
