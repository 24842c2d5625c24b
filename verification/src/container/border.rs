//! A five-slot compass layout: north, south, east, west, center.
//!
//! On resize, the east and west children take the layout's full height
//! (keeping their own width), the north and south children take its full
//! width (keeping their own height), and the center child fills the
//! remaining rectangle. North sits at the layout's origin, west and center
//! below it, east to the right of center, and south below the center row.
//! A border layout always fills its parent container.

use vstd::prelude::*;
use crate::widget::Widget;
use crate::geometry::{Point, Size};

verus! {

/// A five-slot compass layout.
pub struct BorderLayout {
    pub position: Point,
    pub size: Size,
    pub east: Option<Box<Widget>>,
    pub west: Option<Box<Widget>>,
    pub north: Option<Box<Widget>>,
    pub south: Option<Box<Widget>>,
    pub center: Option<Box<Widget>>,
}

impl BorderLayout {
    /// Constructor: an empty layout of zero extent at the origin.
    pub fn new() -> (r: Self)
        ensures
            r.position == (Point { x: 0, y: 0 }),
            r.size == (Size { width: 0, height: 0 }),
            r.east is None,
            r.west is None,
            r.north is None,
            r.south is None,
            r.center is None,
    {
        Self {
            position: Point { x: 0, y: 0 },
            size: Size { width: 0, height: 0 },
            east: None,
            west: None,
            north: None,
            south: None,
            center: None,
        }
    }

    /// Fill the east slot. The child is arranged on the next layout pass.
    pub fn set_east(&mut self, east: Widget)
        ensures
            *final(self) == (BorderLayout { east: Some(Box::new(east)), ..*old(self) }),
    {
        self.east = Some(Box::new(east));
    }

    /// Fill the west slot. The child is arranged on the next layout pass.
    pub fn set_west(&mut self, west: Widget)
        ensures
            *final(self) == (BorderLayout { west: Some(Box::new(west)), ..*old(self) }),
    {
        self.west = Some(Box::new(west));
    }

    /// Fill the north slot. The child is arranged on the next layout pass.
    pub fn set_north(&mut self, north: Widget)
        ensures
            *final(self) == (BorderLayout { north: Some(Box::new(north)), ..*old(self) }),
    {
        self.north = Some(Box::new(north));
    }

    /// Fill the south slot. The child is arranged on the next layout pass.
    pub fn set_south(&mut self, south: Widget)
        ensures
            *final(self) == (BorderLayout { south: Some(Box::new(south)), ..*old(self) }),
    {
        self.south = Some(Box::new(south));
    }

    /// Fill the center slot. The child is arranged on the next layout pass.
    pub fn set_center(&mut self, center: Widget)
        ensures
            *final(self) == (BorderLayout { center: Some(Box::new(center)), ..*old(self) }),
    {
        self.center = Some(Box::new(center));
    }

    /// Add a child by filling the first empty compass slot, trying north,
    /// west, center, east, then south; with every slot taken the child is
    /// dropped. The new child is arranged on the next layout pass.
    pub fn push(&mut self, component: Widget)
        ensures
            *final(self) == if old(self).north is None {
                BorderLayout { north: final(self).north, ..*old(self) }
            } else if old(self).west is None {
                BorderLayout { west: final(self).west, ..*old(self) }
            } else if old(self).center is None {
                BorderLayout { center: final(self).center, ..*old(self) }
            } else if old(self).east is None {
                BorderLayout { east: final(self).east, ..*old(self) }
            } else if old(self).south is None {
                BorderLayout { south: final(self).south, ..*old(self) }
            } else {
                *old(self)
            },
            ({
                let a = *old(self);
                let r = *final(self);
                &&& (a.north is None ==> r.north is Some && *r.north->0 == component)
                &&& (a.north is Some && a.west is None ==> r.west is Some && *r.west->0
                    == component)
                &&& (a.north is Some && a.west is Some && a.center is None ==> r.center is Some
                    && *r.center->0 == component)
                &&& (a.north is Some && a.west is Some && a.center is Some && a.east is None
                    ==> r.east is Some && *r.east->0 == component)
                &&& (a.north is Some && a.west is Some && a.center is Some && a.east is Some
                    && a.south is None ==> r.south is Some && *r.south->0 == component)
            }),
    {
        if self.north.is_none() {
            self.north = Some(Box::new(component));
        } else if self.west.is_none() {
            self.west = Some(Box::new(component));
        } else if self.center.is_none() {
            self.center = Some(Box::new(component));
        } else if self.east.is_none() {
            self.east = Some(Box::new(component));
        } else if self.south.is_none() {
            self.south = Some(Box::new(component));
        }
    }

    /// A border layout always fills its parent container.
    pub fn fills_parent_container(&self) -> (r: bool)
        ensures
            r,
    {
        true
    }
}

} // verus!
