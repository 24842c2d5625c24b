//! A panel: a container holding at most one child that always fills its
//! parent.
//!
//! On every layout pass the panel repositions and resizes its sole child to
//! exactly match its own bounds — a pass-through adapter letting any
//! component participate in a fill-oriented layout slot.

use vstd::prelude::*;
use crate::widget::{Widget, rel_arrange_opt};
use crate::geometry::{Point, Size};

verus! {

/// A container that holds a single component and resizes it to fit its own
/// bounds.
pub struct Panel {
    pub position: Point,
    pub size: Size,
    pub component: Option<Box<Widget>>,
}

impl Panel {
    /// Constructor: an empty panel of zero extent at the origin.
    pub fn new() -> (r: Self)
        ensures
            r.position == (Point { x: 0, y: 0 }),
            r.size == (Size { width: 0, height: 0 }),
            r.component is None,
    {
        Self { position: Point { x: 0, y: 0 }, size: Size { width: 0, height: 0 }, component: None }
    }

    /// A panel always fills its parent container.
    pub fn fills_parent_container(&self) -> (r: bool)
        ensures
            r,
    {
        true
    }

    /// Set (or replace) the panel's sole child. The child is arranged on the
    /// next layout pass.
    pub fn push(&mut self, component: Widget)
        ensures
            *final(self) == (Panel {
                component: Some(Box::new(component)),
                ..*old(self)
            }),
    {
        self.component = Some(Box::new(component));
    }

    /// Reposition and resize the child to exactly the panel's own bounds.
    pub fn update_layout(&mut self)
        ensures
            final(self).position == old(self).position,
            final(self).size == old(self).size,
            rel_arrange_opt(
                old(self).component,
                final(self).component,
                old(self).position.x,
                old(self).position.y,
                old(self).size.width,
                old(self).size.height,
            ),
        decreases old(self).component, 2int,
    {
        let x = self.position.x;
        let y = self.position.y;
        let w = self.size.width;
        let h = self.size.height;
        match self.component.take() {
            Some(mut comp) => {
                proof {
                    let oc = old(self).component;
                    assert(oc is Some);
                    assert(decreases_to!(oc => oc->0));
                }
                comp.arrange(x, y, w, h);
                self.component = Some(comp);
            },
            None => {},
        }
    }

    /// Take the parent's size and pass it through to the child.
    pub fn resize(&mut self, width: u32, height: u32)
        ensures
            final(self).position == old(self).position,
            final(self).size == (Size { width, height }),
            rel_arrange_opt(
                old(self).component,
                final(self).component,
                old(self).position.x,
                old(self).position.y,
                width,
                height,
            ),
        decreases old(self).component, 3int,
    {
        self.size = Size { width, height };
        self.update_layout();
    }
}

} // verus!
