//! A horizontal row of components.
//!
//! Children are positioned left to right from the row's own origin, each
//! offset by the running x coordinate plus a fixed spacing after every
//! element. The row's reported size is the tight bounding box of its
//! children (plus the spacing as a margin); it is derived on every query,
//! never stored. A row ignores parent-driven resizing.

use vstd::prelude::*;
use crate::widget::{Widget, rel_pos_chain_row, lemma_pos_chain_row_intro};
use crate::geometry::{sat_add_i64, spec_sat_add_i64};

verus! {

broadcast use vstd::seq::axiom_seq_index_decreases;

/// A horizontal row of components.
pub struct Row {
    pub children: Vec<Widget>,
    pub spacing: usize,
    pub x: i64,
    pub y: i64,
    pub height: usize,
}

impl Row {
    /// Constructor.
    pub fn new(x: i64, y: i64, spacing: usize, height: usize) -> (r: Self)
        ensures
            r.children@.len() == 0,
            r.spacing == spacing,
            r.x == x,
            r.y == y,
            r.height == height,
    {
        Self { children: Vec::new(), spacing, x, y, height }
    }

    /// A row's extent is content-driven, never owned by its parent.
    pub fn fills_parent_container(&self) -> (r: bool)
        ensures
            !r,
    {
        false
    }

    /// A row ignores parent-driven resizing.
    pub fn resize(&mut self, width: u32, height: u32)
        ensures
            *final(self) == *old(self),
    {
    }

    /// Reposition every child: each is placed at the running x coordinate,
    /// which advances by the child's width plus the spacing.
    #[verifier::loop_isolation(false)]
    pub fn update_layout(&mut self)
        ensures
            final(self).spacing == old(self).spacing,
            final(self).x == old(self).x,
            final(self).y == old(self).y,
            final(self).height == old(self).height,
            rel_pos_chain_row(
                old(self).children@,
                final(self).children@,
                old(self).x as int,
                old(self).y,
                old(self).spacing as int,
            ),
        decreases old(self).children@, 2int,
    {
        let ghost orig = self.children@;
        let y = self.y;
        let spacing = self.spacing;
        let spacing_i: i64 = if (spacing as u64) > 0x7fffffffffffffff {
            i64::MAX
        } else {
            spacing as i64
        };
        let mut cur_x: i64 = self.x;
        let ghost mut xs: Seq<int> = seq![self.x as int];
        let mut i: usize = 0;
        while i < self.children.len()
            invariant
                i <= orig.len(),
                self.children@.len() == orig.len(),
                self.spacing == old(self).spacing,
                self.x == old(self).x,
                self.y == old(self).y,
                self.height == old(self).height,
                spacing_i as int == crate::widget::spec_spacing_i64(old(self).spacing as int),
                xs.len() == i + 1,
                xs[0] == old(self).x as int,
                cur_x as int == xs[i as int],
                forall|j: int| 0 <= j <= i ==> i64::MIN <= #[trigger] xs[j] <= i64::MAX,
                forall|j: int|
                    0 <= j < i ==> crate::widget::rel_set_position(
                        orig[j],
                        #[trigger] self.children@[j],
                        xs[j] as i64,
                        old(self).y,
                    ),
                forall|j: int|
                    0 <= j < i ==> #[trigger] xs[j + 1] == spec_sat_add_i64(
                        spec_sat_add_i64(
                            xs[j],
                            crate::widget::spec_get_size(self.children@[j]).width as int,
                        ),
                        crate::widget::spec_spacing_i64(old(self).spacing as int),
                    ),
                forall|j: int| i <= j < orig.len() ==> #[trigger] self.children@[j] == orig[j],
            decreases orig.len() - i,
        {
            proof {
                let oc = old(self).children@;
                assert(decreases_to!(oc => oc[i as int]));
                assert(oc[i as int] == self.children@[i as int]);
            }
            self.children[i].set_position(cur_x, y);
            let sz = self.children[i].get_size();
            cur_x = sat_add_i64(sat_add_i64(cur_x, sz.width as i64), spacing_i);
            proof {
                xs = xs.push(cur_x as int);
            }
            i = i + 1;
        }
        proof {
            lemma_pos_chain_row_intro(
                orig,
                self.children@,
                xs,
                old(self).y,
                old(self).spacing as int,
            );
        }
    }

    /// Add a child to the row and reflow the layout.
    pub fn push(&mut self, component: Widget)
        ensures
            final(self).spacing == old(self).spacing,
            final(self).x == old(self).x,
            final(self).y == old(self).y,
            final(self).height == old(self).height,
            rel_pos_chain_row(
                old(self).children@.push(component),
                final(self).children@,
                old(self).x as int,
                old(self).y,
                old(self).spacing as int,
            ),
    {
        self.children.push(component);
        self.update_layout();
    }
}

} // verus!
