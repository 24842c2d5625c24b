//! A vertical column of components.
//!
//! Children are positioned top to bottom from the column's own position,
//! each offset by the running y coordinate plus a fixed spacing after every
//! element. The column's reported size is the tight bounding box of its
//! children, derived on every query. A column ignores parent-driven
//! resizing.

use vstd::prelude::*;
use crate::widget::{Widget, rel_pos_chain_col, lemma_pos_chain_col_intro};
use crate::geometry::{Point, Size, sat_add_i64, spec_sat_add_i64};

verus! {

broadcast use vstd::seq::axiom_seq_index_decreases;

/// A vertical column of components.
pub struct Column {
    pub children: Vec<Widget>,
    pub spacing: usize,
    pub position: Point,
    pub size: Size,
}

impl Column {
    /// Constructor.
    pub fn new(x: i64, y: i64, spacing: usize, width: u32, height: u32) -> (r: Self)
        ensures
            r.children@.len() == 0,
            r.spacing == spacing,
            r.position == (Point { x, y }),
            r.size == (Size { width, height }),
    {
        Self { children: Vec::new(), spacing, position: Point { x, y }, size: Size { width, height } }
    }

    /// A column's extent is content-driven, never owned by its parent.
    pub fn fills_parent_container(&self) -> (r: bool)
        ensures
            !r,
    {
        false
    }

    /// A column ignores parent-driven resizing.
    pub fn resize(&mut self, width: u32, height: u32)
        ensures
            *final(self) == *old(self),
    {
    }

    /// Reposition every child: each is placed at the running y coordinate,
    /// which advances by the child's height plus the spacing.
    #[verifier::loop_isolation(false)]
    pub fn update_layout(&mut self)
        ensures
            final(self).spacing == old(self).spacing,
            final(self).position == old(self).position,
            final(self).size == old(self).size,
            rel_pos_chain_col(
                old(self).children@,
                final(self).children@,
                old(self).position.x,
                old(self).position.y as int,
                old(self).spacing as int,
            ),
        decreases old(self).children@, 2int,
    {
        let ghost orig = self.children@;
        let x = self.position.x;
        let spacing = self.spacing;
        let spacing_i: i64 = if (spacing as u64) > 0x7fffffffffffffff {
            i64::MAX
        } else {
            spacing as i64
        };
        let mut cur_y: i64 = self.position.y;
        let ghost mut ys: Seq<int> = seq![self.position.y as int];
        let mut i: usize = 0;
        while i < self.children.len()
            invariant
                i <= orig.len(),
                self.children@.len() == orig.len(),
                self.spacing == old(self).spacing,
                self.position == old(self).position,
                self.size == old(self).size,
                spacing_i as int == crate::widget::spec_spacing_i64(old(self).spacing as int),
                ys.len() == i + 1,
                ys[0] == old(self).position.y as int,
                cur_y as int == ys[i as int],
                forall|j: int| 0 <= j <= i ==> i64::MIN <= #[trigger] ys[j] <= i64::MAX,
                forall|j: int|
                    0 <= j < i ==> crate::widget::rel_set_position(
                        orig[j],
                        #[trigger] self.children@[j],
                        old(self).position.x,
                        ys[j] as i64,
                    ),
                forall|j: int|
                    0 <= j < i ==> #[trigger] ys[j + 1] == spec_sat_add_i64(
                        spec_sat_add_i64(
                            ys[j],
                            crate::widget::spec_get_size(self.children@[j]).height as int,
                        ),
                        crate::widget::spec_spacing_i64(old(self).spacing as int),
                    ),
                forall|j: int| i <= j < orig.len() ==> #[trigger] self.children@[j] == orig[j],
            decreases orig.len() - i,
        {
            proof {
                let oc = old(self).children@;
                assert(decreases_to!(oc => oc[i as int]));
                assert(oc[i as int] == self.children@[i as int]);
            }
            self.children[i].set_position(x, cur_y);
            let sz = self.children[i].get_size();
            cur_y = sat_add_i64(sat_add_i64(cur_y, sz.height as i64), spacing_i);
            proof {
                ys = ys.push(cur_y as int);
            }
            i = i + 1;
        }
        proof {
            lemma_pos_chain_col_intro(
                orig,
                self.children@,
                ys,
                old(self).position.x,
                old(self).spacing as int,
            );
        }
    }

    /// Add a child to the column and reflow the layout.
    pub fn push(&mut self, component: Widget)
        ensures
            final(self).spacing == old(self).spacing,
            final(self).position == old(self).position,
            final(self).size == old(self).size,
            rel_pos_chain_col(
                old(self).children@.push(component),
                final(self).children@,
                old(self).position.x,
                old(self).position.y as int,
                old(self).spacing as int,
            ),
    {
        self.children.push(component);
        self.update_layout();
    }
}

} // verus!
