//! The widget tree: a closed sum of every component and container kind,
//! with one dispatch function per component operation.
//!
//! Heterogeneous trees are built from `Widget` values; containers hold
//! `Widget` children and every operation (input handling, layout, drawing)
//! recurses through the tree. The semantics of each mutating operation is
//! captured by a relation between the tree before and after the call, stated
//! structurally over the tree.

use vstd::prelude::*;
use crate::component::button::{Button, spec_after_mouse, spec_button_draw_post, spec_mouse_events};
use crate::component::textarea::{TextArea, spec_textarea_draw_post};
use crate::component::tooltip::Tooltip;
use crate::container::border::BorderLayout;
use crate::container::column::Column;
use crate::container::panel::Panel;
use crate::container::row::Row;
use crate::event::{KeyboardEvent, MouseInput, ScrollDelta, UiEvent};
use crate::geometry::{Point, Size, spec_sat_add_i64};
use crate::view::BufferContext;

verus! {

broadcast use vstd::seq::axiom_seq_index_decreases;

/// A drawable, input-responsive UI element: a leaf component or a container
/// of further widgets.
pub enum Widget {
    Button(Button),
    TextArea(TextArea),
    Tooltip(Tooltip),
    Row(Row),
    Column(Column),
    Panel(Panel),
    Border(BorderLayout),
}

/// A value clamped into the `u32` range.
pub open spec fn spec_clamp_u32(v: int) -> int {
    if v < 0 {
        0
    } else if v > u32::MAX as int {
        u32::MAX as int
    } else {
        v
    }
}

/// A spacing value clamped into the `i64` range.
pub open spec fn spec_spacing_i64(s: int) -> int {
    if s > i64::MAX as int {
        i64::MAX as int
    } else {
        s
    }
}

/// Every text cursor in the tree lies within its text.
pub open spec fn spec_wf(w: Widget) -> bool
    decreases w,
{
    match w {
        Widget::Button(_) => true,
        Widget::TextArea(t) => t.wf(),
        Widget::Tooltip(_) => true,
        Widget::Row(r) => forall|i: int|
            0 <= i < r.children@.len() ==> spec_wf(#[trigger] r.children@[i]),
        Widget::Column(c) => forall|i: int|
            0 <= i < c.children@.len() ==> spec_wf(#[trigger] c.children@[i]),
        Widget::Panel(p) => match p.component {
            Option::Some(c) => spec_wf(*c),
            Option::None => true,
        },
        Widget::Border(b) => {
            &&& match b.east {
                Option::Some(c) => spec_wf(*c),
                Option::None => true,
            }
            &&& match b.west {
                Option::Some(c) => spec_wf(*c),
                Option::None => true,
            }
            &&& match b.north {
                Option::Some(c) => spec_wf(*c),
                Option::None => true,
            }
            &&& match b.south {
                Option::Some(c) => spec_wf(*c),
                Option::None => true,
            }
            &&& match b.center {
                Option::Some(c) => spec_wf(*c),
                Option::None => true,
            }
        },
    }
}

/// The position a widget reports: its stored origin, except that a row
/// reports its first child's position (or the origin of the coordinate
/// system when it has no children).
pub open spec fn spec_get_position(w: Widget) -> Point
    decreases w,
{
    match w {
        Widget::Button(b) => b.position,
        Widget::TextArea(t) => t.position,
        Widget::Tooltip(t) => t.position,
        Widget::Row(r) => if r.children@.len() == 0 {
            Point { x: 0, y: 0 }
        } else {
            spec_get_position(r.children@[0])
        },
        Widget::Column(c) => c.position,
        Widget::Panel(p) => p.position,
        Widget::Border(b) => b.position,
    }
}

/// The bounding box of a non-empty run of widgets, as
/// `(min x, min y, max x, max y)` over each widget's position and extent.
pub open spec fn spec_bbox(cs: Seq<Widget>) -> (int, int, int, int)
    decreases cs,
{
    if cs.len() == 0 {
        (0, 0, 0, 0)
    } else {
        let last = cs.last();
        let px = spec_get_position(last).x as int;
        let py = spec_get_position(last).y as int;
        let sx = px + spec_get_size(last).width;
        let sy = py + spec_get_size(last).height;
        if cs.len() == 1 {
            (px, py, sx, sy)
        } else {
            let (ax, ay, bx, maxy) = spec_bbox(cs.drop_last());
            (
                vstd::math::min(px, ax),
                vstd::math::min(py, ay),
                vstd::math::max(sx, bx),
                vstd::math::max(sy, maxy),
            )
        }
    }
}

/// The size a widget reports: the stored extent for leaves, panels and
/// border layouts; for rows and columns the tight bounding box of their
/// children, derived on every query.
pub open spec fn spec_get_size(w: Widget) -> Size
    decreases w,
{
    match w {
        Widget::Button(b) => b.size,
        Widget::TextArea(t) => t.size,
        Widget::Tooltip(t) => t.size,
        Widget::Row(r) => if r.children@.len() == 0 {
            Size { width: 0, height: 0 }
        } else {
            let (ax, ay, bx, maxy) = spec_bbox(r.children@);
            Size {
                width: spec_clamp_u32(bx - ax) as u32,
                height: spec_clamp_u32(maxy - ay) as u32,
            }
        },
        Widget::Column(c) => if c.children@.len() == 0 {
            Size { width: 0, height: 0 }
        } else {
            let (ax, ay, bx, maxy) = spec_bbox(c.children@);
            Size {
                width: spec_clamp_u32(bx - ax) as u32,
                height: spec_clamp_u32(maxy - ay) as u32,
            }
        },
        Widget::Panel(p) => p.size,
        Widget::Border(b) => b.size,
    }
}

/// Whether the widget's size is owned by its parent: a panel and a border
/// layout fill their parent container; rows, columns and leaves keep their
/// own extent.
pub open spec fn spec_fills_parent(w: Widget) -> bool {
    match w {
        Widget::Panel(_) => true,
        Widget::Border(_) => true,
        _ => false,
    }
}

/// The width of an optional slot, or 0 when the slot is empty.
pub open spec fn spec_slot_width(s: Option<Box<Widget>>) -> int {
    match s {
        Option::Some(c) => spec_get_size(*c).width as int,
        Option::None => 0,
    }
}

/// The height of an optional slot, or 0 when the slot is empty.
pub open spec fn spec_slot_height(s: Option<Box<Widget>>) -> int {
    match s {
        Option::Some(c) => spec_get_size(*c).height as int,
        Option::None => 0,
    }
}

/// How `set_position` transforms a widget: the widget's stored origin moves
/// to `(x, y)`, its extent is kept, and a container reflows its children
/// from the new origin.
pub open spec fn rel_set_position(a: Widget, b: Widget, x: i64, y: i64) -> bool
    decreases a, 1int,
{
    match (a, b) {
        (Widget::Button(p), Widget::Button(q)) => q == (Button {
            position: Point { x, y },
            ..p
        }),
        (Widget::TextArea(p), Widget::TextArea(q)) => q == (TextArea {
            position: Point { x, y },
            ..p
        }),
        (Widget::Tooltip(p), Widget::Tooltip(q)) => q == (Tooltip {
            position: Point { x, y },
            ..p
        }),
        (Widget::Row(r), Widget::Row(s)) => {
            &&& s.spacing == r.spacing
            &&& s.height == r.height
            &&& s.x == x
            &&& s.y == y
            &&& rel_pos_chain_row(r.children@, s.children@, x as int, y, r.spacing as int)
        },
        (Widget::Column(c), Widget::Column(d)) => {
            &&& d.spacing == c.spacing
            &&& d.size == c.size
            &&& d.position == (Point { x, y })
            &&& rel_pos_chain_col(c.children@, d.children@, x, y as int, c.spacing as int)
        },
        (Widget::Panel(p), _) => rel_arrange(a, b, x, y, p.size.width, p.size.height),
        (Widget::Border(p), _) => rel_arrange(a, b, x, y, p.size.width, p.size.height),
        _ => false,
    }
}

/// The row chain: child `i` sits at the running x coordinate, which starts
/// at the row's origin and advances past each child by its width plus the
/// spacing (all additions saturating).
pub open spec fn rel_pos_chain_row(
    olds: Seq<Widget>,
    news: Seq<Widget>,
    curx: int,
    y: i64,
    spacing: int,
) -> bool
    decreases olds, 0int,
{
    &&& news.len() == olds.len()
    &&& (olds.len() == 0 || {
        &&& rel_set_position(olds[0], news[0], curx as i64, y)
        &&& rel_pos_chain_row(
            olds.drop_first(),
            news.drop_first(),
            spec_sat_add_i64(
                spec_sat_add_i64(curx, spec_get_size(news[0]).width as int),
                spec_spacing_i64(spacing),
            ),
            y,
            spacing,
        )
    })
}

/// The column chain: child `i` sits at the running y coordinate, which
/// starts at the column's origin and advances past each child by its height
/// plus the spacing (all additions saturating).
pub open spec fn rel_pos_chain_col(
    olds: Seq<Widget>,
    news: Seq<Widget>,
    x: i64,
    cury: int,
    spacing: int,
) -> bool
    decreases olds, 0int,
{
    &&& news.len() == olds.len()
    &&& (olds.len() == 0 || {
        &&& rel_set_position(olds[0], news[0], x, cury as i64)
        &&& rel_pos_chain_col(
            olds.drop_first(),
            news.drop_first(),
            x,
            spec_sat_add_i64(
                spec_sat_add_i64(cury, spec_get_size(news[0]).height as int),
                spec_spacing_i64(spacing),
            ),
            spacing,
        )
    })
}

/// How `arrange` transforms a widget: one pass that moves the widget to
/// `(x, y)`, gives it the extent `width x height` (a row only takes the
/// height; rows and columns keep their content-driven extent), and reflows
/// children. A panel passes its full bounds to its child; a border layout
/// arranges its compass slots.
pub open spec fn rel_arrange(a: Widget, b: Widget, x: i64, y: i64, w: u32, h: u32) -> bool
    decreases a, 0int,
{
    match (a, b) {
        (Widget::Button(p), Widget::Button(q)) => q == (Button {
            position: Point { x, y },
            size: Size { width: w, height: h },
            ..p
        }),
        (Widget::TextArea(p), Widget::TextArea(q)) => q == (TextArea {
            position: Point { x, y },
            size: Size { width: w, height: h },
            ..p
        }),
        (Widget::Tooltip(p), Widget::Tooltip(q)) => q == (Tooltip {
            position: Point { x, y },
            size: Size { width: w, height: h },
            ..p
        }),
        (Widget::Row(r), Widget::Row(s)) => {
            &&& s.spacing == r.spacing
            &&& s.height == h as usize
            &&& s.x == x
            &&& s.y == y
            &&& rel_pos_chain_row(r.children@, s.children@, x as int, y, r.spacing as int)
        },
        (Widget::Column(c), Widget::Column(d)) => {
            &&& d.spacing == c.spacing
            &&& d.size == (Size { width: w, height: h })
            &&& d.position == (Point { x, y })
            &&& rel_pos_chain_col(c.children@, d.children@, x, y as int, c.spacing as int)
        },
        (Widget::Panel(p), Widget::Panel(q)) => {
            &&& q.position == (Point { x, y })
            &&& q.size == (Size { width: w, height: h })
            &&& rel_arrange_opt(p.component, q.component, x, y, w, h)
        },
        (Widget::Border(p), Widget::Border(q)) => {
            &&& q.position == (Point { x, y })
            &&& q.size == (Size { width: w, height: h })
            &&& rel_border_slots(p, q, x, y, w, h)
        },
        _ => false,
    }
}

/// `rel_arrange` lifted to an optional slot: an empty slot stays empty.
pub open spec fn rel_arrange_opt(
    s: Option<Box<Widget>>,
    t: Option<Box<Widget>>,
    x: i64,
    y: i64,
    w: u32,
    h: u32,
) -> bool
    decreases s, 0int,
{
    match (s, t) {
        (Option::None, Option::None) => true,
        (Option::Some(c), Option::Some(d)) => rel_arrange(*c, *d, x, y, w, h),
        _ => false,
    }
}

/// The compass arrangement of a border layout's slots within the rectangle
/// at `(x, y)` of extent `w x h`: east and west take the full height keeping
/// their own width, north and south take the full width keeping their own
/// height, and the center fills what remains; the slot sizes are measured
/// before any slot moves.
pub open spec fn rel_border_slots(
    a: BorderLayout,
    b: BorderLayout,
    x: i64,
    y: i64,
    w: u32,
    h: u32,
) -> bool
    decreases a, 0int,
{
    let ww = spec_slot_width(a.west);
    let ew = spec_slot_width(a.east);
    let nh = spec_slot_height(a.north);
    let sh = spec_slot_height(a.south);
    let cw = spec_clamp_u32(w - ww - ew) as u32;
    let ch = spec_clamp_u32(h - nh - sh) as u32;
    let wy = spec_sat_add_i64(y as int, nh) as i64;
    let ex = spec_sat_add_i64(spec_sat_add_i64(x as int, ww), cw as int) as i64;
    let sy = spec_sat_add_i64(spec_sat_add_i64(y as int, nh), ch as int) as i64;
    let cx = spec_sat_add_i64(x as int, ww) as i64;
    &&& rel_arrange_opt(a.east, b.east, ex, wy, ew as u32, h)
    &&& rel_arrange_opt(a.west, b.west, x, wy, ww as u32, h)
    &&& rel_arrange_opt(a.north, b.north, x, y, w, nh as u32)
    &&& rel_arrange_opt(a.south, b.south, x, sy, w, sh as u32)
    &&& rel_arrange_opt(a.center, b.center, cx, wy, cw, ch)
}

/// How `set_size` transforms a widget: the extent is replaced (a row only
/// takes the height) and a container reflows its children from its current
/// origin; a panel or border layout stores the size and arranges its
/// children on the next layout pass.
pub open spec fn rel_set_size(a: Widget, b: Widget, w: u32, h: u32) -> bool {
    match a {
        Widget::Button(p) => rel_arrange(a, b, p.position.x, p.position.y, w, h),
        Widget::TextArea(p) => rel_arrange(a, b, p.position.x, p.position.y, w, h),
        Widget::Tooltip(p) => rel_arrange(a, b, p.position.x, p.position.y, w, h),
        Widget::Row(r) => rel_arrange(a, b, r.x, r.y, w, h),
        Widget::Column(c) => rel_arrange(a, b, c.position.x, c.position.y, w, h),
        Widget::Panel(p) => b == Widget::Panel(Panel { size: Size { width: w, height: h }, ..p }),
        Widget::Border(p) => b == Widget::Border(
            BorderLayout { size: Size { width: w, height: h }, ..p },
        ),
    }
}

/// How a parent-driven `resize` transforms a widget: rows, columns and
/// leaves ignore it; a panel or border layout takes the new extent and
/// arranges its children within it at its current position.
pub open spec fn rel_resize(a: Widget, b: Widget, w: u32, h: u32) -> bool {
    match a {
        Widget::Panel(p) => rel_arrange(a, b, p.position.x, p.position.y, w, h),
        Widget::Border(p) => rel_arrange(a, b, p.position.x, p.position.y, w, h),
        _ => b == a,
    }
}

/// Pointwise placement facts assemble into the row chain.
pub proof fn lemma_pos_chain_row_intro(
    olds: Seq<Widget>,
    news: Seq<Widget>,
    xs: Seq<int>,
    y: i64,
    spacing: int,
)
    requires
        news.len() == olds.len(),
        xs.len() == olds.len() + 1,
        forall|j: int| 0 <= j < xs.len() ==> i64::MIN <= #[trigger] xs[j] <= i64::MAX,
        forall|j: int|
            0 <= j < olds.len() ==> rel_set_position(
                #[trigger] olds[j],
                news[j],
                xs[j] as i64,
                y,
            ),
        forall|j: int|
            0 <= j < olds.len() ==> #[trigger] xs[j + 1] == spec_sat_add_i64(
                spec_sat_add_i64(xs[j], spec_get_size(news[j]).width as int),
                spec_spacing_i64(spacing),
            ),
    ensures
        rel_pos_chain_row(olds, news, xs[0], y, spacing),
    decreases olds.len(),
{
    if olds.len() > 0 {
        let olds2 = olds.drop_first();
        let news2 = news.drop_first();
        let xs2 = xs.drop_first();
        assert forall|j: int| 0 <= j < olds2.len() implies rel_set_position(
            #[trigger] olds2[j],
            news2[j],
            xs2[j] as i64,
            y,
        ) by {
            assert(olds2[j] == olds[j + 1]);
            assert(news2[j] == news[j + 1]);
            assert(xs2[j] == xs[j + 1]);
        }
        assert forall|j: int| 0 <= j < olds2.len() implies #[trigger] xs2[j + 1]
            == spec_sat_add_i64(
            spec_sat_add_i64(xs2[j], spec_get_size(news2[j]).width as int),
            spec_spacing_i64(spacing),
        ) by {
            assert(xs2[j + 1] == xs[j + 2]);
            assert(xs2[j] == xs[j + 1]);
            assert(news2[j] == news[j + 1]);
        }
        lemma_pos_chain_row_intro(olds2, news2, xs2, y, spacing);
        assert(xs2[0] == xs[1]);
    }
}

/// Pointwise placement facts assemble into the column chain.
pub proof fn lemma_pos_chain_col_intro(
    olds: Seq<Widget>,
    news: Seq<Widget>,
    ys: Seq<int>,
    x: i64,
    spacing: int,
)
    requires
        news.len() == olds.len(),
        ys.len() == olds.len() + 1,
        forall|j: int| 0 <= j < ys.len() ==> i64::MIN <= #[trigger] ys[j] <= i64::MAX,
        forall|j: int|
            0 <= j < olds.len() ==> rel_set_position(
                #[trigger] olds[j],
                news[j],
                x,
                ys[j] as i64,
            ),
        forall|j: int|
            0 <= j < olds.len() ==> #[trigger] ys[j + 1] == spec_sat_add_i64(
                spec_sat_add_i64(ys[j], spec_get_size(news[j]).height as int),
                spec_spacing_i64(spacing),
            ),
    ensures
        rel_pos_chain_col(olds, news, x, ys[0], spacing),
    decreases olds.len(),
{
    if olds.len() > 0 {
        let olds2 = olds.drop_first();
        let news2 = news.drop_first();
        let ys2 = ys.drop_first();
        assert forall|j: int| 0 <= j < olds2.len() implies rel_set_position(
            #[trigger] olds2[j],
            news2[j],
            x,
            ys2[j] as i64,
        ) by {
            assert(olds2[j] == olds[j + 1]);
            assert(news2[j] == news[j + 1]);
            assert(ys2[j] == ys[j + 1]);
        }
        assert forall|j: int| 0 <= j < olds2.len() implies #[trigger] ys2[j + 1]
            == spec_sat_add_i64(
            spec_sat_add_i64(ys2[j], spec_get_size(news2[j]).height as int),
            spec_spacing_i64(spacing),
        ) by {
            assert(ys2[j + 1] == ys[j + 2]);
            assert(ys2[j] == ys[j + 1]);
            assert(news2[j] == news[j + 1]);
        }
        lemma_pos_chain_col_intro(olds2, news2, ys2, x, spacing);
        assert(ys2[0] == ys[1]);
    }
}

impl Widget {
    /// Set the widget's position; a container reflows its children from the
    /// new origin.
    pub fn set_position(&mut self, x: i64, y: i64)
        ensures
            rel_set_position(*old(self), *final(self), x, y),
        decreases *old(self), 1int,
    {
        match self {
            Widget::Button(b) => {
                b.position = Point { x, y };
            },
            Widget::TextArea(t) => {
                t.position = Point { x, y };
            },
            Widget::Tooltip(t) => {
                t.position = Point { x, y };
            },
            Widget::Row(r) => {
                r.x = x;
                r.y = y;
                proof {
                    let ow = *old(self);
                    assert(decreases_to!(ow => ow->Row_0));
                    assert(decreases_to!(ow->Row_0 => ow->Row_0.children));
                    assert(decreases_to!(ow->Row_0.children => ow->Row_0.children@));
                    assert(ow->Row_0.children@ == r.children@);
                }
                r.update_layout();
            },
            Widget::Column(c) => {
                c.position = Point { x, y };
                proof {
                    let ow = *old(self);
                    assert(decreases_to!(ow => ow->Column_0));
                    assert(decreases_to!(ow->Column_0 => ow->Column_0.children));
                    assert(decreases_to!(ow->Column_0.children => ow->Column_0.children@));
                    assert(ow->Column_0.children@ == c.children@);
                }
                c.update_layout();
            },
            Widget::Panel(p) => {
                let w = p.size.width;
                let h = p.size.height;
                self.arrange(x, y, w, h);
            },
            Widget::Border(b) => {
                let w = b.size.width;
                let h = b.size.height;
                self.arrange(x, y, w, h);
            },
        }
    }

    /// Move the widget to `(x, y)` and give it the extent `width x height`
    /// in one pass (rows take only the height; rows and columns keep their
    /// content-driven extent), reflowing all children.
    #[verifier::rlimit(100)]
    pub fn arrange(&mut self, x: i64, y: i64, w: u32, h: u32)
        ensures
            rel_arrange(*old(self), *final(self), x, y, w, h),
        decreases *old(self), 0int,
    {
        match self {
            Widget::Button(b) => {
                b.position = Point { x, y };
                b.size = Size { width: w, height: h };
            },
            Widget::TextArea(t) => {
                t.position = Point { x, y };
                t.size = Size { width: w, height: h };
            },
            Widget::Tooltip(t) => {
                t.position = Point { x, y };
                t.size = Size { width: w, height: h };
            },
            Widget::Row(r) => {
                r.x = x;
                r.y = y;
                r.height = h as usize;
                proof {
                    let ow = *old(self);
                    assert(decreases_to!(ow => ow->Row_0));
                    assert(decreases_to!(ow->Row_0 => ow->Row_0.children));
                    assert(decreases_to!(ow->Row_0.children => ow->Row_0.children@));
                    assert(ow->Row_0.children@ == r.children@);
                }
                r.update_layout();
            },
            Widget::Column(c) => {
                c.position = Point { x, y };
                c.size = Size { width: w, height: h };
                proof {
                    let ow = *old(self);
                    assert(decreases_to!(ow => ow->Column_0));
                    assert(decreases_to!(ow->Column_0 => ow->Column_0.children));
                    assert(decreases_to!(ow->Column_0.children => ow->Column_0.children@));
                    assert(ow->Column_0.children@ == c.children@);
                }
                c.update_layout();
            },
            Widget::Panel(p) => {
                p.position = Point { x, y };
                p.size = Size { width: w, height: h };
                proof {
                    let ow = *old(self);
                    assert(decreases_to!(ow => ow->Panel_0));
                    assert(decreases_to!(ow->Panel_0 => ow->Panel_0.component));
                    assert(ow->Panel_0.component == p.component);
                }
                p.update_layout();
            },
            Widget::Border(b) => {
                b.position = Point { x, y };
                b.size = Size { width: w, height: h };
                let ww: u32 = match &b.west {
                    Some(c) => c.get_size().width,
                    None => 0,
                };
                let ew: u32 = match &b.east {
                    Some(c) => c.get_size().width,
                    None => 0,
                };
                let nh: u32 = match &b.north {
                    Some(c) => c.get_size().height,
                    None => 0,
                };
                let sh: u32 = match &b.south {
                    Some(c) => c.get_size().height,
                    None => 0,
                };
                let cw: u32 = {
                    let v: i128 = w as i128 - ww as i128 - ew as i128;
                    if v < 0 {
                        0
                    } else {
                        v as u32
                    }
                };
                let ch: u32 = {
                    let v: i128 = h as i128 - nh as i128 - sh as i128;
                    if v < 0 {
                        0
                    } else {
                        v as u32
                    }
                };
                let wy: i64 = crate::geometry::sat_add_i64(y, nh as i64);
                let ex: i64 = crate::geometry::sat_add_i64(
                    crate::geometry::sat_add_i64(x, ww as i64),
                    cw as i64,
                );
                let sy: i64 = crate::geometry::sat_add_i64(
                    crate::geometry::sat_add_i64(y, nh as i64),
                    ch as i64,
                );
                let cx: i64 = crate::geometry::sat_add_i64(x, ww as i64);
                proof {
                    let ow = *old(self);
                    assert(decreases_to!(ow => ow->Border_0));
                    assert(decreases_to!(ow->Border_0 => ow->Border_0.east));
                    assert(decreases_to!(ow->Border_0 => ow->Border_0.west));
                    assert(decreases_to!(ow->Border_0 => ow->Border_0.north));
                    assert(decreases_to!(ow->Border_0 => ow->Border_0.south));
                    assert(decreases_to!(ow->Border_0 => ow->Border_0.center));
                }
                match b.east.take() {
                    Some(mut c) => {
                        proof {
                            let os = old(self)->Border_0.east;
                            assert(os is Some);
                            assert(decreases_to!(os => os->0));
                        }
                        c.arrange(ex, wy, ew, h);
                        b.east = Some(c);
                    },
                    None => {},
                }
                match b.west.take() {
                    Some(mut c) => {
                        proof {
                            let os = old(self)->Border_0.west;
                            assert(os is Some);
                            assert(decreases_to!(os => os->0));
                        }
                        c.arrange(x, wy, ww, h);
                        b.west = Some(c);
                    },
                    None => {},
                }
                match b.north.take() {
                    Some(mut c) => {
                        proof {
                            let os = old(self)->Border_0.north;
                            assert(os is Some);
                            assert(decreases_to!(os => os->0));
                        }
                        c.arrange(x, y, w, nh);
                        b.north = Some(c);
                    },
                    None => {},
                }
                match b.south.take() {
                    Some(mut c) => {
                        proof {
                            let os = old(self)->Border_0.south;
                            assert(os is Some);
                            assert(decreases_to!(os => os->0));
                        }
                        c.arrange(x, sy, w, sh);
                        b.south = Some(c);
                    },
                    None => {},
                }
                match b.center.take() {
                    Some(mut c) => {
                        proof {
                            let os = old(self)->Border_0.center;
                            assert(os is Some);
                            assert(decreases_to!(os => os->0));
                        }
                        c.arrange(cx, wy, cw, ch);
                        b.center = Some(c);
                    },
                    None => {},
                }
                proof {
                    let p0 = old(self)->Border_0;
                    assert(spec_slot_width(p0.west) == ww as int);
                    assert(spec_slot_width(p0.east) == ew as int);
                    assert(spec_slot_height(p0.north) == nh as int);
                    assert(spec_slot_height(p0.south) == sh as int);
                    assert(cw as int == spec_clamp_u32(w - spec_slot_width(p0.west)
                        - spec_slot_width(p0.east)));
                    assert(ch as int == spec_clamp_u32(h - spec_slot_height(p0.north)
                        - spec_slot_height(p0.south)));
                    assert(wy as int == spec_sat_add_i64(y as int, spec_slot_height(p0.north)));
                    assert(rel_arrange_opt(p0.east, b.east, ex, wy, ew, h));
                    assert(rel_arrange_opt(p0.west, b.west, x, wy, ww, h));
                    assert(rel_arrange_opt(p0.north, b.north, x, y, w, nh));
                    assert(rel_arrange_opt(p0.south, b.south, x, sy, w, sh));
                    assert(rel_arrange_opt(p0.center, b.center, cx, wy, cw, ch));
                    assert(rel_border_slots(p0, *b, x, y, w, h));
                }
            },
        }
    }

    /// Set the widget's extent; containers reflow their children.
    pub fn set_size(&mut self, width: u32, height: u32)
        ensures
            rel_set_size(*old(self), *final(self), width, height),
        decreases *old(self), 1int,
    {
        match self {
            Widget::Button(b) => {
                let x = b.position.x;
                let y = b.position.y;
                self.arrange(x, y, width, height);
            },
            Widget::TextArea(t) => {
                let x = t.position.x;
                let y = t.position.y;
                self.arrange(x, y, width, height);
            },
            Widget::Tooltip(t) => {
                let x = t.position.x;
                let y = t.position.y;
                self.arrange(x, y, width, height);
            },
            Widget::Row(r) => {
                let x = r.x;
                let y = r.y;
                self.arrange(x, y, width, height);
            },
            Widget::Column(c) => {
                let x = c.position.x;
                let y = c.position.y;
                self.arrange(x, y, width, height);
            },
            Widget::Panel(p) => {
                p.size = Size { width, height };
            },
            Widget::Border(b) => {
                b.size = Size { width, height };
            },
        }
    }

    /// React to the parent container's resize: rows, columns and leaves
    /// ignore it; a panel or border layout fills the new extent.
    pub fn resize(&mut self, width: u32, height: u32)
        ensures
            rel_resize(*old(self), *final(self), width, height),
        decreases *old(self), 1int,
    {
        match self {
            Widget::Panel(p) => {
                let x = p.position.x;
                let y = p.position.y;
                self.arrange(x, y, width, height);
            },
            Widget::Border(b) => {
                let x = b.position.x;
                let y = b.position.y;
                self.arrange(x, y, width, height);
            },
            _ => {},
        }
    }

    /// The position the widget reports.
    pub fn get_position(&self) -> (r: Point)
        ensures
            r == spec_get_position(*self),
        decreases *self,
    {
        match self {
            Widget::Button(b) => b.position,
            Widget::TextArea(t) => t.position,
            Widget::Tooltip(t) => t.position,
            Widget::Row(r) => {
                if r.children.len() == 0 {
                    Point { x: 0, y: 0 }
                } else {
                    proof {
                        let sw = *self;
                        assert(decreases_to!(sw => sw->Row_0));
                        assert(decreases_to!(sw->Row_0 => sw->Row_0.children));
                        assert(decreases_to!(sw->Row_0.children => sw->Row_0.children@));
                        assert(decreases_to!(sw->Row_0.children@ => sw->Row_0.children@[0]));
                    }
                    r.children[0].get_position()
                }
            },
            Widget::Column(c) => c.position,
            Widget::Panel(p) => p.position,
            Widget::Border(b) => b.position,
        }
    }

    /// The size the widget reports. For rows and columns this is the tight
    /// bounding box of their children, derived on every query.
    pub fn get_size(&self) -> (r: Size)
        ensures
            r == spec_get_size(*self),
        decreases *self,
    {
        match self {
            Widget::Button(b) => b.size,
            Widget::TextArea(t) => t.size,
            Widget::Tooltip(t) => t.size,
            Widget::Row(r) => {
                if r.children.len() == 0 {
                    Size { width: 0, height: 0 }
                } else {
                    proof {
                        let sw = *self;
                        assert(decreases_to!(sw => sw->Row_0));
                        assert(decreases_to!(sw->Row_0 => sw->Row_0.children));
                        assert(decreases_to!(sw->Row_0.children => sw->Row_0.children@));
                    }
                    let (ax, ay, bx, maxy) = bbox_of(&r.children);
                    Size {
                        width: clamp_to_u32(bx - ax),
                        height: clamp_to_u32(maxy - ay),
                    }
                }
            },
            Widget::Column(c) => {
                if c.children.len() == 0 {
                    Size { width: 0, height: 0 }
                } else {
                    proof {
                        let sw = *self;
                        assert(decreases_to!(sw => sw->Column_0));
                        assert(decreases_to!(sw->Column_0 => sw->Column_0.children));
                        assert(decreases_to!(sw->Column_0.children => sw->Column_0.children@));
                    }
                    let (ax, ay, bx, maxy) = bbox_of(&c.children);
                    Size { width: clamp_to_u32(bx - ax), height: clamp_to_u32(maxy - ay) }
                }
            },
            Widget::Panel(p) => p.size,
            Widget::Border(b) => b.size,
        }
    }

    /// Whether the widget's size is owned by its parent.
    pub fn fills_parent_container(&self) -> (r: bool)
        ensures
            r == spec_fills_parent(*self),
    {
        match self {
            Widget::Panel(_) => true,
            Widget::Border(_) => true,
            _ => false,
        }
    }
}

/// How one mouse event transforms a widget: leaves run their own state
/// machines, containers fan the event out to every child unconditionally.
pub open spec fn rel_mouse(a: Widget, b: Widget, input: MouseInput) -> bool
    decreases a, 1int,
{
    match (a, b) {
        (Widget::Button(p), _) => b == Widget::Button(spec_after_mouse(p, input)),
        (Widget::TextArea(p), _) => b == Widget::TextArea(
            crate::component::textarea::spec_ta_after_mouse(p, input),
        ),
        (Widget::Tooltip(_), _) => b == a,
        (Widget::Row(r), Widget::Row(s)) => {
            &&& s.spacing == r.spacing
            &&& s.x == r.x
            &&& s.y == r.y
            &&& s.height == r.height
            &&& rel_mouse_seq(r.children@, s.children@, input)
        },
        (Widget::Column(c), Widget::Column(d)) => {
            &&& d.spacing == c.spacing
            &&& d.position == c.position
            &&& d.size == c.size
            &&& rel_mouse_seq(c.children@, d.children@, input)
        },
        (Widget::Panel(p), Widget::Panel(q)) => {
            &&& q.position == p.position
            &&& q.size == p.size
            &&& rel_mouse_opt(p.component, q.component, input)
        },
        (Widget::Border(p), Widget::Border(q)) => {
            &&& q.position == p.position
            &&& q.size == p.size
            &&& rel_mouse_opt(p.east, q.east, input)
            &&& rel_mouse_opt(p.west, q.west, input)
            &&& rel_mouse_opt(p.north, q.north, input)
            &&& rel_mouse_opt(p.south, q.south, input)
            &&& rel_mouse_opt(p.center, q.center, input)
        },
        _ => false,
    }
}

/// `rel_mouse`, pointwise over children.
pub open spec fn rel_mouse_seq(olds: Seq<Widget>, news: Seq<Widget>, input: MouseInput) -> bool
    decreases olds, 2int,
{
    &&& news.len() == olds.len()
    &&& forall|i: int| 0 <= i < olds.len() ==> rel_mouse(#[trigger] olds[i], news[i], input)
}

/// `rel_mouse`, lifted to an optional slot.
pub open spec fn rel_mouse_opt(
    s: Option<Box<Widget>>,
    t: Option<Box<Widget>>,
    input: MouseInput,
) -> bool
    decreases s, 2int,
{
    match (s, t) {
        (Option::None, Option::None) => true,
        (Option::Some(c), Option::Some(d)) => rel_mouse(*c, *d, input),
        _ => false,
    }
}

/// The notifications a tree emits while handling one mouse event, in the
/// order the event fans out: row and column children left to right, border
/// slots in the order east, west, north, south, center.
pub open spec fn tree_mouse_events(w: Widget, input: MouseInput) -> Seq<UiEvent>
    decreases w, 1int,
{
    match w {
        Widget::Button(b) => spec_mouse_events(b, input),
        Widget::TextArea(_) => Seq::empty(),
        Widget::Tooltip(_) => Seq::empty(),
        Widget::Row(r) => children_mouse_events(r.children@, input),
        Widget::Column(c) => children_mouse_events(c.children@, input),
        Widget::Panel(p) => opt_mouse_events(p.component, input),
        Widget::Border(b) => opt_mouse_events(b.east, input) + opt_mouse_events(b.west, input)
            + opt_mouse_events(b.north, input) + opt_mouse_events(b.south, input)
            + opt_mouse_events(b.center, input),
    }
}

/// The notifications of a run of children, concatenated left to right.
pub open spec fn children_mouse_events(cs: Seq<Widget>, input: MouseInput) -> Seq<UiEvent>
    decreases cs, 2int,
{
    if cs.len() == 0 {
        Seq::empty()
    } else {
        children_mouse_events(cs.drop_last(), input) + tree_mouse_events(cs.last(), input)
    }
}

/// The notifications of an optional slot.
pub open spec fn opt_mouse_events(s: Option<Box<Widget>>, input: MouseInput) -> Seq<UiEvent>
    decreases s, 2int,
{
    match s {
        Option::None => Seq::empty(),
        Option::Some(c) => tree_mouse_events(*c, input),
    }
}

/// How one mouse-wheel event transforms a widget: only a focused text area
/// reacts; containers fan the event out to every child.
pub open spec fn rel_wheel(a: Widget, b: Widget, delta: ScrollDelta) -> bool
    decreases a, 1int,
{
    match (a, b) {
        (Widget::Button(_), _) => b == a,
        (Widget::TextArea(p), _) => b == Widget::TextArea(
            crate::component::textarea::spec_ta_after_wheel(p, delta),
        ),
        (Widget::Tooltip(_), _) => b == a,
        (Widget::Row(r), Widget::Row(s)) => {
            &&& s.spacing == r.spacing
            &&& s.x == r.x
            &&& s.y == r.y
            &&& s.height == r.height
            &&& rel_wheel_seq(r.children@, s.children@, delta)
        },
        (Widget::Column(c), Widget::Column(d)) => {
            &&& d.spacing == c.spacing
            &&& d.position == c.position
            &&& d.size == c.size
            &&& rel_wheel_seq(c.children@, d.children@, delta)
        },
        (Widget::Panel(p), Widget::Panel(q)) => {
            &&& q.position == p.position
            &&& q.size == p.size
            &&& rel_wheel_opt(p.component, q.component, delta)
        },
        (Widget::Border(p), Widget::Border(q)) => {
            &&& q.position == p.position
            &&& q.size == p.size
            &&& rel_wheel_opt(p.east, q.east, delta)
            &&& rel_wheel_opt(p.west, q.west, delta)
            &&& rel_wheel_opt(p.north, q.north, delta)
            &&& rel_wheel_opt(p.south, q.south, delta)
            &&& rel_wheel_opt(p.center, q.center, delta)
        },
        _ => false,
    }
}

/// `rel_wheel`, pointwise over children.
pub open spec fn rel_wheel_seq(olds: Seq<Widget>, news: Seq<Widget>, delta: ScrollDelta) -> bool
    decreases olds, 2int,
{
    &&& news.len() == olds.len()
    &&& forall|i: int| 0 <= i < olds.len() ==> rel_wheel(#[trigger] olds[i], news[i], delta)
}

/// `rel_wheel`, lifted to an optional slot.
pub open spec fn rel_wheel_opt(
    s: Option<Box<Widget>>,
    t: Option<Box<Widget>>,
    delta: ScrollDelta,
) -> bool
    decreases s, 2int,
{
    match (s, t) {
        (Option::None, Option::None) => true,
        (Option::Some(c), Option::Some(d)) => rel_wheel(*c, *d, delta),
        _ => false,
    }
}

/// How one keyboard event transforms a widget: only a focused text area
/// reacts; containers fan the event out to every child.
pub open spec fn rel_key(a: Widget, b: Widget, event: KeyboardEvent) -> bool
    decreases a, 1int,
{
    match (a, b) {
        (Widget::Button(_), _) => b == a,
        (Widget::TextArea(p), Widget::TextArea(q)) => crate::component::textarea::rel_ta_key(
            p,
            q,
            event,
        ),
        (Widget::Tooltip(_), _) => b == a,
        (Widget::Row(r), Widget::Row(s)) => {
            &&& s.spacing == r.spacing
            &&& s.x == r.x
            &&& s.y == r.y
            &&& s.height == r.height
            &&& rel_key_seq(r.children@, s.children@, event)
        },
        (Widget::Column(c), Widget::Column(d)) => {
            &&& d.spacing == c.spacing
            &&& d.position == c.position
            &&& d.size == c.size
            &&& rel_key_seq(c.children@, d.children@, event)
        },
        (Widget::Panel(p), Widget::Panel(q)) => {
            &&& q.position == p.position
            &&& q.size == p.size
            &&& rel_key_opt(p.component, q.component, event)
        },
        (Widget::Border(p), Widget::Border(q)) => {
            &&& q.position == p.position
            &&& q.size == p.size
            &&& rel_key_opt(p.east, q.east, event)
            &&& rel_key_opt(p.west, q.west, event)
            &&& rel_key_opt(p.north, q.north, event)
            &&& rel_key_opt(p.south, q.south, event)
            &&& rel_key_opt(p.center, q.center, event)
        },
        _ => false,
    }
}

/// `rel_key`, pointwise over children.
pub open spec fn rel_key_seq(olds: Seq<Widget>, news: Seq<Widget>, event: KeyboardEvent) -> bool
    decreases olds, 2int,
{
    &&& news.len() == olds.len()
    &&& forall|i: int| 0 <= i < olds.len() ==> rel_key(#[trigger] olds[i], news[i], event)
}

/// `rel_key`, lifted to an optional slot.
pub open spec fn rel_key_opt(
    s: Option<Box<Widget>>,
    t: Option<Box<Widget>>,
    event: KeyboardEvent,
) -> bool
    decreases s, 2int,
{
    match (s, t) {
        (Option::None, Option::None) => true,
        (Option::Some(c), Option::Some(d)) => rel_key(*c, *d, event),
        _ => false,
    }
}

/// The change notifications a tree emits while handling one keyboard event.
pub open spec fn tree_key_events(w: Widget, event: KeyboardEvent) -> Seq<UiEvent>
    decreases w, 1int,
{
    match w {
        Widget::Button(_) => Seq::empty(),
        Widget::TextArea(t) => crate::component::textarea::spec_ta_key_events(t, event),
        Widget::Tooltip(_) => Seq::empty(),
        Widget::Row(r) => children_key_events(r.children@, event),
        Widget::Column(c) => children_key_events(c.children@, event),
        Widget::Panel(p) => opt_key_events(p.component, event),
        Widget::Border(b) => opt_key_events(b.east, event) + opt_key_events(b.west, event)
            + opt_key_events(b.north, event) + opt_key_events(b.south, event) + opt_key_events(
            b.center,
            event,
        ),
    }
}

/// The keyboard notifications of a run of children, left to right.
pub open spec fn children_key_events(cs: Seq<Widget>, event: KeyboardEvent) -> Seq<UiEvent>
    decreases cs, 2int,
{
    if cs.len() == 0 {
        Seq::empty()
    } else {
        children_key_events(cs.drop_last(), event) + tree_key_events(cs.last(), event)
    }
}

/// The keyboard notifications of an optional slot.
pub open spec fn opt_key_events(s: Option<Box<Widget>>, event: KeyboardEvent) -> Seq<UiEvent>
    decreases s, 2int,
{
    match s {
        Option::None => Seq::empty(),
        Option::Some(c) => tree_key_events(*c, event),
    }
}


/// The pixels after drawing a widget and all its children: each leaf
/// contributes its own draw effect, a tooltip draws nothing, and containers
/// draw their children in a fixed order — row and column children left to
/// right, a panel its sole child, a border layout its slots in the order
/// east, west, north, south, center.
pub open spec fn widget_draw_post(
    wg: Widget,
    font: crate::font::FontMetrics,
    theme: crate::component::style::Theme,
    w: int,
    pre: Seq<u32>,
) -> Seq<u32>
    decreases wg, 1int,
{
    match wg {
        Widget::Button(b) => spec_button_draw_post(b, font, theme, w, pre),
        Widget::TextArea(t) => spec_textarea_draw_post(t, font, theme, w, pre),
        Widget::Tooltip(_) => pre,
        Widget::Row(r) => children_draw_post(r.children@, font, theme, w, pre),
        Widget::Column(c) => children_draw_post(c.children@, font, theme, w, pre),
        Widget::Panel(p) => opt_draw_post(p.component, font, theme, w, pre),
        Widget::Border(b) => opt_draw_post(
            b.center,
            font,
            theme,
            w,
            opt_draw_post(
                b.south,
                font,
                theme,
                w,
                opt_draw_post(
                    b.north,
                    font,
                    theme,
                    w,
                    opt_draw_post(
                        b.west,
                        font,
                        theme,
                        w,
                        opt_draw_post(b.east, font, theme, w, pre),
                    ),
                ),
            ),
        ),
    }
}

/// The pixels after drawing a run of children left to right.
pub open spec fn children_draw_post(
    cs: Seq<Widget>,
    font: crate::font::FontMetrics,
    theme: crate::component::style::Theme,
    w: int,
    pre: Seq<u32>,
) -> Seq<u32>
    decreases cs, 2int,
{
    if cs.len() == 0 {
        pre
    } else {
        widget_draw_post(
            cs.last(),
            font,
            theme,
            w,
            children_draw_post(cs.drop_last(), font, theme, w, pre),
        )
    }
}

/// The pixels after drawing an optional slot: an empty slot draws nothing.
pub open spec fn opt_draw_post(
    s: Option<Box<Widget>>,
    font: crate::font::FontMetrics,
    theme: crate::component::style::Theme,
    w: int,
    pre: Seq<u32>,
) -> Seq<u32>
    decreases s, 2int,
{
    match s {
        Option::None => pre,
        Option::Some(c) => widget_draw_post(*c, font, theme, w, pre),
    }
}

/// Clamp a derived extent into the `u32` range.
fn clamp_to_u32(v: i128) -> (r: u32)
    ensures
        r as int == spec_clamp_u32(v as int),
{
    if v < 0 {
        0
    } else if v > u32::MAX as i128 {
        u32::MAX
    } else {
        v as u32
    }
}

/// The bounding box of a non-empty run of widgets, as
/// `(min x, min y, max x, max y)`.
#[verifier::loop_isolation(false)]
fn bbox_of(children: &Vec<Widget>) -> (r: (i128, i128, i128, i128))
    requires
        children@.len() > 0,
    ensures
        (r.0 as int, r.1 as int, r.2 as int, r.3 as int) == spec_bbox(children@),
        -0x10000000000000000 <= r.0 <= 0x10000000000000000,
        -0x10000000000000000 <= r.1 <= 0x10000000000000000,
        -0x10000000000000000 <= r.2 <= 0x10000000000000000,
        -0x10000000000000000 <= r.3 <= 0x10000000000000000,
    decreases children@,
{
    proof {
        assert(decreases_to!(children@ => children@[0]));
    }
    let p0 = children[0].get_position();
    let s0 = children[0].get_size();
    let mut ax: i128 = p0.x as i128;
    let mut ay: i128 = p0.y as i128;
    let mut bx: i128 = p0.x as i128 + s0.width as i128;
    let mut maxy: i128 = p0.y as i128 + s0.height as i128;
    proof {
        assert(children@.take(1).last() == children@[0]);
        assert(children@.take(1).len() == 1);
    }
    let mut i: usize = 1;
    while i < children.len()
        invariant
            1 <= i <= children@.len(),
            -0x10000000000000000 <= ax <= 0x10000000000000000,
            -0x10000000000000000 <= ay <= 0x10000000000000000,
            -0x10000000000000000 <= bx <= 0x10000000000000000,
            -0x10000000000000000 <= maxy <= 0x10000000000000000,
            (ax as int, ay as int, bx as int, maxy as int) == spec_bbox(
                children@.take(i as int),
            ),
        decreases children@.len() - i,
    {
        proof {
            assert(decreases_to!(children@ => children@[i as int]));
        }
        let p = children[i].get_position();
        let s = children[i].get_size();
        let px: i128 = p.x as i128;
        let py: i128 = p.y as i128;
        let sx: i128 = p.x as i128 + s.width as i128;
        let sy: i128 = p.y as i128 + s.height as i128;
        if px < ax {
            ax = px;
        }
        if py < ay {
            ay = py;
        }
        if sx > bx {
            bx = sx;
        }
        if sy > maxy {
            maxy = sy;
        }
        proof {
            assert(children@.take(i + 1).last() == children@[i as int]);
            assert(children@.take(i + 1).drop_last() =~= children@.take(i as int));
        }
        i = i + 1;
    }
    proof {
        assert(children@.take(children@.len() as int) =~= children@);
    }
    (ax, ay, bx, maxy)
}

impl Widget {
    /// Fan one mouse event through the tree, appending the notifications it
    /// triggers in traversal order.
    #[verifier::loop_isolation(false)]
    #[verifier::rlimit(100)]
    pub fn handle_mouse_event(&mut self, input: MouseInput, events: &mut Vec<UiEvent>)
        requires
            spec_wf(*old(self)),
        ensures
            spec_wf(*final(self)),
            rel_mouse(*old(self), *final(self), input),
            final(events)@ == old(events)@ + tree_mouse_events(*old(self), input),
        decreases *old(self), 1int,
    {
        let ghost orig = *self;
        match self {
            Widget::Button(b) => {
                b.handle_mouse_event(input, events);
            },
            Widget::TextArea(t) => {
                t.handle_mouse_event(input);
                proof {
                    assert(events@ =~= old(events)@ + tree_mouse_events(orig, input));
                }
            },
            Widget::Tooltip(_) => {
                proof {
                    assert(events@ =~= old(events)@ + tree_mouse_events(orig, input));
                }
            },
            Widget::Row(r) => {
                proof {
                    assert(decreases_to!(orig => orig->Row_0));
                    assert(decreases_to!(orig->Row_0 => orig->Row_0.children));
                    assert(decreases_to!(orig->Row_0.children => orig->Row_0.children@));
                }
                mouse_children(&mut r.children, input, events);
            },
            Widget::Column(c) => {
                proof {
                    assert(decreases_to!(orig => orig->Column_0));
                    assert(decreases_to!(orig->Column_0 => orig->Column_0.children));
                    assert(decreases_to!(orig->Column_0.children => orig->Column_0.children@));
                }
                mouse_children(&mut c.children, input, events);
            },
            Widget::Panel(p) => {
                match p.component.take() {
                    Some(mut comp) => {
                        proof {
                            let os = orig->Panel_0.component;
                            assert(os is Some);
                            assert(decreases_to!(orig => orig->Panel_0));
                            assert(decreases_to!(orig->Panel_0 => os));
                            assert(decreases_to!(os => os->0));
                        }
                        comp.handle_mouse_event(input, events);
                        p.component = Some(comp);
                    },
                    None => {},
                }
                proof {
                    assert(events@ =~= old(events)@ + tree_mouse_events(orig, input));
                }
            },
            Widget::Border(b) => {
                match b.east.take() {
                    Some(mut comp) => {
                        proof {
                            let os = orig->Border_0.east;
                            assert(os is Some);
                            assert(decreases_to!(orig => orig->Border_0));
                            assert(decreases_to!(orig->Border_0 => os));
                            assert(decreases_to!(os => os->0));
                        }
                        comp.handle_mouse_event(input, events);
                        b.east = Some(comp);
                    },
                    None => {},
                }
                match b.west.take() {
                    Some(mut comp) => {
                        proof {
                            let os = orig->Border_0.west;
                            assert(os is Some);
                            assert(decreases_to!(orig => orig->Border_0));
                            assert(decreases_to!(orig->Border_0 => os));
                            assert(decreases_to!(os => os->0));
                        }
                        comp.handle_mouse_event(input, events);
                        b.west = Some(comp);
                    },
                    None => {},
                }
                match b.north.take() {
                    Some(mut comp) => {
                        proof {
                            let os = orig->Border_0.north;
                            assert(os is Some);
                            assert(decreases_to!(orig => orig->Border_0));
                            assert(decreases_to!(orig->Border_0 => os));
                            assert(decreases_to!(os => os->0));
                        }
                        comp.handle_mouse_event(input, events);
                        b.north = Some(comp);
                    },
                    None => {},
                }
                match b.south.take() {
                    Some(mut comp) => {
                        proof {
                            let os = orig->Border_0.south;
                            assert(os is Some);
                            assert(decreases_to!(orig => orig->Border_0));
                            assert(decreases_to!(orig->Border_0 => os));
                            assert(decreases_to!(os => os->0));
                        }
                        comp.handle_mouse_event(input, events);
                        b.south = Some(comp);
                    },
                    None => {},
                }
                match b.center.take() {
                    Some(mut comp) => {
                        proof {
                            let os = orig->Border_0.center;
                            assert(os is Some);
                            assert(decreases_to!(orig => orig->Border_0));
                            assert(decreases_to!(orig->Border_0 => os));
                            assert(decreases_to!(os => os->0));
                        }
                        comp.handle_mouse_event(input, events);
                        b.center = Some(comp);
                    },
                    None => {},
                }
                proof {
                    let p0 = orig->Border_0;
                    assert(rel_mouse_opt(p0.east, b.east, input));
                    assert(rel_mouse_opt(p0.west, b.west, input));
                    assert(rel_mouse_opt(p0.north, b.north, input));
                    assert(rel_mouse_opt(p0.south, b.south, input));
                    assert(rel_mouse_opt(p0.center, b.center, input));
                    assert(events@ =~= old(events)@ + tree_mouse_events(orig, input));
                }
            },
        }
    }
}

/// Fan one mouse event to every child in order.
#[verifier::loop_isolation(false)]
fn mouse_children(children: &mut Vec<Widget>, input: MouseInput, events: &mut Vec<UiEvent>)
    requires
        forall|j: int| 0 <= j < old(children)@.len() ==> spec_wf(#[trigger] old(children)@[j]),
    ensures
        final(children)@.len() == old(children)@.len(),
        forall|j: int|
            0 <= j < old(children)@.len() ==> rel_mouse(
                old(children)@[j],
                #[trigger] final(children)@[j],
                input,
            ) && spec_wf(final(children)@[j]),
        final(events)@ == old(events)@ + children_mouse_events(old(children)@, input),
    decreases old(children)@, 2int,
{
    let ghost oc = children@;
    let mut i: usize = 0;
    proof {
        assert(events@ =~= old(events)@ + children_mouse_events(oc.take(0), input));
    }
    while i < children.len()
        invariant
            i <= oc.len(),
            children@.len() == oc.len(),
            forall|j: int|
                0 <= j < i ==> rel_mouse(oc[j], #[trigger] children@[j], input) && spec_wf(
                    children@[j],
                ),
            forall|j: int| i <= j < oc.len() ==> #[trigger] children@[j] == oc[j],
            events@ == old(events)@ + children_mouse_events(oc.take(i as int), input),
        decreases oc.len() - i,
    {
        proof {
            assert(decreases_to!(oc => oc[i as int]));
        }
        children[i].handle_mouse_event(input, events);
        proof {
            assert(oc.take(i + 1).drop_last() =~= oc.take(i as int));
            assert(oc.take(i + 1).last() == oc[i as int]);
            assert(events@ =~= old(events)@ + children_mouse_events(oc.take(i + 1), input));
        }
        i = i + 1;
    }
    proof {
        assert(oc.take(oc.len() as int) =~= oc);
    }
}

impl Widget {
    /// Fan one mouse-wheel event through the tree.
    #[verifier::rlimit(100)]
    pub fn handle_mouse_wheel_event(&mut self, delta: &ScrollDelta)
        requires
            spec_wf(*old(self)),
        ensures
            spec_wf(*final(self)),
            rel_wheel(*old(self), *final(self), *delta),
        decreases *old(self), 1int,
    {
        let ghost orig = *self;
        match self {
            Widget::Button(_) => {},
            Widget::TextArea(t) => {
                t.handle_mouse_wheel_event(delta);
            },
            Widget::Tooltip(_) => {},
            Widget::Row(r) => {
                proof {
                    assert(decreases_to!(orig => orig->Row_0));
                    assert(decreases_to!(orig->Row_0 => orig->Row_0.children));
                    assert(decreases_to!(orig->Row_0.children => orig->Row_0.children@));
                }
                wheel_children(&mut r.children, delta);
            },
            Widget::Column(c) => {
                proof {
                    assert(decreases_to!(orig => orig->Column_0));
                    assert(decreases_to!(orig->Column_0 => orig->Column_0.children));
                    assert(decreases_to!(orig->Column_0.children => orig->Column_0.children@));
                }
                wheel_children(&mut c.children, delta);
            },
            Widget::Panel(p) => {
                match p.component.take() {
                    Some(mut comp) => {
                        proof {
                            let os = orig->Panel_0.component;
                            assert(os is Some);
                            assert(decreases_to!(orig => orig->Panel_0));
                            assert(decreases_to!(orig->Panel_0 => os));
                            assert(decreases_to!(os => os->0));
                        }
                        comp.handle_mouse_wheel_event(delta);
                        p.component = Some(comp);
                    },
                    None => {},
                }
            },
            Widget::Border(b) => {
                match b.east.take() {
                    Some(mut comp) => {
                        proof {
                            let os = orig->Border_0.east;
                            assert(os is Some);
                            assert(decreases_to!(orig => orig->Border_0));
                            assert(decreases_to!(orig->Border_0 => os));
                            assert(decreases_to!(os => os->0));
                        }
                        comp.handle_mouse_wheel_event(delta);
                        b.east = Some(comp);
                    },
                    None => {},
                }
                match b.west.take() {
                    Some(mut comp) => {
                        proof {
                            let os = orig->Border_0.west;
                            assert(os is Some);
                            assert(decreases_to!(orig => orig->Border_0));
                            assert(decreases_to!(orig->Border_0 => os));
                            assert(decreases_to!(os => os->0));
                        }
                        comp.handle_mouse_wheel_event(delta);
                        b.west = Some(comp);
                    },
                    None => {},
                }
                match b.north.take() {
                    Some(mut comp) => {
                        proof {
                            let os = orig->Border_0.north;
                            assert(os is Some);
                            assert(decreases_to!(orig => orig->Border_0));
                            assert(decreases_to!(orig->Border_0 => os));
                            assert(decreases_to!(os => os->0));
                        }
                        comp.handle_mouse_wheel_event(delta);
                        b.north = Some(comp);
                    },
                    None => {},
                }
                match b.south.take() {
                    Some(mut comp) => {
                        proof {
                            let os = orig->Border_0.south;
                            assert(os is Some);
                            assert(decreases_to!(orig => orig->Border_0));
                            assert(decreases_to!(orig->Border_0 => os));
                            assert(decreases_to!(os => os->0));
                        }
                        comp.handle_mouse_wheel_event(delta);
                        b.south = Some(comp);
                    },
                    None => {},
                }
                match b.center.take() {
                    Some(mut comp) => {
                        proof {
                            let os = orig->Border_0.center;
                            assert(os is Some);
                            assert(decreases_to!(orig => orig->Border_0));
                            assert(decreases_to!(orig->Border_0 => os));
                            assert(decreases_to!(os => os->0));
                        }
                        comp.handle_mouse_wheel_event(delta);
                        b.center = Some(comp);
                    },
                    None => {},
                }
            },
        }
    }

    /// Fan one keyboard event through the tree, appending the change
    /// notifications it triggers in traversal order.
    #[verifier::rlimit(100)]
    pub fn handle_keyboard_event(&mut self, event: &KeyboardEvent, events: &mut Vec<UiEvent>)
        requires
            spec_wf(*old(self)),
        ensures
            spec_wf(*final(self)),
            rel_key(*old(self), *final(self), *event),
            final(events)@ == old(events)@ + tree_key_events(*old(self), *event),
        decreases *old(self), 1int,
    {
        let ghost orig = *self;
        match self {
            Widget::Button(_) => {
                proof {
                    assert(events@ =~= old(events)@ + tree_key_events(orig, *event));
                }
            },
            Widget::TextArea(t) => {
                t.handle_keyboard_event(event, events);
            },
            Widget::Tooltip(_) => {
                proof {
                    assert(events@ =~= old(events)@ + tree_key_events(orig, *event));
                }
            },
            Widget::Row(r) => {
                proof {
                    assert(decreases_to!(orig => orig->Row_0));
                    assert(decreases_to!(orig->Row_0 => orig->Row_0.children));
                    assert(decreases_to!(orig->Row_0.children => orig->Row_0.children@));
                }
                key_children(&mut r.children, event, events);
            },
            Widget::Column(c) => {
                proof {
                    assert(decreases_to!(orig => orig->Column_0));
                    assert(decreases_to!(orig->Column_0 => orig->Column_0.children));
                    assert(decreases_to!(orig->Column_0.children => orig->Column_0.children@));
                }
                key_children(&mut c.children, event, events);
            },
            Widget::Panel(p) => {
                match p.component.take() {
                    Some(mut comp) => {
                        proof {
                            let os = orig->Panel_0.component;
                            assert(os is Some);
                            assert(decreases_to!(orig => orig->Panel_0));
                            assert(decreases_to!(orig->Panel_0 => os));
                            assert(decreases_to!(os => os->0));
                        }
                        comp.handle_keyboard_event(event, events);
                        p.component = Some(comp);
                    },
                    None => {},
                }
                proof {
                    assert(events@ =~= old(events)@ + tree_key_events(orig, *event));
                }
            },
            Widget::Border(b) => {
                match b.east.take() {
                    Some(mut comp) => {
                        proof {
                            let os = orig->Border_0.east;
                            assert(os is Some);
                            assert(decreases_to!(orig => orig->Border_0));
                            assert(decreases_to!(orig->Border_0 => os));
                            assert(decreases_to!(os => os->0));
                        }
                        comp.handle_keyboard_event(event, events);
                        b.east = Some(comp);
                    },
                    None => {},
                }
                match b.west.take() {
                    Some(mut comp) => {
                        proof {
                            let os = orig->Border_0.west;
                            assert(os is Some);
                            assert(decreases_to!(orig => orig->Border_0));
                            assert(decreases_to!(orig->Border_0 => os));
                            assert(decreases_to!(os => os->0));
                        }
                        comp.handle_keyboard_event(event, events);
                        b.west = Some(comp);
                    },
                    None => {},
                }
                match b.north.take() {
                    Some(mut comp) => {
                        proof {
                            let os = orig->Border_0.north;
                            assert(os is Some);
                            assert(decreases_to!(orig => orig->Border_0));
                            assert(decreases_to!(orig->Border_0 => os));
                            assert(decreases_to!(os => os->0));
                        }
                        comp.handle_keyboard_event(event, events);
                        b.north = Some(comp);
                    },
                    None => {},
                }
                match b.south.take() {
                    Some(mut comp) => {
                        proof {
                            let os = orig->Border_0.south;
                            assert(os is Some);
                            assert(decreases_to!(orig => orig->Border_0));
                            assert(decreases_to!(orig->Border_0 => os));
                            assert(decreases_to!(os => os->0));
                        }
                        comp.handle_keyboard_event(event, events);
                        b.south = Some(comp);
                    },
                    None => {},
                }
                match b.center.take() {
                    Some(mut comp) => {
                        proof {
                            let os = orig->Border_0.center;
                            assert(os is Some);
                            assert(decreases_to!(orig => orig->Border_0));
                            assert(decreases_to!(orig->Border_0 => os));
                            assert(decreases_to!(os => os->0));
                        }
                        comp.handle_keyboard_event(event, events);
                        b.center = Some(comp);
                    },
                    None => {},
                }
                proof {
                    assert(events@ =~= old(events)@ + tree_key_events(orig, *event));
                }
            },
        }
    }
}

/// Fan one mouse-wheel event to every child in order.
#[verifier::loop_isolation(false)]
fn wheel_children(children: &mut Vec<Widget>, delta: &ScrollDelta)
    requires
        forall|j: int| 0 <= j < old(children)@.len() ==> spec_wf(#[trigger] old(children)@[j]),
    ensures
        final(children)@.len() == old(children)@.len(),
        forall|j: int|
            0 <= j < old(children)@.len() ==> rel_wheel(
                old(children)@[j],
                #[trigger] final(children)@[j],
                *delta,
            ) && spec_wf(final(children)@[j]),
    decreases old(children)@, 2int,
{
    let ghost oc = children@;
    let mut i: usize = 0;
    while i < children.len()
        invariant
            i <= oc.len(),
            children@.len() == oc.len(),
            forall|j: int|
                0 <= j < i ==> rel_wheel(oc[j], #[trigger] children@[j], *delta) && spec_wf(
                    children@[j],
                ),
            forall|j: int| i <= j < oc.len() ==> #[trigger] children@[j] == oc[j],
        decreases oc.len() - i,
    {
        proof {
            assert(decreases_to!(oc => oc[i as int]));
        }
        children[i].handle_mouse_wheel_event(delta);
        i = i + 1;
    }
}

/// Fan one keyboard event to every child in order.
#[verifier::loop_isolation(false)]
fn key_children(children: &mut Vec<Widget>, event: &KeyboardEvent, events: &mut Vec<UiEvent>)
    requires
        forall|j: int| 0 <= j < old(children)@.len() ==> spec_wf(#[trigger] old(children)@[j]),
    ensures
        final(children)@.len() == old(children)@.len(),
        forall|j: int|
            0 <= j < old(children)@.len() ==> rel_key(
                old(children)@[j],
                #[trigger] final(children)@[j],
                *event,
            ) && spec_wf(final(children)@[j]),
        final(events)@ == old(events)@ + children_key_events(old(children)@, *event),
    decreases old(children)@, 2int,
{
    let ghost oc = children@;
    let mut i: usize = 0;
    proof {
        assert(events@ =~= old(events)@ + children_key_events(oc.take(0), *event));
    }
    while i < children.len()
        invariant
            i <= oc.len(),
            children@.len() == oc.len(),
            forall|j: int|
                0 <= j < i ==> rel_key(oc[j], #[trigger] children@[j], *event) && spec_wf(
                    children@[j],
                ),
            forall|j: int| i <= j < oc.len() ==> #[trigger] children@[j] == oc[j],
            events@ == old(events)@ + children_key_events(oc.take(i as int), *event),
        decreases oc.len() - i,
    {
        proof {
            assert(decreases_to!(oc => oc[i as int]));
        }
        children[i].handle_keyboard_event(event, events);
        proof {
            assert(oc.take(i + 1).drop_last() =~= oc.take(i as int));
            assert(oc.take(i + 1).last() == oc[i as int]);
            assert(events@ =~= old(events)@ + children_key_events(oc.take(i + 1), *event));
        }
        i = i + 1;
    }
    proof {
        assert(oc.take(oc.len() as int) =~= oc);
    }
}

/// How `push` transforms a container: a row or column appends the child and
/// reflows; a panel replaces its sole component; a border layout and the
/// leaves ignore it.
pub open spec fn rel_push(a: Widget, b: Widget, c: Widget) -> bool {
    match (a, b) {
        (Widget::Row(r), Widget::Row(s)) => {
            &&& s.spacing == r.spacing
            &&& s.x == r.x
            &&& s.y == r.y
            &&& s.height == r.height
            &&& rel_pos_chain_row(
                r.children@.push(c),
                s.children@,
                r.x as int,
                r.y,
                r.spacing as int,
            )
        },
        (Widget::Column(p), Widget::Column(q)) => {
            &&& q.spacing == p.spacing
            &&& q.position == p.position
            &&& q.size == p.size
            &&& rel_pos_chain_col(
                p.children@.push(c),
                q.children@,
                p.position.x,
                p.position.y as int,
                p.spacing as int,
            )
        },
        (Widget::Panel(p), Widget::Panel(q)) => {
            &&& q.position == p.position
            &&& q.size == p.size
            &&& q.component is Some
            &&& *q.component->0 == c
        },
        (Widget::Border(p), Widget::Border(q)) => {
            &&& q == if p.north is None {
                BorderLayout { north: q.north, ..p }
            } else if p.west is None {
                BorderLayout { west: q.west, ..p }
            } else if p.center is None {
                BorderLayout { center: q.center, ..p }
            } else if p.east is None {
                BorderLayout { east: q.east, ..p }
            } else if p.south is None {
                BorderLayout { south: q.south, ..p }
            } else {
                p
            }
            &&& (p.north is None ==> q.north is Some && *q.north->0 == c)
            &&& (p.north is Some && p.west is None ==> q.west is Some && *q.west->0 == c)
            &&& (p.north is Some && p.west is Some && p.center is None ==> q.center is Some
                && *q.center->0 == c)
            &&& (p.north is Some && p.west is Some && p.center is Some && p.east is None
                ==> q.east is Some && *q.east->0 == c)
            &&& (p.north is Some && p.west is Some && p.center is Some && p.east is Some
                && p.south is None ==> q.south is Some && *q.south->0 == c)
        },
        _ => b == a,
    }
}

impl Widget {
    /// Add a child component to this container. Rows and columns append and
    /// reflow, a panel replaces its sole component, and a border layout and
    /// the leaves ignore the call (border slots are filled by compass
    /// direction instead).
    pub fn push(&mut self, component: Widget)
        ensures
            rel_push(*old(self), *final(self), component),
    {
        match self {
            Widget::Row(r) => {
                r.push(component);
            },
            Widget::Column(c) => {
                c.push(component);
            },
            Widget::Panel(p) => {
                p.push(component);
            },
            Widget::Border(b) => {
                b.push(component);
            },
            _ => {},
        }
    }

    /// Draw the widget and all its children into the frame's buffer. Every
    /// write is clipped to the screen; the buffer never changes size and the
    /// frame's geometry, font and theme are untouched.
    pub fn draw(&self, ctx: &mut BufferContext)
        requires
            old(ctx).wf(),
        ensures
            final(ctx).wf(),
            final(ctx).same_frame(old(ctx)),
            final(ctx).buffer@ == widget_draw_post(
                *self,
                old(ctx).font,
                old(ctx).theme,
                old(ctx).screen_size.width as int,
                old(ctx).buffer@,
            ),
        decreases *self, 1int,
    {
        match self {
            Widget::Button(b) => {
                b.draw(ctx);
            },
            Widget::TextArea(t) => {
                t.draw(ctx);
            },
            Widget::Tooltip(_) => {},
            Widget::Row(r) => {
                proof {
                    let sw = *self;
                    assert(decreases_to!(sw => sw->Row_0));
                    assert(decreases_to!(sw->Row_0 => sw->Row_0.children));
                    assert(decreases_to!(sw->Row_0.children => sw->Row_0.children@));
                }
                draw_children(&r.children, ctx);
            },
            Widget::Column(c) => {
                proof {
                    let sw = *self;
                    assert(decreases_to!(sw => sw->Column_0));
                    assert(decreases_to!(sw->Column_0 => sw->Column_0.children));
                    assert(decreases_to!(sw->Column_0.children => sw->Column_0.children@));
                }
                draw_children(&c.children, ctx);
            },
            Widget::Panel(p) => {
                match &p.component {
                    Some(comp) => {
                        proof {
                            let sw = *self;
                            assert(decreases_to!(sw => sw->Panel_0));
                            assert(decreases_to!(sw->Panel_0 => sw->Panel_0.component));
                            assert(decreases_to!(sw->Panel_0.component => sw
                                ->Panel_0.component->0));
                        }
                        comp.draw(ctx);
                    },
                    None => {},
                }
            },
            Widget::Border(b) => {
                match &b.east {
                    Some(comp) => {
                        proof {
                            let sw = *self;
                            assert(decreases_to!(sw => sw->Border_0));
                            assert(decreases_to!(sw->Border_0 => sw->Border_0.east));
                            assert(decreases_to!(sw->Border_0.east => sw->Border_0.east->0));
                        }
                        comp.draw(ctx);
                    },
                    None => {},
                }
                match &b.west {
                    Some(comp) => {
                        proof {
                            let sw = *self;
                            assert(decreases_to!(sw => sw->Border_0));
                            assert(decreases_to!(sw->Border_0 => sw->Border_0.west));
                            assert(decreases_to!(sw->Border_0.west => sw->Border_0.west->0));
                        }
                        comp.draw(ctx);
                    },
                    None => {},
                }
                match &b.north {
                    Some(comp) => {
                        proof {
                            let sw = *self;
                            assert(decreases_to!(sw => sw->Border_0));
                            assert(decreases_to!(sw->Border_0 => sw->Border_0.north));
                            assert(decreases_to!(sw->Border_0.north => sw->Border_0.north->0));
                        }
                        comp.draw(ctx);
                    },
                    None => {},
                }
                match &b.south {
                    Some(comp) => {
                        proof {
                            let sw = *self;
                            assert(decreases_to!(sw => sw->Border_0));
                            assert(decreases_to!(sw->Border_0 => sw->Border_0.south));
                            assert(decreases_to!(sw->Border_0.south => sw->Border_0.south->0));
                        }
                        comp.draw(ctx);
                    },
                    None => {},
                }
                match &b.center {
                    Some(comp) => {
                        proof {
                            let sw = *self;
                            assert(decreases_to!(sw => sw->Border_0));
                            assert(decreases_to!(sw->Border_0 => sw->Border_0.center));
                            assert(decreases_to!(sw->Border_0.center => sw->Border_0.center->0));
                        }
                        comp.draw(ctx);
                    },
                    None => {},
                }
            },
        }
    }
}

/// Draw every child in order.
#[verifier::loop_isolation(false)]
fn draw_children(children: &Vec<Widget>, ctx: &mut BufferContext)
    requires
        old(ctx).wf(),
    ensures
        final(ctx).wf(),
        final(ctx).same_frame(old(ctx)),
        final(ctx).buffer@ == children_draw_post(
            children@,
            old(ctx).font,
            old(ctx).theme,
            old(ctx).screen_size.width as int,
            old(ctx).buffer@,
        ),
    decreases children@, 2int,
{
    let mut i: usize = 0;
    proof {
        assert(children@.take(0) =~= Seq::<Widget>::empty());
    }
    while i < children.len()
        invariant
            i <= children@.len(),
            ctx.wf(),
            ctx.same_frame(old(ctx)),
            ctx.buffer@ == children_draw_post(
                children@.take(i as int),
                old(ctx).font,
                old(ctx).theme,
                old(ctx).screen_size.width as int,
                old(ctx).buffer@,
            ),
        decreases children@.len() - i,
    {
        proof {
            assert(decreases_to!(children@ => children@[i as int]));
        }
        children[i].draw(ctx);
        proof {
            assert(children@.take(i + 1).drop_last() =~= children@.take(i as int));
            assert(children@.take(i + 1).last() == children@[i as int]);
        }
        i = i + 1;
    }
    proof {
        assert(children@.take(children@.len() as int) =~= children@);
    }
}

/// How inserting text by component id transforms a widget: every text area
/// whose id matches (and whose text has room) takes the insertion at its
/// cursor; everything else is unchanged. This is how one component is
/// addressed from two places in the tree: the tree positions share the
/// numeric id instead of a reference.
pub open spec fn rel_insert_by_id(a: Widget, b: Widget, id: u64, s: Seq<char>) -> bool
    decreases a, 1int,
{
    match (a, b) {
        (Widget::TextArea(t), Widget::TextArea(u)) => if t.id == id && t.text@.len() + s.len()
            <= usize::MAX {
            &&& u.text@ == t.text@.take(t.cursor_index as int) + s + t.text@.skip(
                t.cursor_index as int,
            )
            &&& u.cursor_index == t.cursor_index + s.len()
            &&& u == (TextArea { text: u.text, cursor_index: u.cursor_index, ..t })
        } else {
            b == a
        },
        (Widget::Button(_), _) => b == a,
        (Widget::Tooltip(_), _) => b == a,
        (Widget::Row(r), Widget::Row(w2)) => {
            &&& w2.spacing == r.spacing
            &&& w2.x == r.x
            &&& w2.y == r.y
            &&& w2.height == r.height
            &&& rel_insert_seq(r.children@, w2.children@, id, s)
        },
        (Widget::Column(c), Widget::Column(d)) => {
            &&& d.spacing == c.spacing
            &&& d.position == c.position
            &&& d.size == c.size
            &&& rel_insert_seq(c.children@, d.children@, id, s)
        },
        (Widget::Panel(p), Widget::Panel(q)) => {
            &&& q.position == p.position
            &&& q.size == p.size
            &&& rel_insert_opt(p.component, q.component, id, s)
        },
        (Widget::Border(p), Widget::Border(q)) => {
            &&& q.position == p.position
            &&& q.size == p.size
            &&& rel_insert_opt(p.east, q.east, id, s)
            &&& rel_insert_opt(p.west, q.west, id, s)
            &&& rel_insert_opt(p.north, q.north, id, s)
            &&& rel_insert_opt(p.south, q.south, id, s)
            &&& rel_insert_opt(p.center, q.center, id, s)
        },
        _ => false,
    }
}

/// `rel_insert_by_id`, pointwise over children.
pub open spec fn rel_insert_seq(
    olds: Seq<Widget>,
    news: Seq<Widget>,
    id: u64,
    s: Seq<char>,
) -> bool
    decreases olds, 2int,
{
    &&& news.len() == olds.len()
    &&& forall|i: int| 0 <= i < olds.len() ==> rel_insert_by_id(#[trigger] olds[i], news[i], id, s)
}

/// `rel_insert_by_id`, lifted to an optional slot.
pub open spec fn rel_insert_opt(
    s0: Option<Box<Widget>>,
    t0: Option<Box<Widget>>,
    id: u64,
    s: Seq<char>,
) -> bool
    decreases s0, 2int,
{
    match (s0, t0) {
        (Option::None, Option::None) => true,
        (Option::Some(c), Option::Some(d)) => rel_insert_by_id(*c, *d, id, s),
        _ => false,
    }
}

impl Widget {
    /// Insert text at the cursor of every text area in the tree whose id is
    /// `id` (the insertion is skipped where the text has no room). Appends
    /// the change notifications the affected text areas emit.
    #[verifier::rlimit(100)]
    pub fn insert_str_by_id(&mut self, id: u64, s: &str, events: &mut Vec<UiEvent>)
        requires
            spec_wf(*old(self)),
        ensures
            spec_wf(*final(self)),
            rel_insert_by_id(*old(self), *final(self), id, s@),
        decreases *old(self), 1int,
    {
        let ghost orig = *self;
        match self {
            Widget::Button(_) => {},
            Widget::TextArea(t) => {
                if t.id == id && s.unicode_len() <= usize::MAX - t.text.len() {
                    t.insert_str(s, events);
                }
            },
            Widget::Tooltip(_) => {},
            Widget::Row(r) => {
                proof {
                    assert(decreases_to!(orig => orig->Row_0));
                    assert(decreases_to!(orig->Row_0 => orig->Row_0.children));
                    assert(decreases_to!(orig->Row_0.children => orig->Row_0.children@));
                }
                insert_children(&mut r.children, id, s, events);
            },
            Widget::Column(c) => {
                proof {
                    assert(decreases_to!(orig => orig->Column_0));
                    assert(decreases_to!(orig->Column_0 => orig->Column_0.children));
                    assert(decreases_to!(orig->Column_0.children => orig->Column_0.children@));
                }
                insert_children(&mut c.children, id, s, events);
            },
            Widget::Panel(p) => {
                match p.component.take() {
                    Some(mut comp) => {
                        proof {
                            let os = orig->Panel_0.component;
                            assert(os is Some);
                            assert(decreases_to!(orig => orig->Panel_0));
                            assert(decreases_to!(orig->Panel_0 => os));
                            assert(decreases_to!(os => os->0));
                        }
                        comp.insert_str_by_id(id, s, events);
                        p.component = Some(comp);
                    },
                    None => {},
                }
            },
            Widget::Border(b) => {
                match b.east.take() {
                    Some(mut comp) => {
                        proof {
                            let os = orig->Border_0.east;
                            assert(os is Some);
                            assert(decreases_to!(orig => orig->Border_0));
                            assert(decreases_to!(orig->Border_0 => os));
                            assert(decreases_to!(os => os->0));
                        }
                        comp.insert_str_by_id(id, s, events);
                        b.east = Some(comp);
                    },
                    None => {},
                }
                match b.west.take() {
                    Some(mut comp) => {
                        proof {
                            let os = orig->Border_0.west;
                            assert(os is Some);
                            assert(decreases_to!(orig => orig->Border_0));
                            assert(decreases_to!(orig->Border_0 => os));
                            assert(decreases_to!(os => os->0));
                        }
                        comp.insert_str_by_id(id, s, events);
                        b.west = Some(comp);
                    },
                    None => {},
                }
                match b.north.take() {
                    Some(mut comp) => {
                        proof {
                            let os = orig->Border_0.north;
                            assert(os is Some);
                            assert(decreases_to!(orig => orig->Border_0));
                            assert(decreases_to!(orig->Border_0 => os));
                            assert(decreases_to!(os => os->0));
                        }
                        comp.insert_str_by_id(id, s, events);
                        b.north = Some(comp);
                    },
                    None => {},
                }
                match b.south.take() {
                    Some(mut comp) => {
                        proof {
                            let os = orig->Border_0.south;
                            assert(os is Some);
                            assert(decreases_to!(orig => orig->Border_0));
                            assert(decreases_to!(orig->Border_0 => os));
                            assert(decreases_to!(os => os->0));
                        }
                        comp.insert_str_by_id(id, s, events);
                        b.south = Some(comp);
                    },
                    None => {},
                }
                match b.center.take() {
                    Some(mut comp) => {
                        proof {
                            let os = orig->Border_0.center;
                            assert(os is Some);
                            assert(decreases_to!(orig => orig->Border_0));
                            assert(decreases_to!(orig->Border_0 => os));
                            assert(decreases_to!(os => os->0));
                        }
                        comp.insert_str_by_id(id, s, events);
                        b.center = Some(comp);
                    },
                    None => {},
                }
            },
        }
    }
}

/// Insert into every matching text area among the children, in order.
#[verifier::loop_isolation(false)]
fn insert_children(children: &mut Vec<Widget>, id: u64, s: &str, events: &mut Vec<UiEvent>)
    requires
        forall|j: int| 0 <= j < old(children)@.len() ==> spec_wf(#[trigger] old(children)@[j]),
    ensures
        final(children)@.len() == old(children)@.len(),
        forall|j: int|
            0 <= j < old(children)@.len() ==> rel_insert_by_id(
                old(children)@[j],
                #[trigger] final(children)@[j],
                id,
                s@,
            ) && spec_wf(final(children)@[j]),
    decreases old(children)@, 2int,
{
    let ghost oc = children@;
    let mut i: usize = 0;
    while i < children.len()
        invariant
            i <= oc.len(),
            children@.len() == oc.len(),
            forall|j: int|
                0 <= j < i ==> rel_insert_by_id(oc[j], #[trigger] children@[j], id, s@)
                    && spec_wf(children@[j]),
            forall|j: int| i <= j < oc.len() ==> #[trigger] children@[j] == oc[j],
        decreases oc.len() - i,
    {
        proof {
            assert(decreases_to!(oc => oc[i as int]));
        }
        children[i].insert_str_by_id(id, s, events);
        i = i + 1;
    }
}

/// Repositioning preserves tree well-formedness.
pub proof fn lemma_wf_set_position(a: Widget, b: Widget, x: i64, y: i64)
    requires
        rel_set_position(a, b, x, y),
        spec_wf(a),
    ensures
        spec_wf(b),
    decreases a, 1int,
{
    match (a, b) {
        (Widget::Row(r), Widget::Row(s)) => {
            lemma_wf_chain_row(r.children@, s.children@, x as int, y, r.spacing as int);
        },
        (Widget::Column(c), Widget::Column(d)) => {
            lemma_wf_chain_col(c.children@, d.children@, x, y as int, c.spacing as int);
        },
        (Widget::Panel(p), _) => {
            lemma_wf_arrange(a, b, x, y, p.size.width, p.size.height);
        },
        (Widget::Border(p), _) => {
            lemma_wf_arrange(a, b, x, y, p.size.width, p.size.height);
        },
        _ => {},
    }
}

/// Arranging preserves tree well-formedness.
pub proof fn lemma_wf_arrange(a: Widget, b: Widget, x: i64, y: i64, w: u32, h: u32)
    requires
        rel_arrange(a, b, x, y, w, h),
        spec_wf(a),
    ensures
        spec_wf(b),
    decreases a, 0int,
{
    match (a, b) {
        (Widget::Row(r), Widget::Row(s)) => {
            lemma_wf_chain_row(r.children@, s.children@, x as int, y, r.spacing as int);
        },
        (Widget::Column(c), Widget::Column(d)) => {
            lemma_wf_chain_col(c.children@, d.children@, x, y as int, c.spacing as int);
        },
        (Widget::Panel(p), Widget::Panel(q)) => {
            lemma_wf_arrange_opt(p.component, q.component, x, y, w, h);
        },
        (Widget::Border(p), Widget::Border(q)) => {
            let ww = spec_slot_width(p.west);
            let ew = spec_slot_width(p.east);
            let nh = spec_slot_height(p.north);
            let sh = spec_slot_height(p.south);
            let cw = spec_clamp_u32(w - ww - ew) as u32;
            let ch = spec_clamp_u32(h - nh - sh) as u32;
            let wy = spec_sat_add_i64(y as int, nh) as i64;
            let ex = spec_sat_add_i64(spec_sat_add_i64(x as int, ww), cw as int) as i64;
            let sy = spec_sat_add_i64(spec_sat_add_i64(y as int, nh), ch as int) as i64;
            let cx = spec_sat_add_i64(x as int, ww) as i64;
            lemma_wf_arrange_opt(p.east, q.east, ex, wy, ew as u32, h);
            lemma_wf_arrange_opt(p.west, q.west, x, wy, ww as u32, h);
            lemma_wf_arrange_opt(p.north, q.north, x, y, w, nh as u32);
            lemma_wf_arrange_opt(p.south, q.south, x, sy, w, sh as u32);
            lemma_wf_arrange_opt(p.center, q.center, cx, wy, cw, ch);
        },
        _ => {},
    }
}

/// Arranging an optional slot preserves well-formedness.
pub proof fn lemma_wf_arrange_opt(
    s: Option<Box<Widget>>,
    t: Option<Box<Widget>>,
    x: i64,
    y: i64,
    w: u32,
    h: u32,
)
    requires
        rel_arrange_opt(s, t, x, y, w, h),
        match s {
            Option::Some(c) => spec_wf(*c),
            Option::None => true,
        },
    ensures
        match t {
            Option::Some(d) => spec_wf(*d),
            Option::None => true,
        },
    decreases s, 1int,
{
    match (s, t) {
        (Option::Some(c), Option::Some(d)) => {
            lemma_wf_arrange(*c, *d, x, y, w, h);
        },
        _ => {},
    }
}

/// The row chain preserves well-formedness of every child.
pub proof fn lemma_wf_chain_row(
    olds: Seq<Widget>,
    news: Seq<Widget>,
    curx: int,
    y: i64,
    spacing: int,
)
    requires
        rel_pos_chain_row(olds, news, curx, y, spacing),
        forall|i: int| 0 <= i < olds.len() ==> spec_wf(#[trigger] olds[i]),
    ensures
        forall|i: int| 0 <= i < news.len() ==> spec_wf(#[trigger] news[i]),
    decreases olds, 2int,
{
    if olds.len() > 0 {
        lemma_wf_set_position(olds[0], news[0], curx as i64, y);
        lemma_wf_chain_row(
            olds.drop_first(),
            news.drop_first(),
            spec_sat_add_i64(
                spec_sat_add_i64(curx, spec_get_size(news[0]).width as int),
                spec_spacing_i64(spacing),
            ),
            y,
            spacing,
        );
        assert forall|i: int| 0 <= i < news.len() implies spec_wf(#[trigger] news[i]) by {
            if i > 0 {
                assert(news[i] == news.drop_first()[i - 1]);
            }
        }
    }
}

/// The column chain preserves well-formedness of every child.
pub proof fn lemma_wf_chain_col(
    olds: Seq<Widget>,
    news: Seq<Widget>,
    x: i64,
    cury: int,
    spacing: int,
)
    requires
        rel_pos_chain_col(olds, news, x, cury, spacing),
        forall|i: int| 0 <= i < olds.len() ==> spec_wf(#[trigger] olds[i]),
    ensures
        forall|i: int| 0 <= i < news.len() ==> spec_wf(#[trigger] news[i]),
    decreases olds, 2int,
{
    if olds.len() > 0 {
        lemma_wf_set_position(olds[0], news[0], x, cury as i64);
        lemma_wf_chain_col(
            olds.drop_first(),
            news.drop_first(),
            x,
            spec_sat_add_i64(
                spec_sat_add_i64(cury, spec_get_size(news[0]).height as int),
                spec_spacing_i64(spacing),
            ),
            spacing,
        );
        assert forall|i: int| 0 <= i < news.len() implies spec_wf(#[trigger] news[i]) by {
            if i > 0 {
                assert(news[i] == news.drop_first()[i - 1]);
            }
        }
    }
}

/// Setting a widget's size preserves tree well-formedness.
pub proof fn lemma_wf_set_size(a: Widget, b: Widget, w: u32, h: u32)
    requires
        rel_set_size(a, b, w, h),
        spec_wf(a),
    ensures
        spec_wf(b),
{
    match a {
        Widget::Button(p) => {
            lemma_wf_arrange(a, b, p.position.x, p.position.y, w, h);
        },
        Widget::TextArea(p) => {
            lemma_wf_arrange(a, b, p.position.x, p.position.y, w, h);
        },
        Widget::Tooltip(p) => {
            lemma_wf_arrange(a, b, p.position.x, p.position.y, w, h);
        },
        Widget::Row(r) => {
            lemma_wf_arrange(a, b, r.x, r.y, w, h);
        },
        Widget::Column(c) => {
            lemma_wf_arrange(a, b, c.position.x, c.position.y, w, h);
        },
        Widget::Panel(_) => {},
        Widget::Border(_) => {},
    }
}

/// A parent-driven resize preserves tree well-formedness.
pub proof fn lemma_wf_resize(a: Widget, b: Widget, w: u32, h: u32)
    requires
        rel_resize(a, b, w, h),
        spec_wf(a),
    ensures
        spec_wf(b),
{
    match a {
        Widget::Panel(p) => {
            lemma_wf_arrange(a, b, p.position.x, p.position.y, w, h);
        },
        Widget::Border(p) => {
            lemma_wf_arrange(a, b, p.position.x, p.position.y, w, h);
        },
        _ => {},
    }
}

} // verus!
