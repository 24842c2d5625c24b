//! Geometry, hit tests, container layout, the widget tree, and the
//! application event dispatch.

use structura::app::{AppEvent, Application};
use structura::controller::Controller;
use structura::event::Event;
use structura::component::button::Button;
use structura::component::textarea::TextArea;
use structura::component::ComponentState;
use structura::container::border::BorderLayout;
use structura::container::column::Column;
use structura::container::panel::Panel;
use structura::container::row::Row;
use structura::event::{KeyInput, KeyboardEvent, MouseInput, ScrollDelta, UiEvent};
use structura::geometry::{Point, Rectangle, Size};
use structura::widget::Widget;

fn mouse_at(x: i64, y: i64, pressed: bool, just_released: bool) -> MouseInput {
    MouseInput {
        scale_factor: 100,
        position: Point { x, y },
        pressed,
        just_released,
        mouse_scroll: None,
    }
}

#[test]
fn contains_is_half_open() {
    // The top-left corner is inside; (x + w, y + h) is outside.
    let b = Button::new(5, 7, 10, 20, String::from("b"));
    assert!(b.contains(5, 7));
    assert!(b.contains(14, 26));
    assert!(!b.contains(15, 27));
    assert!(!b.contains(15, 7));
    assert!(!b.contains(5, 27));
    assert!(!b.contains(4, 7));
}

#[test]
fn rectangle_contains_matches_the_box() {
    let r = Rectangle {
        point: Point { x: -2, y: -2 },
        size: Size { width: 4, height: 4 },
    };
    assert!(r.contains(-2, -2));
    assert!(r.contains(1, 1));
    assert!(!r.contains(2, 2));
}

#[test]
fn button_click_fires_exactly_once_per_cycle() {
    // Press inside, drag inside, release inside: one click. The same cycle
    // released outside the box: none.
    let mut b = Button::new(0, 0, 200, 60, String::from("b")).with_id(4);
    let mut events: Vec<UiEvent> = Vec::new();
    b.handle_mouse_event(mouse_at(50, 50, true, false), &mut events);
    b.handle_mouse_event(mouse_at(10, 10, false, false), &mut events);
    b.handle_mouse_event(mouse_at(10, 10, false, true), &mut events);
    let clicks = events
        .iter()
        .filter(|e| matches!(e, UiEvent::Clicked { id: 4 }))
        .count();
    assert_eq!(clicks, 1);

    let mut b2 = Button::new(0, 0, 200, 60, String::from("b")).with_id(4);
    let mut events2: Vec<UiEvent> = Vec::new();
    b2.handle_mouse_event(mouse_at(50, 50, true, false), &mut events2);
    b2.handle_mouse_event(mouse_at(10, 10, false, false), &mut events2);
    b2.handle_mouse_event(mouse_at(500, 500, false, true), &mut events2);
    let clicks2 = events2
        .iter()
        .filter(|e| matches!(e, UiEvent::Clicked { id: 4 }))
        .count();
    assert_eq!(clicks2, 0);
}

#[test]
fn button_mouse_over_fires_on_every_event_inside() {
    let mut b = Button::new(0, 0, 100, 100, String::from("b")).with_id(1);
    let mut events: Vec<UiEvent> = Vec::new();
    b.handle_mouse_event(mouse_at(10, 10, false, false), &mut events);
    b.handle_mouse_event(mouse_at(20, 20, false, false), &mut events);
    b.handle_mouse_event(mouse_at(500, 500, false, false), &mut events);
    let overs = events
        .iter()
        .filter(|e| matches!(e, UiEvent::MouseOver { id: 1 }))
        .count();
    assert_eq!(overs, 2);
}

#[test]
fn disabled_button_ignores_input() {
    let mut b = Button::new(0, 0, 100, 100, String::from("b"));
    b.component_state = ComponentState::Disabled;
    let mut events: Vec<UiEvent> = Vec::new();
    b.handle_mouse_event(mouse_at(10, 10, true, false), &mut events);
    assert!(events.is_empty());
    assert_eq!(b.component_state, ComponentState::Disabled);
}

#[test]
fn update_state_tracks_the_pointer() {
    let mut b = Button::new(0, 0, 100, 100, String::from("b"));
    b.update_state(10, 10, true);
    assert_eq!(b.component_state, ComponentState::Pressed);
    b.update_state(10, 10, false);
    assert_eq!(b.component_state, ComponentState::Hovered);
    b.update_state(500, 500, false);
    assert_eq!(b.component_state, ComponentState::Active);
}

#[test]
fn row_lays_children_left_to_right() {
    // Three children of width 200 with spacing 1 on a row at x = 20 sit at
    // x positions 20, 221 and 422.
    let mut row = Row::new(20, 20, 1, 60);
    for _ in 0..3 {
        row.push(Widget::Button(Button::new(0, 0, 200, 60, String::from("b"))));
    }
    let xs: Vec<i64> = row.children.iter().map(|c| c.get_position().x).collect();
    assert_eq!(xs, vec![20, 221, 422]);
    let ys: Vec<i64> = row.children.iter().map(|c| c.get_position().y).collect();
    assert_eq!(ys, vec![20, 20, 20]);
}

#[test]
fn column_lays_children_top_to_bottom() {
    let mut col = Column::new(5, 10, 2, 0, 0);
    for _ in 0..3 {
        col.push(Widget::Button(Button::new(0, 0, 50, 30, String::from("b"))));
    }
    let ys: Vec<i64> = col.children.iter().map(|c| c.get_position().y).collect();
    assert_eq!(ys, vec![10, 42, 74]);
}

#[test]
fn row_size_is_the_tight_bounding_box() {
    let mut row = Row::new(0, 0, 1, 60);
    row.push(Widget::Button(Button::new(0, 0, 200, 60, String::from("b"))));
    row.push(Widget::Button(Button::new(0, 0, 200, 60, String::from("b"))));
    let w = Widget::Row(row);
    let size = w.get_size();
    // Children span x in [0, 401) and y in [0, 60).
    assert_eq!(size.width, 401);
    assert_eq!(size.height, 60);
}

#[test]
fn pressed_visual_persists_while_dragging_outside_the_box() {
    // Press inside, drag outside without releasing: the button stays
    // pressed; releasing outside resets it without firing the click.
    let mut b = Button::new(0, 0, 100, 100, String::from("b")).with_id(6);
    let mut events: Vec<UiEvent> = Vec::new();
    b.handle_mouse_event(mouse_at(50, 50, true, false), &mut events);
    b.handle_mouse_event(mouse_at(500, 500, false, false), &mut events);
    assert_eq!(b.component_state, ComponentState::Pressed);
    assert!(b.mouse_dragging);
    b.handle_mouse_event(mouse_at(500, 500, false, true), &mut events);
    assert_eq!(b.component_state, ComponentState::Active);
    assert!(!b.mouse_dragging);
    assert!(!events.iter().any(|e| matches!(e, UiEvent::Clicked { .. })));
}

#[test]
fn empty_row_reports_zero_size_and_origin() {
    let w = Widget::Row(Row::new(10, 10, 1, 60));
    assert_eq!(w.get_size(), Size { width: 0, height: 0 });
    assert_eq!(w.get_position(), Point { x: 0, y: 0 });
}

#[test]
fn panel_passes_its_bounds_to_its_child() {
    let mut panel = Panel::new();
    panel.push(Widget::Button(Button::new(0, 0, 10, 10, String::from("b"))));
    let mut w = Widget::Panel(panel);
    w.set_position(7, 8);
    w.resize(300, 200);
    match &w {
        Widget::Panel(p) => match p.component.as_deref() {
            Some(Widget::Button(b)) => {
                assert_eq!(b.position, Point { x: 7, y: 8 });
                assert_eq!(b.size, Size { width: 300, height: 200 });
            },
            _ => panic!("panel lost its child"),
        },
        _ => panic!("panel changed kind"),
    }
}

#[test]
fn border_layout_sizes_the_center_from_the_remaining_rectangle() {
    // North of height 60 and empty west/east/south: resizing the layout to
    // 800 x 600 puts the center at (0, 60) with size 800 x 540.
    let mut border = BorderLayout::new();
    border.set_north(Widget::Button(Button::new(0, 0, 100, 60, String::from("n"))));
    border.set_center(Widget::Button(Button::new(0, 0, 10, 10, String::from("c"))));
    let mut w = Widget::Border(border);
    w.set_position(0, 0);
    w.resize(800, 600);
    match &w {
        Widget::Border(b) => {
            match b.center.as_deref() {
                Some(Widget::Button(c)) => {
                    assert_eq!(c.position, Point { x: 0, y: 60 });
                    assert_eq!(c.size, Size { width: 800, height: 540 });
                },
                _ => panic!("center missing"),
            }
            match b.north.as_deref() {
                Some(Widget::Button(n)) => {
                    assert_eq!(n.position, Point { x: 0, y: 0 });
                    assert_eq!(n.size, Size { width: 800, height: 60 });
                },
                _ => panic!("north missing"),
            }
        },
        _ => panic!("border changed kind"),
    }
}

#[test]
fn border_layout_derives_east_and_south_origins() {
    let mut border = BorderLayout::new();
    border.set_north(Widget::Button(Button::new(0, 0, 100, 50, String::from("n"))));
    border.set_west(Widget::Button(Button::new(0, 0, 40, 10, String::from("w"))));
    border.set_east(Widget::Button(Button::new(0, 0, 30, 10, String::from("e"))));
    border.set_south(Widget::Button(Button::new(0, 0, 100, 20, String::from("s"))));
    border.set_center(Widget::Button(Button::new(0, 0, 10, 10, String::from("c"))));
    let mut w = Widget::Border(border);
    w.resize(500, 400);
    match &w {
        Widget::Border(b) => {
            // Center: x past west (40), y past north (50), filling the rest.
            match b.center.as_deref() {
                Some(Widget::Button(c)) => {
                    assert_eq!(c.position, Point { x: 40, y: 50 });
                    assert_eq!(c.size, Size { width: 500 - 40 - 30, height: 400 - 50 - 20 });
                },
                _ => panic!("center missing"),
            }
            // East sits to the right of the center, south below it.
            match b.east.as_deref() {
                Some(Widget::Button(e)) => {
                    assert_eq!(e.position, Point { x: 40 + 430, y: 50 });
                    assert_eq!(e.size, Size { width: 30, height: 400 });
                },
                _ => panic!("east missing"),
            }
            match b.south.as_deref() {
                Some(Widget::Button(s)) => {
                    assert_eq!(s.position, Point { x: 0, y: 50 + 330 });
                    assert_eq!(s.size, Size { width: 500, height: 20 });
                },
                _ => panic!("south missing"),
            }
        },
        _ => panic!("border changed kind"),
    }
}

#[test]
fn fills_parent_container_policy() {
    assert!(!Widget::Row(Row::new(0, 0, 0, 0)).fills_parent_container());
    assert!(!Widget::Column(Column::new(0, 0, 0, 0, 0)).fills_parent_container());
    assert!(Widget::Panel(Panel::new()).fills_parent_container());
    assert!(Widget::Border(BorderLayout::new()).fills_parent_container());
    assert!(!Widget::Button(Button::default()).fills_parent_container());
}

#[test]
fn application_dispatches_a_click_through_the_tree() {
    let mut row = Row::new(0, 0, 1, 60);
    row.push(Widget::Button(Button::new(0, 0, 200, 60, String::from("b")).with_id(7)));
    let mut app = Application::new(Widget::Row(row));
    let mut events: Vec<UiEvent> = Vec::new();
    app.handle_cursor_moved(50, 30, &mut events);
    app.handle_mouse_button(true, &mut events);
    app.handle_mouse_button(false, &mut events);
    let clicks = events
        .iter()
        .filter(|e| matches!(e, UiEvent::Clicked { id: 7 }))
        .count();
    assert_eq!(clicks, 1);
}

#[test]
fn application_resize_fills_a_filling_root() {
    let mut border = BorderLayout::new();
    border.set_center(Widget::Button(Button::new(0, 0, 10, 10, String::from("c"))));
    let mut app = Application::new(Widget::Border(border));
    app.handle_event(&AppEvent::Resized { width: 640, height: 480 }, &mut Vec::new());
    match &app.root {
        Widget::Border(b) => {
            assert_eq!(b.size, Size { width: 640, height: 480 });
            match b.center.as_deref() {
                Some(Widget::Button(c)) => {
                    assert_eq!(c.size, Size { width: 640, height: 480 });
                },
                _ => panic!("center missing"),
            }
        },
        _ => panic!("root changed kind"),
    }
}

#[test]
fn insert_by_id_reaches_a_nested_text_area() {
    // The text area is addressed by id from outside the tree, the way a
    // toolbar button elsewhere in the tree mutates it.
    let mut panel = Panel::new();
    panel.push(Widget::TextArea(TextArea::new().with_id(3)));
    let mut border = BorderLayout::new();
    border.set_center(Widget::Panel(panel));
    let mut root = Widget::Border(border);
    let mut events: Vec<UiEvent> = Vec::new();
    root.insert_str_by_id(3, "lorem", &mut events);
    match &root {
        Widget::Border(b) => match b.center.as_deref() {
            Some(Widget::Panel(p)) => match p.component.as_deref() {
                Some(Widget::TextArea(t)) => {
                    let text: String = t.text.iter().collect();
                    assert_eq!(text, "lorem");
                    assert_eq!(t.cursor_index, 5);
                },
                _ => panic!("text area missing"),
            },
            _ => panic!("panel missing"),
        },
        _ => panic!("root changed kind"),
    }
    assert_eq!(events, vec![UiEvent::TextChanged { id: 3 }]);
}

#[test]
fn wheel_scrolls_only_a_focused_text_area() {
    let mut t = TextArea::new();
    t.focused = true;
    let mut w = Widget::TextArea(t);
    w.handle_mouse_wheel_event(&ScrollDelta::Lines { x: 0, y: 2 });
    match &w {
        // Two notches of 10 pixels each, scrolling content down.
        Widget::TextArea(t) => assert_eq!(t.visible_scrolling_offset, -20),
        _ => panic!("kind changed"),
    }
    let mut u = Widget::TextArea(TextArea::new());
    u.handle_mouse_wheel_event(&ScrollDelta::Lines { x: 0, y: 2 });
    match &u {
        Widget::TextArea(t) => assert_eq!(t.visible_scrolling_offset, 0),
        _ => panic!("kind changed"),
    }
}

#[test]
fn keyboard_reaches_a_focused_text_area_in_the_tree() {
    let mut t = TextArea::new().with_id(2);
    t.focused = true;
    let mut row = Row::new(0, 0, 0, 50);
    row.push(Widget::TextArea(t));
    let mut app = Application::new(Widget::Row(row));
    let mut events: Vec<UiEvent> = Vec::new();
    app.handle_keyboard(
        &KeyboardEvent { pressed: true, key: KeyInput::Character(String::from("ok")) },
        &mut events,
    );
    assert_eq!(events, vec![UiEvent::TextChanged { id: 2 }]);
}

#[test]
fn border_push_fills_the_first_empty_compass_slot() {
    let mut w = Widget::Border(BorderLayout::new());
    w.push(Widget::Button(Button::default().set_text("n".to_string())));
    w.push(Widget::Button(Button::default().set_text("w".to_string())));
    w.push(Widget::Button(Button::default().set_text("c".to_string())));
    match &w {
        Widget::Border(b) => {
            assert!(b.north.is_some());
            assert!(b.west.is_some());
            assert!(b.center.is_some());
            assert!(b.east.is_none());
            assert!(b.south.is_none());
            match b.center.as_deref() {
                Some(Widget::Button(c)) => assert_eq!(c.text, "c"),
                _ => panic!("center missing"),
            }
        },
        _ => panic!("border changed kind"),
    }
}

#[test]
fn a_controller_receives_plain_events() {
    struct Recorder {
        count: usize,
    }
    impl Controller for Recorder {
        fn handle_message(&mut self, message: Event) {
            if matches!(message, Event::KeyPress(_)) {
                self.count += 1;
            }
        }
    }
    let mut r = Recorder { count: 0 };
    r.handle_message(Event::KeyPress('a'));
    r.handle_message(Event::MouseClick { x: 1, y: 2 });
    assert_eq!(r.count, 1);
}
