//! Gap-buffer editing, text-area editing, wrapping and scrollbar geometry.

use structura::component::text::GapBuffer;
use structura::component::textarea::{
    split_ws, thumb_height, thumb_offset, trim_end_chars, wrap_text, TextArea,
};
use structura::event::{KeyInput, KeyboardEvent, MouseInput, ScrollDelta, UiEvent};
use structura::geometry::Point;
use structura::font::FontMetrics;

fn chars(s: &str) -> Vec<char> {
    s.chars().collect()
}

#[test]
fn gap_buffer_insert_and_contents() {
    let mut g = GapBuffer::with_capacity(2);
    g.insert('h');
    g.insert('i');
    assert_eq!(g.contents(), "hi");
    assert_eq!(g.cursor(), 2);
}

#[test]
fn gap_buffer_grows_from_zero_capacity() {
    let mut g = GapBuffer::with_capacity(0);
    g.insert('a');
    g.insert('b');
    g.insert('c');
    assert_eq!(g.contents(), "abc");
}

#[test]
fn gap_buffer_cursor_moves_and_inserts_in_middle() {
    let mut g = GapBuffer::with_capacity(4);
    g.insert('a');
    g.insert('c');
    g.move_left();
    g.insert('b');
    assert_eq!(g.contents(), "abc");
    assert_eq!(g.cursor(), 2);
    g.move_right();
    assert_eq!(g.cursor(), 3);
}

#[test]
fn gap_buffer_delete_removes_before_cursor() {
    let mut g = GapBuffer::with_capacity(4);
    g.insert('a');
    g.insert('b');
    g.delete();
    assert_eq!(g.contents(), "a");
    assert_eq!(g.cursor(), 1);
}

#[test]
fn gap_buffer_edges_are_no_ops() {
    let mut g = GapBuffer::with_capacity(2);
    g.delete();
    g.move_left();
    g.move_right();
    assert_eq!(g.contents(), "");
    assert_eq!(g.cursor(), 0);
}

#[test]
fn textarea_insert_then_backspace() {
    // Inserting "ab" on empty text puts the cursor at 2; one backspace
    // leaves "a" with the cursor at 1.
    let mut t = TextArea::new();
    let mut events: Vec<UiEvent> = Vec::new();
    t.insert_str("ab", &mut events);
    assert_eq!(t.text, chars("ab"));
    assert_eq!(t.cursor_index, 2);
    t.backspace(&mut events);
    assert_eq!(t.text, chars("a"));
    assert_eq!(t.cursor_index, 1);
}

#[test]
fn textarea_insert_emits_text_changed() {
    let mut t = TextArea::new().with_id(9);
    let mut events: Vec<UiEvent> = Vec::new();
    t.insert_str("x", &mut events);
    assert_eq!(events, vec![UiEvent::TextChanged { id: 9 }]);
}

#[test]
fn textarea_backspace_on_empty_is_a_no_op() {
    let mut t = TextArea::new();
    let mut events: Vec<UiEvent> = Vec::new();
    t.backspace(&mut events);
    assert_eq!(t.text, chars(""));
    assert_eq!(t.cursor_index, 0);
    assert!(events.is_empty());
}

#[test]
fn textarea_keyboard_ignored_while_unfocused() {
    let mut t = TextArea::new();
    let mut events: Vec<UiEvent> = Vec::new();
    let ev = KeyboardEvent { pressed: true, key: KeyInput::Character(String::from("x")) };
    t.handle_keyboard_event(&ev, &mut events);
    assert_eq!(t.text, chars(""));
    assert!(events.is_empty());
}

#[test]
fn textarea_keyboard_types_while_focused() {
    let mut t = TextArea::new();
    t.focused = true;
    let mut events: Vec<UiEvent> = Vec::new();
    t.handle_keyboard_event(
        &KeyboardEvent { pressed: true, key: KeyInput::Character(String::from("hi")) },
        &mut events,
    );
    t.handle_keyboard_event(
        &KeyboardEvent { pressed: true, key: KeyInput::Space },
        &mut events,
    );
    t.handle_keyboard_event(
        &KeyboardEvent { pressed: true, key: KeyInput::Backspace },
        &mut events,
    );
    assert_eq!(t.text, chars("hi"));
    assert_eq!(events.len(), 3);
}

#[test]
fn split_ws_separates_words() {
    let words = split_ws(&chars("  one two\n three  "));
    let views: Vec<String> = words.iter().map(|w| w.iter().collect()).collect();
    assert_eq!(views, vec!["one", "two", "three"]);
}

#[test]
fn trim_end_removes_trailing_separators() {
    assert_eq!(trim_end_chars(&chars("ab  ")), chars("ab"));
    assert_eq!(trim_end_chars(&chars("   ")), chars(""));
    assert_eq!(trim_end_chars(&chars("ab")), chars("ab"));
}

#[test]
fn wrap_text_packs_words_greedily() {
    // Every character advances 10 pixels; padding totals 20. Two words of
    // width 30 fit a 100-pixel line but not an 80-pixel one.
    let font = FontMetrics::fixed(8, 2, 0, 10);
    let wide = wrap_text(&font, &chars("aaa bbb"), 100, 20);
    let wide_lines: Vec<String> = wide.iter().map(|l| l.iter().collect()).collect();
    assert_eq!(wide_lines, vec!["aaa bbb"]);
    let narrow = wrap_text(&font, &chars("aaa bbb"), 80, 20);
    let narrow_lines: Vec<String> = narrow.iter().map(|l| l.iter().collect()).collect();
    assert_eq!(narrow_lines, vec!["aaa", "bbb"]);
}

#[test]
fn wrap_text_empty_text_has_no_lines() {
    let font = FontMetrics::fixed(8, 2, 0, 10);
    assert_eq!(wrap_text(&font, &chars("   "), 100, 20).len(), 0);
}

#[test]
fn thumb_height_is_clamped_to_the_floor() {
    // Content far taller than the track: the thumb sits at the 10-pixel
    // floor, never 0 and never beyond the track.
    let th = thumb_height(100000, 100);
    assert_eq!(th, 10);
    assert!(th > 0 && th <= 100);
}

#[test]
fn thumb_height_fills_track_when_content_fits() {
    assert_eq!(thumb_height(0, 50), 50);
    assert_eq!(thumb_height(100, 100), 100);
    assert_eq!(thumb_height(200, 100), 50);
}

#[test]
fn thumb_offset_scales_scroll_into_track_slack() {
    // max scroll 100, slack 50: half the scroll puts the thumb at 25.
    assert_eq!(thumb_offset(50, 200, 100, 50), 25);
    assert_eq!(thumb_offset(-5, 200, 100, 50), 0);
    assert_eq!(thumb_offset(100000, 200, 100, 50), 50);
}

#[test]
fn scrollbar_contains_tests_the_right_strip() {
    let t = TextArea::new();
    // Size 200 x 50, scrollbar 20 pixels wide on the right edge.
    assert!(t.scrollbar_contains(185, 10));
    assert!(!t.scrollbar_contains(170, 10));
    assert!(!t.scrollbar_contains(185, 60));
}

#[test]
fn set_text_clamps_the_cursor() {
    let mut t = TextArea::new();
    let mut events: Vec<UiEvent> = Vec::new();
    t.insert_str("hello", &mut events);
    assert_eq!(t.cursor_index, 5);
    t.set_text(String::from("ab"));
    assert_eq!(t.text, chars("ab"));
    assert_eq!(t.cursor_index, 2);
}

#[test]
fn textarea_press_inside_focuses_and_outside_unfocuses() {
    let mut t = TextArea::new();
    let press_inside = MouseInput {
        scale_factor: 100,
        position: Point { x: 50, y: 20 },
        pressed: true,
        just_released: false,
        mouse_scroll: None,
    };
    t.handle_mouse_event(press_inside);
    assert!(t.focused);
    let press_outside = MouseInput {
        scale_factor: 100,
        position: Point { x: 500, y: 500 },
        pressed: true,
        just_released: false,
        mouse_scroll: None,
    };
    t.handle_mouse_event(press_outside);
    assert!(!t.focused);
}

#[test]
fn scrollbar_drag_accumulates_pointer_movement() {
    let mut t = TextArea::new();
    // Press on the scrollbar strip (x in [180, 200]) to start the drag.
    let press = MouseInput {
        scale_factor: 100,
        position: Point { x: 190, y: 10 },
        pressed: true,
        just_released: false,
        mouse_scroll: None,
    };
    t.handle_mouse_event(press);
    assert!(t.dragging_scrollbar);
    assert_eq!(t.last_mouse_y, Some(10));
    // Move down 15 pixels at scale 1.0: the offset follows the pointer.
    let drag = MouseInput {
        scale_factor: 100,
        position: Point { x: 190, y: 25 },
        pressed: false,
        just_released: false,
        mouse_scroll: None,
    };
    t.handle_mouse_event(drag);
    assert_eq!(t.visible_scrolling_offset, 15);
    // Release ends the drag.
    // At a 2.0 scale factor the same 15-pixel movement counts double.
    let drag_scaled = MouseInput {
        scale_factor: 200,
        position: Point { x: 190, y: 40 },
        pressed: false,
        just_released: false,
        mouse_scroll: None,
    };
    t.handle_mouse_event(drag_scaled);
    assert_eq!(t.visible_scrolling_offset, 15 + 30);
    let release = MouseInput {
        scale_factor: 100,
        position: Point { x: 190, y: 40 },
        pressed: false,
        just_released: true,
        mouse_scroll: None,
    };
    t.handle_mouse_event(release);
    assert!(!t.dragging_scrollbar);
    assert_eq!(t.last_mouse_y, None);
}

#[test]
fn pixel_wheel_delta_is_applied_directly() {
    let mut t = TextArea::new();
    t.focused = true;
    t.handle_mouse_wheel_event(&ScrollDelta::Pixels { x: 0, y: 7 });
    assert_eq!(t.visible_scrolling_offset, -7);
}
