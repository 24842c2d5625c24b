//! Drawing primitives: clipping, rings, blending, glyph blits, and the
//! frame context.

use structura::component::button::{draw_text_run, Button};
use structura::container::border::BorderLayout;
use structura::widget::Widget;
use structura::component::textarea::TextArea;
use structura::component::style::DefaultComponentTheme;
use structura::font::{FontMetrics, GlyphRaster};
use structura::primitive::{blend, blit_glyph, draw_border_rect, fill_rect};
use structura::view::BufferContext;

fn ctx4x4() -> BufferContext {
    BufferContext::new_filled(4, 4, FontMetrics::fixed(8, 2, 0, 10), 16, DefaultComponentTheme::theme())
}

#[test]
fn fill_rect_writes_exactly_the_rectangle() {
    let mut buf = vec![0u32; 16];
    fill_rect(&mut buf, 4, 4, 1, 1, 2, 2, 0xAB);
    for y in 0..4usize {
        for x in 0..4usize {
            let expected = if (1..3).contains(&x) && (1..3).contains(&y) { 0xAB } else { 0 };
            assert_eq!(buf[y * 4 + x], expected);
        }
    }
}

#[test]
fn fill_rect_clips_a_box_hanging_off_screen() {
    // The box starts at (2, 2) and extends far past the 4 x 4 screen: only
    // the visible quarter is written, the buffer length never changes.
    let mut buf = vec![0u32; 16];
    fill_rect(&mut buf, 4, 4, 2, 2, 100, 100, 0xCD);
    assert_eq!(buf.len(), 16);
    for y in 0..4usize {
        for x in 0..4usize {
            let expected = if x >= 2 && y >= 2 { 0xCD } else { 0 };
            assert_eq!(buf[y * 4 + x], expected);
        }
    }
}

#[test]
fn fill_rect_with_negative_origin_touches_nothing_outside() {
    let mut buf = vec![7u32; 16];
    fill_rect(&mut buf, 4, 4, -100, -100, 5, 5, 0xCD);
    assert_eq!(buf, vec![7u32; 16]);
}

#[test]
fn border_ring_leaves_the_interior_untouched() {
    let mut buf = vec![0u32; 16];
    draw_border_rect(&mut buf, 4, 4, 0, 0, 4, 4, 1, 9);
    for y in 0..4usize {
        for x in 0..4usize {
            let interior = (1..3).contains(&x) && (1..3).contains(&y);
            assert_eq!(buf[y * 4 + x], if interior { 0 } else { 9 });
        }
    }
}

#[test]
fn border_ring_clips_off_screen() {
    let mut buf = vec![0u32; 16];
    draw_border_rect(&mut buf, 4, 4, -2, -2, 100, 100, 1, 9);
    // The ring of that huge box lies entirely off screen.
    assert_eq!(buf, vec![0u32; 16]);
}

#[test]
fn blend_endpoints_and_midpoint() {
    assert_eq!(blend(0x000000, 0xFFFFFF, 255), 0xFFFFFF);
    assert_eq!(blend(0x000000, 0xFFFFFF, 0), 0x000000);
    assert_eq!(blend(0x000000, 0xFFFFFF, 128), 0x808080);
    // The blended word is packed 24-bit RGB: the background alpha is gone.
    assert_eq!(blend(0xFF112233, 0x000000, 0), 0x112233);
}

#[test]
fn blit_glyph_blends_only_covered_pixels() {
    let mut buf = vec![0u32; 16];
    let raster = GlyphRaster {
        min_x: 0,
        min_y: 0,
        width: 2,
        height: 2,
        coverage: vec![255, 0, 0, 255],
    };
    blit_glyph(&mut buf, 4, 4, 1, 1, &raster, 0xFFFFFF);
    assert_eq!(buf[1 * 4 + 1], 0xFFFFFF);
    assert_eq!(buf[1 * 4 + 2], 0x000000);
    assert_eq!(buf[2 * 4 + 1], 0x000000);
    assert_eq!(buf[2 * 4 + 2], 0xFFFFFF);
    assert_eq!(buf[0], 0);
}

#[test]
fn blit_glyph_off_screen_is_clipped() {
    let mut buf = vec![5u32; 16];
    let raster = GlyphRaster {
        min_x: 0,
        min_y: 0,
        width: 3,
        height: 3,
        coverage: vec![255; 9],
    };
    blit_glyph(&mut buf, 4, 4, -10, -10, &raster, 0xFFFFFF);
    assert_eq!(buf, vec![5u32; 16]);
}

#[test]
fn draw_text_run_advances_the_pen() {
    let mut buf = vec![0u32; 16];
    let font = FontMetrics::fixed(8, 2, 0, 10);
    let pen = draw_text_run(&mut buf, 4, 4, &font, 3, 2, &vec!['a', 'b', 'c'], 0xFFFFFF);
    assert_eq!(pen, 3 + 30);
    assert_eq!(buf.len(), 16);
}

#[test]
fn new_filled_context_matches_screen_size() {
    let ctx = ctx4x4();
    assert_eq!(ctx.buffer.len(), 16);
    assert!(ctx.buffer.iter().all(|p| *p == 0));
}

#[test]
fn button_draw_never_grows_or_shrinks_the_buffer() {
    // A button hanging far off the 4 x 4 screen: every write is clipped.
    let mut ctx = ctx4x4();
    let b = Button::new(0, 0, 200, 60, String::from("hello"));
    b.draw(&mut ctx);
    assert_eq!(ctx.buffer.len(), 16);
}

#[test]
fn button_draw_paints_fill_and_border_pixels() {
    // A 10 x 10 button at the origin on a 20 x 20 screen, drawn with the
    // default active style: border color on the ring, background inside it.
    let mut ctx = BufferContext::new_filled(
        20,
        20,
        FontMetrics::fixed(8, 2, 0, 10),
        16,
        DefaultComponentTheme::theme(),
    );
    let b = Button::new(0, 0, 10, 10, String::new());
    b.draw(&mut ctx);
    assert_eq!(ctx.buffer[0], 0xFF000000);
    assert_eq!(ctx.buffer[5 * 20 + 5], 0xFF0033CC);
    assert_eq!(ctx.buffer[15 * 20 + 15], 0);
}

#[test]
fn textarea_draw_paints_background_and_scrollbar() {
    let mut ctx = BufferContext::new_filled(
        300,
        100,
        FontMetrics::fixed(8, 2, 0, 10),
        16,
        DefaultComponentTheme::theme(),
    );
    let t = TextArea::new();
    t.draw(&mut ctx);
    // Empty content: the thumb fills the whole track on the right strip.
    assert_eq!(ctx.buffer[25 * 300 + 185], 0xFF0033CC);
    // Inside the text region: the unfocused background.
    assert_eq!(ctx.buffer[25 * 300 + 100], 0xFFFFFFFF);
    // Outside the text area: untouched.
    assert_eq!(ctx.buffer[80 * 300 + 250], 0);
    assert_eq!(ctx.buffer.len(), 300 * 100);
}

#[test]
fn widget_draw_reaches_border_slots() {
    // A border layout with a button filling the whole 8 x 8 screen in its
    // center slot: drawing the tree paints the button's border ring color
    // at the corner and its background inside the ring.
    let mut ctx = BufferContext::new_filled(
        8,
        8,
        FontMetrics::fixed(4, 1, 0, 2),
        8,
        DefaultComponentTheme::theme(),
    );
    let mut border = BorderLayout::new();
    border.set_center(Widget::Button(Button::new(0, 0, 8, 8, String::new())));
    let tree = Widget::Border(border);
    tree.draw(&mut ctx);
    assert_eq!(ctx.buffer[0], 0xFF000000);
    assert_eq!(ctx.buffer[4 * 8 + 4], 0xFF0033CC);
}
