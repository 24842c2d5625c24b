//! An editable, scrollable, word-wrapped text component.
//!
//! The text is a single unbounded character buffer with a cursor; insertion
//! happens at the cursor, backspace removes the character before it. Word
//! wrapping is recomputed on every draw from the live font metrics and the
//! current width: words are packed greedily into lines not exceeding the
//! width minus the padding; a word that would overflow starts a new line.

use vstd::prelude::*;
use crate::component::ComponentState;
use crate::component::style::{ColorFactor, ComponentTheme, Theme};
use crate::component::button::{text_run_post};
use crate::primitive::{draw_border_rect, fill_post, fill_rect, ring_post};
use crate::view::BufferContext;
use crate::component::text::str_chars;
use crate::event::{KeyInput, KeyboardEvent, MouseInput, ScrollDelta, UiEvent};
use crate::font::FontMetrics;
use crate::geometry::{Point, Size, sat_add_i64, sat_add_u64, spec_contains, spec_sat_add_i64, spec_sat_add_u64};
use vstd::string::StrSliceExecFns;

verus! {

broadcast use vstd::seq::axiom_seq_index_decreases;

/// The characters the wrapping algorithm treats as word separators.
pub open spec fn is_ws(c: char) -> bool {
    c == ' ' || c == '\n' || c == '\t' || c == '\r'
}

/// Whether `c` is a word separator.
pub fn char_is_ws(c: char) -> (r: bool)
    ensures
        r == is_ws(c),
{
    c == ' ' || c == '\n' || c == '\t' || c == '\r'
}

/// The length of the leading run of non-separator characters.
pub open spec fn word_len(text: Seq<char>) -> int
    decreases text.len(),
{
    if text.len() == 0 || is_ws(text[0]) {
        0
    } else {
        1 + word_len(text.drop_first())
    }
}

/// The leading word run is never longer than the text and is made of
/// non-separator characters only.
pub proof fn lemma_word_len_bounds(text: Seq<char>)
    ensures
        0 <= word_len(text) <= text.len(),
        text.len() > 0 && !is_ws(text[0]) ==> word_len(text) > 0,
    decreases text.len(),
{
    if text.len() > 0 && !is_ws(text[0]) {
        lemma_word_len_bounds(text.drop_first());
    }
}

/// The text split into its whitespace-separated words, in order.
pub open spec fn spec_split_ws(text: Seq<char>) -> Seq<Seq<char>>
    decreases text.len(),
    via spec_split_ws_decreases
{
    if text.len() == 0 {
        Seq::empty()
    } else if is_ws(text[0]) {
        spec_split_ws(text.drop_first())
    } else {
        let wl = word_len(text);
        seq![text.take(wl)] + spec_split_ws(text.skip(wl))
    }
}

#[via_fn]
proof fn spec_split_ws_decreases(text: Seq<char>) {
    lemma_word_len_bounds(text);
}

/// Split the text into its whitespace-separated words.
#[verifier::loop_isolation(false)]
pub fn split_ws(text: &Vec<char>) -> (words: Vec<Vec<char>>)
    ensures
        words@.map_values(|w: Vec<char>| w@) == spec_split_ws(text@),
{
    let n = text.len();
    let mut words: Vec<Vec<char>> = Vec::new();
    let mut i: usize = 0;
    proof {
        assert(text@.skip(0) =~= text@);
        assert(words@.map_values(|w: Vec<char>| w@) + spec_split_ws(text@) =~= spec_split_ws(
            text@,
        ));
    }
    while i < n
        invariant
            i <= n,
            spec_split_ws(text@) == words@.map_values(|w: Vec<char>| w@) + spec_split_ws(
                text@.skip(i as int),
            ),
        decreases n - i,
    {
        if char_is_ws(text[i]) {
            proof {
                assert(text@.skip(i as int).drop_first() =~= text@.skip(i + 1));
            }
            i = i + 1;
        } else {
            let start = i;
            let mut word: Vec<char> = Vec::new();
            let mut j: usize = i;
            while j < n && !char_is_ws(text[j])
                invariant
                    start <= j <= n,
                    word@ == text@.subrange(start as int, j as int),
                    word_len(text@.skip(start as int)) == (j - start) + word_len(
                        text@.skip(j as int),
                    ),
                decreases n - j,
            {
                proof {
                    assert(text@.skip(j as int).drop_first() =~= text@.skip(j + 1));
                    assert(text@.skip(j as int)[0] == text@[j as int]);
                }
                let c = text[j];
                word.push(c);
                proof {
                    assert(word@ =~= text@.subrange(start as int, j + 1));
                }
                j = j + 1;
            }
            proof {
                if j < n {
                    assert(text@.skip(j as int)[0] == text@[j as int]);
                }
                assert(word_len(text@.skip(j as int)) == 0);
                assert(word_len(text@.skip(start as int)) == j - start);
                assert(text@.skip(start as int).take(j - start) =~= text@.subrange(
                    start as int,
                    j as int,
                ));
                assert(text@.skip(start as int).skip(j - start) =~= text@.skip(j as int));
                assert(spec_split_ws(text@.skip(start as int)) == seq![word@] + spec_split_ws(
                    text@.skip(j as int),
                ));
            }
            let ghost prev = words@.map_values(|w: Vec<char>| w@);
            words.push(word);
            proof {
                assert(words@.map_values(|w: Vec<char>| w@) =~= prev.push(word@));
                assert(prev.push(word@) + spec_split_ws(text@.skip(j as int)) =~= prev + (seq![
                    word@,
                ] + spec_split_ws(text@.skip(j as int))));
            }
            i = j;
        }
    }
    proof {
        assert(spec_split_ws(text@.skip(n as int)) =~= Seq::<Seq<char>>::empty());
        assert(words@.map_values(|w: Vec<char>| w@) + Seq::<Seq<char>>::empty()
            =~= words@.map_values(|w: Vec<char>| w@));
    }
    words
}

/// The pixel width of a word: the sum of its characters' advance widths,
/// saturating at the width range bound.
pub open spec fn spec_word_width(font: FontMetrics, word: Seq<char>) -> int
    decreases word.len(),
{
    if word.len() == 0 {
        0
    } else {
        spec_sat_add_u64(
            spec_word_width(font, word.drop_last()),
            font.spec_advance(word.last()),
        )
    }
}

/// Measure the pixel width of a word.
#[verifier::loop_isolation(false)]
pub fn word_width(font: &FontMetrics, word: &Vec<char>) -> (r: u64)
    requires
        font.wf(),
    ensures
        r == spec_word_width(*font, word@),
{
    let mut r: u64 = 0;
    let mut i: usize = 0;
    while i < word.len()
        invariant
            i <= word@.len(),
            r == spec_word_width(*font, word@.take(i as int)),
        decreases word@.len() - i,
    {
        let adv = font.advance(word[i]);
        r = sat_add_u64(r, adv as u64);
        proof {
            assert(word@.take(i + 1).drop_last() =~= word@.take(i as int));
        }
        i = i + 1;
    }
    proof {
        assert(word@.take(word@.len() as int) =~= word@);
    }
    r
}

/// The line with its trailing word separators removed.
pub open spec fn spec_trim_end(line: Seq<char>) -> Seq<char>
    decreases line.len(),
{
    if line.len() == 0 {
        line
    } else if is_ws(line.last()) {
        spec_trim_end(line.drop_last())
    } else {
        line
    }
}

/// Remove the trailing word separators from a line.
#[verifier::loop_isolation(false)]
pub fn trim_end_chars(line: &Vec<char>) -> (r: Vec<char>)
    ensures
        r@ == spec_trim_end(line@),
{
    let mut end: usize = line.len();
    proof {
        assert(line@.take(line@.len() as int) =~= line@);
    }
    while end > 0 && char_is_ws(line[end - 1])
        invariant
            end <= line@.len(),
            spec_trim_end(line@) == spec_trim_end(line@.take(end as int)),
        decreases end,
    {
        proof {
            assert(line@.take(end as int).drop_last() =~= line@.take(end - 1));
        }
        end = end - 1;
    }
    let mut r: Vec<char> = Vec::new();
    let mut i: usize = 0;
    while i < end
        invariant
            i <= end <= line@.len(),
            r@ == line@.subrange(0, i as int),
        decreases end - i,
    {
        let c = line[i];
        r.push(c);
        proof {
            assert(r@ =~= line@.subrange(0, i + 1));
        }
        i = i + 1;
    }
    proof {
        assert(r@ =~= line@.take(end as int));
        if end > 0 {
            assert(!is_ws(line@.take(end as int).last()));
        }
    }
    r
}

/// The lines produced by greedily packing `words` after the partial line
/// `cur` of width `curw`: a word whose width would push the line past
/// `limit` (allowing for the horizontal padding on both sides) finishes the
/// current line and starts a new one. Each finished line is trimmed of its
/// trailing separator; a final line of separators alone is dropped.
pub open spec fn spec_wrap(
    font: FontMetrics,
    limit: int,
    pad2: int,
    space_w: int,
    words: Seq<Seq<char>>,
    cur: Seq<char>,
    curw: int,
) -> Seq<Seq<char>>
    decreases words.len(),
{
    if words.len() == 0 {
        if spec_trim_end(cur).len() == 0 {
            Seq::empty()
        } else {
            seq![spec_trim_end(cur)]
        }
    } else {
        let ww = spec_word_width(font, words[0]);
        if spec_sat_add_u64(spec_sat_add_u64(curw, ww), pad2) > limit {
            seq![spec_trim_end(cur)] + spec_wrap(
                font,
                limit,
                pad2,
                space_w,
                words.drop_first(),
                words[0] + seq![' '],
                spec_sat_add_u64(ww, space_w),
            )
        } else {
            spec_wrap(
                font,
                limit,
                pad2,
                space_w,
                words.drop_first(),
                cur + words[0] + seq![' '],
                spec_sat_add_u64(spec_sat_add_u64(curw, ww), space_w),
            )
        }
    }
}

/// The text of a text area wrapped into lines: its words greedily packed
/// against `limit` with padding `pad2` (the horizontal padding counted on
/// both sides).
pub open spec fn spec_wrapped_lines(
    font: FontMetrics,
    text: Seq<char>,
    limit: int,
    pad2: int,
) -> Seq<Seq<char>> {
    spec_wrap(
        font,
        limit,
        pad2,
        font.spec_advance(' '),
        spec_split_ws(text),
        Seq::empty(),
        0,
    )
}

/// Wrap `text` into lines no wider than `limit` minus the padding, packing
/// words greedily.
#[verifier::loop_isolation(false)]
pub fn wrap_text(font: &FontMetrics, text: &Vec<char>, limit: u64, pad2: u64) -> (lines: Vec<
    Vec<char>,
>)
    requires
        font.wf(),
    ensures
        lines@.map_values(|l: Vec<char>| l@) == spec_wrapped_lines(
            *font,
            text@,
            limit as int,
            pad2 as int,
        ),
{
    let words = split_ws(text);
    let space_w = font.advance(' ') as u64;
    let mut lines: Vec<Vec<char>> = Vec::new();
    let mut cur: Vec<char> = Vec::new();
    let mut curw: u64 = 0;
    let ghost all_words = words@.map_values(|w: Vec<char>| w@);
    let mut k: usize = 0;
    proof {
        assert(all_words.skip(0) =~= all_words);
    }
    while k < words.len()
        invariant
            k <= words@.len(),
            all_words == words@.map_values(|w: Vec<char>| w@),
            spec_wrapped_lines(*font, text@, limit as int, pad2 as int) == lines@.map_values(
                |l: Vec<char>| l@,
            ) + spec_wrap(
                *font,
                limit as int,
                pad2 as int,
                space_w as int,
                all_words.skip(k as int),
                cur@,
                curw as int,
            ),
        decreases words@.len() - k,
    {
        let word = &words[k];
        let ww = word_width(font, word);
        proof {
            assert(all_words.skip(k as int)[0] == word@);
            assert(all_words.skip(k as int).drop_first() =~= all_words.skip(k + 1));
        }
        if sat_add_u64(sat_add_u64(curw, ww), pad2) > limit {
            let finished = trim_end_chars(&cur);
            let ghost prev = lines@.map_values(|l: Vec<char>| l@);
            lines.push(finished);
            cur = Vec::new();
            let mut m: usize = 0;
            while m < word.len()
                invariant
                    m <= word@.len(),
                    cur@ == word@.take(m as int),
                decreases word@.len() - m,
            {
                let c = word[m];
                cur.push(c);
                proof {
                    assert(cur@ =~= word@.take(m + 1));
                }
                m = m + 1;
            }
            cur.push(' ');
            curw = sat_add_u64(ww, space_w);
            proof {
                assert(word@.take(word@.len() as int) =~= word@);
                assert(cur@ =~= word@ + seq![' ']);
                assert(lines@.map_values(|l: Vec<char>| l@) =~= prev.push(finished@));
                assert(prev.push(finished@) + spec_wrap(
                    *font,
                    limit as int,
                    pad2 as int,
                    space_w as int,
                    all_words.skip(k + 1),
                    cur@,
                    curw as int,
                ) =~= prev + (seq![finished@] + spec_wrap(
                    *font,
                    limit as int,
                    pad2 as int,
                    space_w as int,
                    all_words.skip(k + 1),
                    cur@,
                    curw as int,
                )));
            }
        } else {
            let ghost cur0 = cur@;
            let mut m: usize = 0;
            while m < word.len()
                invariant
                    m <= word@.len(),
                    cur@ == cur0 + word@.take(m as int),
                decreases word@.len() - m,
            {
                let c = word[m];
                cur.push(c);
                proof {
                    assert(cur@ =~= cur0 + word@.take(m + 1));
                }
                m = m + 1;
            }
            cur.push(' ');
            curw = sat_add_u64(sat_add_u64(curw, ww), space_w);
            proof {
                assert(word@.take(word@.len() as int) =~= word@);
                assert(cur@ =~= cur0 + word@ + seq![' ']);
            }
        }
        k = k + 1;
    }
    proof {
        assert(all_words.skip(words@.len() as int) =~= Seq::<Seq<char>>::empty());
    }
    if !cur.is_empty() {
        let finished = trim_end_chars(&cur);
        if !finished.is_empty() {
            let ghost prev = lines@.map_values(|l: Vec<char>| l@);
            lines.push(finished);
            proof {
                assert(lines@.map_values(|l: Vec<char>| l@) =~= prev.push(finished@));
                assert(prev.push(finished@) =~= prev + seq![finished@]);
            }
        } else {
            proof {
                assert(lines@.map_values(|l: Vec<char>| l@) + Seq::<Seq<char>>::empty()
                    =~= lines@.map_values(|l: Vec<char>| l@));
            }
        }
    } else {
        proof {
            assert(spec_trim_end(cur@).len() == 0);
            assert(lines@.map_values(|l: Vec<char>| l@) + Seq::<Seq<char>>::empty()
                =~= lines@.map_values(|l: Vec<char>| l@));
        }
    }
    lines
}

/// A value clamped into the `i64` range.
pub open spec fn spec_clamp_i64(v: int) -> int {
    if v > i64::MAX as int {
        i64::MAX as int
    } else if v < i64::MIN as int {
        i64::MIN as int
    } else {
        v
    }
}

/// A pointer movement scaled by the host's scale factor (in whole percent),
/// rounding toward negative infinity, clamped to the coordinate range.
pub open spec fn spec_scaled(d: int, percent: int) -> int {
    let p = d * percent;
    spec_clamp_i64(
        if p >= 0 {
            p / 100
        } else {
            -((-p + 99) / 100)
        },
    )
}

/// The movement from `prev` to `now`, scaled by the host's scale factor in
/// whole percent.
pub fn scaled_delta(now: i64, prev: i64, percent: u32) -> (r: i64)
    ensures
        r as int == spec_scaled(now - prev, percent as int),
{
    let d: i128 = now as i128 - prev as i128;
    proof {
        assert((d as int) * (percent as int) <= 0x10000000000000000 * 0x100000000 && (d as int)
            * (percent as int) >= -(0x10000000000000000 * 0x100000000)) by (nonlinear_arith)
            requires -0x10000000000000000 <= d as int <= 0x10000000000000000 && 0 <= percent as int
                <= 0xffffffff;
    }
    let p: i128 = d * (percent as i128);
    let q: i128 = if p >= 0 {
        p / 100
    } else {
        -((-p + 99) / 100)
    };
    if q > i64::MAX as i128 {
        i64::MAX
    } else if q < i64::MIN as i128 {
        i64::MIN
    } else {
        q as i64
    }
}

/// The height of the scrollbar thumb: the visible fraction of the content
/// applied to the track height, clamped between a 10-pixel floor and the
/// track height itself. Content that fits entirely (or an empty content)
/// yields a full-height thumb.
pub open spec fn spec_thumb_height(content: int, area: int) -> int {
    if content <= 0 {
        area
    } else {
        let v = (area * area) / content;
        if v < 10 {
            if area < 10 {
                area
            } else {
                10
            }
        } else if v > area {
            area
        } else {
            v
        }
    }
}

/// The scrollbar thumb height for a content of `content_height` pixels in a
/// track of `area_height` pixels.
pub fn thumb_height(content_height: u64, area_height: u32) -> (r: u32)
    ensures
        r == spec_thumb_height(content_height as int, area_height as int),
        r <= area_height,
        area_height >= 10 ==> r >= 10,
        area_height > 0 ==> r > 0,
{
    if content_height == 0 {
        return area_height;
    }
    proof {
        assert((area_height as int) * (area_height as int) <= 0xffffffff * 0xffffffff)
            by (nonlinear_arith)
            requires area_height as int <= 0xffffffff;
    }
    let sq: u64 = (area_height as u64) * (area_height as u64);
    let v: u64 = sq / content_height;
    proof {
        assert(sq == (area_height as int) * (area_height as int));
    }
    if v < 10 {
        if area_height < 10 {
            area_height
        } else {
            10
        }
    } else if v > area_height as u64 {
        area_height
    } else {
        v as u32
    }
}

/// The vertical offset of the scrollbar thumb within its track: the scroll
/// offset as a fraction of the maximum scroll, applied to the slack left by
/// the thumb, clamped into the track.
pub open spec fn spec_thumb_offset(offset: int, content: int, area: int, thumb: int) -> int {
    let max_scroll = if content > area {
        content - area
    } else {
        1
    };
    let avail = area - thumb;
    if offset <= 0 || avail <= 0 {
        0
    } else {
        let raw = (offset * avail) / max_scroll;
        if raw > avail {
            avail
        } else {
            raw
        }
    }
}

/// The thumb offset for a scroll position of `offset` pixels.
pub fn thumb_offset(offset: i64, content_height: u64, area_height: u32, thumb: u32) -> (r: u32)
    requires
        thumb <= area_height,
    ensures
        r == spec_thumb_offset(
            offset as int,
            content_height as int,
            area_height as int,
            thumb as int,
        ),
        r + thumb <= area_height,
{
    let max_scroll: u64 = if content_height > area_height as u64 {
        content_height - area_height as u64
    } else {
        1
    };
    let avail: u32 = area_height - thumb;
    if offset <= 0 || avail == 0 {
        0
    } else {
        proof {
            assert((offset as int) * (avail as int) <= 0x7fffffffffffffff * 0x100000000)
                by (nonlinear_arith)
                requires offset as int <= 0x7fffffffffffffff && 0 <= avail as int <= 0xffffffff
                    && offset >= 0;
        }
        let raw: u128 = (offset as u128) * (avail as u128) / (max_scroll as u128);
        if raw > avail as u128 {
            avail
        } else {
            raw as u32
        }
    }
}

/// Whether `(px, py)` lies inside the box at `(x, y)` of extent
/// `width x height`, with the right and bottom edges included (the
/// scrollbar's hit test is closed on all edges).
pub open spec fn spec_contains_closed(
    x: int,
    y: int,
    width: int,
    height: int,
    px: int,
    py: int,
) -> bool {
    &&& px >= x
    &&& px <= x + width
    &&& py >= y
    &&& py <= y + height
}

/// A text-area control holding editable, word-wrapped, scrollable text.
pub struct TextArea {
    /// Identifies this text area in the `UiEvent`s it emits.
    pub id: u64,
    /// The text, one entry per character.
    pub text: Vec<char>,
    /// The cursor, as a character index into `text`.
    pub cursor_index: usize,
    pub position: Point,
    pub size: Size,
    pub focused: bool,
    pub component_state: ComponentState,
    /// How far the text is scrolled down, in pixels.
    pub visible_scrolling_offset: i64,
    pub dragging_scrollbar: bool,
    /// The pointer's vertical position during the previous scrollbar-drag
    /// event, unscaled.
    pub last_mouse_y: Option<i64>,
    /// Pixels scrolled per wheel notch.
    pub scroll_amount_y: i64,
    /// Width of the scrollbar strip on the right edge, in pixels.
    pub scrollbar_width: u32,
}

/// The focus the text area has after a press or release at the given
/// pointer position: inside the box it takes focus, outside it loses it.
pub open spec fn spec_focus_after(t: TextArea, input: MouseInput) -> bool {
    spec_contains(
        t.position.x as int,
        t.position.y as int,
        t.size.width as int,
        t.size.height as int,
        input.position.x as int,
        input.position.y as int,
    )
}

/// The scrollbar-drag flag after the press phase of one mouse event.
pub open spec fn spec_drag_mid(t: TextArea, input: MouseInput) -> bool {
    if input.pressed {
        spec_contains_closed(
            t.position.x + t.size.width - t.scrollbar_width,
            t.position.y as int,
            t.scrollbar_width as int,
            t.size.height as int,
            input.position.x as int,
            input.position.y as int,
        )
    } else {
        t.dragging_scrollbar
    }
}

/// The scroll offset after one mouse event: while the scrollbar is being
/// dragged, the offset accumulates the movement from the stored previous
/// pointer position to the current one, scaled by the host's scale factor.
pub open spec fn spec_offset_after(t: TextArea, input: MouseInput) -> int {
    if spec_drag_mid(t, input) {
        match t.last_mouse_y {
            Option::Some(ly) => spec_clamp_i64(
                t.visible_scrolling_offset + spec_scaled(
                    input.position.y - ly,
                    input.scale_factor as int,
                ),
            ),
            Option::None => t.visible_scrolling_offset as int,
        }
    } else {
        t.visible_scrolling_offset as int
    }
}


/// The text area after one mouse event.
pub open spec fn spec_ta_after_mouse(t: TextArea, input: MouseInput) -> TextArea {
    if t.component_state == ComponentState::Disabled {
        t
    } else {
        TextArea {
            focused: if input.pressed || input.just_released {
                spec_focus_after(t, input)
            } else {
                t.focused
            },
            component_state: if input.pressed || input.just_released {
                if spec_focus_after(t, input) {
                    ComponentState::Focused
                } else {
                    ComponentState::Active
                }
            } else {
                t.component_state
            },
            dragging_scrollbar: if input.just_released {
                false
            } else {
                spec_drag_mid(t, input)
            },
            visible_scrolling_offset: spec_offset_after(t, input) as i64,
            last_mouse_y: if input.just_released {
                Option::None
            } else if spec_drag_mid(t, input) {
                Option::Some(input.position.y)
            } else {
                t.last_mouse_y
            },
            ..t
        }
    }
}

/// The text area after one mouse-wheel event.
pub open spec fn spec_ta_after_wheel(t: TextArea, delta: ScrollDelta) -> TextArea {
    TextArea {
        visible_scrolling_offset: if t.focused {
            match delta {
                ScrollDelta::Lines { x: _, y } => spec_clamp_i64(
                    t.visible_scrolling_offset - y * t.scroll_amount_y,
                ) as i64,
                ScrollDelta::Pixels { x: _, y } => spec_clamp_i64(
                    t.visible_scrolling_offset - y,
                ) as i64,
            }
        } else {
            t.visible_scrolling_offset
        },
        ..t
    }
}

/// How one keyboard event transforms the text area: typed characters and
/// the space key insert at the cursor when they fit, backspace removes the
/// character before the cursor, everything else (and any input while
/// unfocused) leaves the text area unchanged.
pub open spec fn rel_ta_key(a: TextArea, b: TextArea, event: KeyboardEvent) -> bool {
    if !(a.focused && event.pressed) {
        b == a
    } else {
        match event.key {
            KeyInput::Character(s) => if a.text@.len() + s@.len() <= usize::MAX {
                &&& b.text@ == a.text@.take(a.cursor_index as int) + s@ + a.text@.skip(
                    a.cursor_index as int,
                )
                &&& b.cursor_index == a.cursor_index + s@.len()
                &&& b == (TextArea { text: b.text, cursor_index: b.cursor_index, ..a })
            } else {
                b == a
            },
            KeyInput::Space => if a.text@.len() < usize::MAX {
                &&& b.text@ == a.text@.take(a.cursor_index as int) + seq![' '] + a.text@.skip(
                    a.cursor_index as int,
                )
                &&& b.cursor_index == a.cursor_index + 1
                &&& b == (TextArea { text: b.text, cursor_index: b.cursor_index, ..a })
            } else {
                b == a
            },
            KeyInput::Backspace => if a.cursor_index > 0 {
                &&& b.text@ == a.text@.remove(a.cursor_index - 1)
                &&& b.cursor_index == a.cursor_index - 1
                &&& b == (TextArea { text: b.text, cursor_index: b.cursor_index, ..a })
            } else {
                b == a
            },
            _ => b == a,
        }
    }
}

/// The change notifications one keyboard event makes the text area emit.
pub open spec fn spec_ta_key_events(t: TextArea, event: KeyboardEvent) -> Seq<UiEvent> {
    if !(t.focused && event.pressed && t.spec_notifies()) {
        Seq::empty()
    } else {
        match event.key {
            KeyInput::Character(s) => if t.text@.len() + s@.len() <= usize::MAX {
                seq![UiEvent::TextChanged { id: t.id }]
            } else {
                Seq::empty()
            },
            KeyInput::Space => if t.text@.len() < usize::MAX {
                seq![UiEvent::TextChanged { id: t.id }]
            } else {
                Seq::empty()
            },
            KeyInput::Backspace => if t.cursor_index > 0 {
                seq![UiEvent::TextChanged { id: t.id }]
            } else {
                Seq::empty()
            },
            _ => Seq::empty(),
        }
    }
}


/// The horizontal (and vertical) text padding as a coordinate offset: five
/// pixels plus the border width, saturating at the coordinate range bound.
pub open spec fn spec_pad_i(bw: int) -> int {
    if bw + 5 > i64::MAX as int {
        i64::MAX as int
    } else {
        bw + 5
    }
}

/// The pixels after drawing one wrapped line: its glyph run on the line's
/// baseline when the line lies inside the visible vertical band, unchanged
/// pixels when it is scrolled out of view.
pub open spec fn line_post(
    font: FontMetrics,
    line: Seq<char>,
    start_x: int,
    line_y: int,
    lh: int,
    area_top: int,
    area_bottom: int,
    color: u32,
    w: int,
    pre: Seq<u32>,
) -> Seq<u32> {
    if !(line_y + lh < area_top || line_y > area_bottom) {
        text_run_post(font, start_x, spec_clamp_i64(line_y), line, color, w, pre)
    } else {
        pre
    }
}

/// The pixels after drawing a run of wrapped lines, top to bottom, each one
/// line height below the one before it.
pub open spec fn lines_post(
    font: FontMetrics,
    lines: Seq<Seq<char>>,
    start_x: int,
    base_y: int,
    lh: int,
    area_top: int,
    area_bottom: int,
    color: u32,
    w: int,
    pre: Seq<u32>,
) -> Seq<u32>
    decreases lines.len(),
{
    if lines.len() == 0 {
        pre
    } else {
        line_post(
            font,
            lines.last(),
            start_x,
            base_y + lh * (lines.len() - 1),
            lh,
            area_top,
            area_bottom,
            color,
            w,
            lines_post(
                font,
                lines.drop_last(),
                start_x,
                base_y,
                lh,
                area_top,
                area_bottom,
                color,
                w,
                pre,
            ),
        )
    }
}

/// The pixels after a text area's text pass: its text wrapped against the
/// current width and the visible lines drawn, scrolled by the current
/// offset.
pub open spec fn spec_text_pass_post(
    t: TextArea,
    font: FontMetrics,
    theme: Theme,
    w: int,
    pre: Seq<u32>,
) -> Seq<u32> {
    let style = theme.spec_style_for(t.component_state);
    let bw = style.border_width as int;
    let pad2 = TextArea::spec_pad2(bw);
    let pad_i = spec_pad_i(bw);
    let lines = spec_wrapped_lines(font, t.text@, t.size.width as int, pad2);
    let lh = font.spec_line_height();
    lines_post(
        font,
        lines,
        spec_sat_add_i64(t.position.x as int, pad_i),
        t.position.y + pad_i + font.ascent - t.visible_scrolling_offset,
        lh,
        t.position.y + lh + pad_i,
        t.position.y + t.size.height - lh - pad_i,
        style.edit_text_color.value,
        w,
        pre,
    )
}

/// The content height the scrollbar is sized against: the line height times
/// the number of wrapped lines, saturating at the height range bound.
pub open spec fn spec_content_height(font: FontMetrics, t: TextArea, theme: Theme) -> int {
    let style = theme.spec_style_for(t.component_state);
    let lines = spec_wrapped_lines(
        font,
        t.text@,
        t.size.width as int,
        TextArea::spec_pad2(style.border_width as int),
    );
    let raw = font.spec_line_height() * lines.len();
    if raw > u64::MAX as int {
        u64::MAX as int
    } else {
        raw
    }
}

/// The pixels after drawing a whole text area: the background fill
/// (brighter while focused), the text pass, the border ring, the scrollbar
/// track on the right strip, and the scrollbar thumb within the track.
pub open spec fn spec_textarea_draw_post(
    t: TextArea,
    font: FontMetrics,
    theme: Theme,
    w: int,
    pre: Seq<u32>,
) -> Seq<u32> {
    let style = theme.spec_style_for(t.component_state);
    let after_bg = fill_post(
        pre,
        t.position.x as int,
        t.position.y as int,
        t.size.width as int,
        t.size.height as int,
        w,
        if t.focused {
            0xFFEEEEFFu32
        } else {
            0xFFFFFFFFu32
        },
    );
    let after_text = spec_text_pass_post(t, font, theme, w, after_bg);
    let after_border = ring_post(
        after_text,
        t.position.x as int,
        t.position.y as int,
        t.size.width as int,
        t.size.height as int,
        style.border_width as int,
        w,
        style.border_color.value,
    );
    let content = spec_content_height(font, t, theme);
    let th = spec_thumb_height(content, t.size.height as int);
    let toff = spec_thumb_offset(
        t.visible_scrolling_offset as int,
        content,
        t.size.height as int,
        th,
    );
    let track_x = spec_clamp_i64(t.position.x + t.size.width - t.scrollbar_width);
    let after_track = fill_post(
        after_border,
        track_x,
        t.position.y as int,
        t.scrollbar_width as int,
        t.size.height as int,
        w,
        style.back_color.spec_lighten(40) as u32,
    );
    fill_post(
        after_track,
        track_x,
        spec_sat_add_i64(t.position.y as int, toff),
        t.scrollbar_width as int,
        th,
        w,
        style.back_color.value,
    )
}

#[verifier::loop_isolation(false)]
impl TextArea {
    /// The cursor lies within the text.
    pub open spec fn wf(&self) -> bool {
        self.cursor_index <= self.text@.len()
    }

    /// Constructor: an empty, unfocused 200 x 50 text area at the origin.
    pub fn new() -> (r: Self)
        ensures
            r.wf(),
            r.id == 0,
            r.text@ == Seq::<char>::empty(),
            r.cursor_index == 0,
            r.position == (Point { x: 0, y: 0 }),
            r.size == (Size { width: 200, height: 50 }),
            !r.focused,
            r.component_state == ComponentState::Active,
            r.visible_scrolling_offset == 0,
            !r.dragging_scrollbar,
            r.last_mouse_y == Option::<i64>::None,
            r.scroll_amount_y == 10,
            r.scrollbar_width == 20,
    {
        Self {
            id: 0,
            text: Vec::new(),
            cursor_index: 0,
            position: Point { x: 0, y: 0 },
            size: Size { width: 200, height: 50 },
            focused: false,
            component_state: ComponentState::Active,
            visible_scrolling_offset: 0,
            dragging_scrollbar: false,
            last_mouse_y: None,
            scroll_amount_y: 10,
            scrollbar_width: 20,
        }
    }

    /// Give the text area the id carried by the events it emits.
    pub fn with_id(self, id: u64) -> (r: Self)
        ensures
            r == (TextArea { id, ..self }),
    {
        TextArea { id, ..self }
    }

    /// Whether the text area emits change notifications in its current
    /// state.
    pub open spec fn spec_notifies(&self) -> bool {
        self.component_state == ComponentState::Active || self.component_state
            == ComponentState::Focused
    }

    /// Whether `(px, py)` lies inside the text area's box (half-open on the
    /// right and bottom edges).
    pub fn contains(&self, px: i64, py: i64) -> (r: bool)
        ensures
            r == spec_contains(
                self.position.x as int,
                self.position.y as int,
                self.size.width as int,
                self.size.height as int,
                px as int,
                py as int,
            ),
    {
        px >= self.position.x && (px as i128) < self.position.x as i128 + self.size.width as i128
            && py >= self.position.y && (py as i128) < self.position.y as i128
            + self.size.height as i128
    }

    /// Whether `(px, py)` lies on the scrollbar strip at the right edge of
    /// the text area (all edges included).
    pub fn scrollbar_contains(&self, px: i64, py: i64) -> (r: bool)
        ensures
            r == spec_contains_closed(
                self.position.x + self.size.width - self.scrollbar_width,
                self.position.y as int,
                self.scrollbar_width as int,
                self.size.height as int,
                px as int,
                py as int,
            ),
    {
        let sx: i128 = self.position.x as i128 + self.size.width as i128
            - self.scrollbar_width as i128;
        (px as i128) >= sx && (px as i128) <= sx + self.scrollbar_width as i128 && py
            >= self.position.y && (py as i128) <= self.position.y as i128
            + self.size.height as i128
    }

    /// Insert a string at the cursor, move the cursor past it, and notify.
    pub fn insert_str(&mut self, s: &str, events: &mut Vec<UiEvent>)
        requires
            old(self).wf(),
            old(self).text@.len() + s@.len() <= usize::MAX,
        ensures
            final(self).wf(),
            final(self).text@ == old(self).text@.take(old(self).cursor_index as int) + s@ + old(
                self,
            ).text@.skip(old(self).cursor_index as int),
            final(self).cursor_index == old(self).cursor_index + s@.len(),
            *final(self) == (TextArea {
                text: final(self).text,
                cursor_index: final(self).cursor_index,
                ..*old(self)
            }),
            final(events)@ == if old(self).spec_notifies() {
                old(events)@.push(UiEvent::TextChanged { id: old(self).id })
            } else {
                old(events)@
            },
    {
        let schars = str_chars(s);
        let mut newt: Vec<char> = Vec::new();
        let mut i: usize = 0;
        while i < self.cursor_index
            invariant
                i <= self.cursor_index,
                self == old(self),
                newt@ == self.text@.take(i as int),
            decreases self.cursor_index - i,
        {
            let c = self.text[i];
            newt.push(c);
            proof {
                assert(newt@ =~= self.text@.take(i + 1));
            }
            i = i + 1;
        }
        let mut j: usize = 0;
        while j < schars.len()
            invariant
                j <= schars@.len(),
                self == old(self),
                newt@ == self.text@.take(self.cursor_index as int) + schars@.take(j as int),
            decreases schars@.len() - j,
        {
            let c = schars[j];
            newt.push(c);
            proof {
                assert(newt@ =~= self.text@.take(self.cursor_index as int) + schars@.take(j + 1));
            }
            j = j + 1;
        }
        let mut k: usize = self.cursor_index;
        while k < self.text.len()
            invariant
                self.cursor_index <= k <= self.text@.len(),
                self == old(self),
                newt@ == self.text@.take(self.cursor_index as int) + schars@ + self.text@.subrange(
                    self.cursor_index as int,
                    k as int,
                ),
            decreases self.text@.len() - k,
        {
            let c = self.text[k];
            newt.push(c);
            proof {
                assert(newt@ =~= self.text@.take(self.cursor_index as int) + schars@
                    + self.text@.subrange(self.cursor_index as int, k + 1));
            }
            k = k + 1;
        }
        proof {
            assert(schars@.take(schars@.len() as int) =~= schars@);
            assert(self.text@.subrange(self.cursor_index as int, self.text@.len() as int)
                =~= self.text@.skip(self.cursor_index as int));
        }
        self.text = newt;
        self.cursor_index = self.cursor_index + schars.len();
        if self.component_state == ComponentState::Active || self.component_state
            == ComponentState::Focused {
            events.push(UiEvent::TextChanged { id: self.id });
        }
    }

    /// Delete the character before the cursor and notify; with the cursor at
    /// the start of the text this is a no-op.
    pub fn backspace(&mut self, events: &mut Vec<UiEvent>)
        requires
            old(self).wf(),
        ensures
            final(self).wf(),
            final(self).text@ == if old(self).cursor_index > 0 {
                old(self).text@.remove(old(self).cursor_index - 1)
            } else {
                old(self).text@
            },
            final(self).cursor_index == if old(self).cursor_index > 0 {
                (old(self).cursor_index - 1) as int
            } else {
                0int
            },
            *final(self) == (TextArea {
                text: final(self).text,
                cursor_index: final(self).cursor_index,
                ..*old(self)
            }),
            final(events)@ == if old(self).cursor_index > 0 && old(self).spec_notifies() {
                old(events)@.push(UiEvent::TextChanged { id: old(self).id })
            } else {
                old(events)@
            },
            old(self).cursor_index == 0 ==> *final(self) == *old(self),
    {
        if self.cursor_index > 0 {
            self.text.remove(self.cursor_index - 1);
            self.cursor_index = self.cursor_index - 1;
            if self.component_state == ComponentState::Active || self.component_state
                == ComponentState::Focused {
                events.push(UiEvent::TextChanged { id: self.id });
            }
        }
    }

    /// Replace the text; the cursor is clamped into the new text.
    pub fn set_text(&mut self, text: String)
        ensures
            final(self).wf(),
            final(self).text@ == text@,
            final(self).cursor_index == if old(self).cursor_index <= text@.len() {
                old(self).cursor_index as int
            } else {
                text@.len() as int
            },
            *final(self) == (TextArea {
                text: final(self).text,
                cursor_index: final(self).cursor_index,
                ..*old(self)
            }),
    {
        let chars = str_chars(text.as_str());
        if self.cursor_index > chars.len() {
            self.cursor_index = chars.len();
        }
        self.text = chars;
    }

    /// Update focus and the scrollbar drag from one mouse event. Pressing
    /// inside the box focuses the text area, pressing outside unfocuses it;
    /// pressing on the scrollbar strip starts a drag that accumulates the
    /// pointer's vertical movement into the scroll offset until release.
    /// A disabled text area ignores all input.
    pub fn handle_mouse_event(&mut self, input: MouseInput)
        requires
            old(self).wf(),
        ensures
            final(self).wf(),
            *final(self) == spec_ta_after_mouse(*old(self), input),
    {
        if self.component_state == ComponentState::Disabled {
            return ;
        }
        if input.pressed {
            if self.contains(input.position.x, input.position.y) {
                self.focused = true;
                self.component_state = ComponentState::Focused;
            } else {
                self.focused = false;
                self.component_state = ComponentState::Active;
            }
            self.dragging_scrollbar = self.scrollbar_contains(
                input.position.x,
                input.position.y,
            );
        }
        if self.dragging_scrollbar {
            match self.last_mouse_y {
                Some(ly) => {
                    let scaled = scaled_delta(input.position.y, ly, input.scale_factor);
                    let moved: i128 = self.visible_scrolling_offset as i128 + scaled as i128;
                    self.visible_scrolling_offset = if moved > i64::MAX as i128 {
                        i64::MAX
                    } else if moved < i64::MIN as i128 {
                        i64::MIN
                    } else {
                        moved as i64
                    };
                },
                None => {},
            }
            self.last_mouse_y = Some(input.position.y);
        }
        if input.just_released {
            if self.contains(input.position.x, input.position.y) {
                self.focused = true;
                self.component_state = ComponentState::Focused;
            } else {
                self.focused = false;
                self.component_state = ComponentState::Active;
            }
            self.dragging_scrollbar = false;
            self.last_mouse_y = None;
        }
    }

    /// Adjust the scroll offset from a mouse-wheel movement: a line delta is
    /// scaled by the per-notch scroll amount, a pixel delta is applied
    /// directly. Ignored while the text area is unfocused.
    pub fn handle_mouse_wheel_event(&mut self, delta: &ScrollDelta)
        requires
            old(self).wf(),
        ensures
            final(self).wf(),
            *final(self) == spec_ta_after_wheel(*old(self), *delta),
    {
        if self.focused {
            match delta {
                ScrollDelta::Lines { x: _, y } => {
                    proof {
                        assert((y as int) * (self.scroll_amount_y as int)
                            <= 0x8000000000000000 * 0x8000000000000000 && (y as int)
                            * (self.scroll_amount_y as int) >= -(0x8000000000000000
                            * 0x8000000000000000)) by (nonlinear_arith)
                            requires -0x8000000000000000 <= y as int <= 0x7fffffffffffffff
                                && -0x8000000000000000 <= self.scroll_amount_y as int
                                <= 0x7fffffffffffffff;
                    }
                    let moved: i128 = self.visible_scrolling_offset as i128 - (*y as i128)
                        * (self.scroll_amount_y as i128);
                    self.visible_scrolling_offset = if moved > i64::MAX as i128 {
                        i64::MAX
                    } else if moved < i64::MIN as i128 {
                        i64::MIN
                    } else {
                        moved as i64
                    };
                },
                ScrollDelta::Pixels { x: _, y } => {
                    let moved: i128 = self.visible_scrolling_offset as i128 - *y as i128;
                    self.visible_scrolling_offset = if moved > i64::MAX as i128 {
                        i64::MAX
                    } else if moved < i64::MIN as i128 {
                        i64::MIN
                    } else {
                        moved as i64
                    };
                },
            }
        }
    }

    /// Apply one keyboard event: typed characters and the space key insert
    /// at the cursor, backspace deletes the character before it, anything
    /// else is ignored. Keyboard input is ignored unless the text area is
    /// focused and the event is a press.
    #[verifier::rlimit(60)]
    pub fn handle_keyboard_event(&mut self, event: &KeyboardEvent, events: &mut Vec<UiEvent>)
        requires
            old(self).wf(),
        ensures
            final(self).wf(),
            rel_ta_key(*old(self), *final(self), *event),
            final(events)@ == old(events)@ + spec_ta_key_events(*old(self), *event),
    {
        let ghost orig = *self;
        if self.focused && event.pressed {
            match &event.key {
                KeyInput::Character(s) => {
                    if s.as_str().unicode_len() <= usize::MAX - self.text.len() {
                        self.insert_str(s.as_str(), events);
                    }
                },
                KeyInput::Space => {
                    if self.text.len() < usize::MAX {
                        proof {
                            reveal_strlit(" ");
                        }
                        self.insert_str(" ", events);
                        proof {
                            assert(self.text@ =~= orig.text@.take(orig.cursor_index as int)
                                + seq![' '] + orig.text@.skip(orig.cursor_index as int));
                        }
                    }
                },
                KeyInput::Enter => {},
                KeyInput::Backspace => {
                    self.backspace(events);
                },
                KeyInput::Delete => {},
                KeyInput::Other => {},
            }
        }
        proof {
            assert(events@ =~= old(events)@ + spec_ta_key_events(orig, *event));
        }
    }

    /// Set the position of the text area.
    pub fn set_position(&mut self, x: i64, y: i64)
        ensures
            *final(self) == (TextArea { position: Point { x, y }, ..*old(self) }),
    {
        self.position = Point { x, y };
    }

    /// Get the position of the text area.
    pub fn get_position(&self) -> (r: Point)
        ensures
            r == self.position,
    {
        self.position
    }

    /// Set the size of the text area.
    pub fn set_size(&mut self, width: u32, height: u32)
        ensures
            *final(self) == (TextArea { size: Size { width, height }, ..*old(self) }),
    {
        self.size = Size { width, height };
    }

    /// Get the size of the text area.
    pub fn get_size(&self) -> (r: Size)
        ensures
            r == self.size,
    {
        self.size
    }

    /// The horizontal padding on both sides of the wrapped text: five pixels
    /// plus the border width, counted twice.
    pub open spec fn spec_pad2(bw: int) -> int {
        if (bw + 5) * 2 > u64::MAX as int {
            u64::MAX as int
        } else {
            (bw + 5) * 2
        }
    }

    /// Word-wrap the text against the current width and draw the visible
    /// lines, scrolled by the current offset. Returns the total number of
    /// wrapped lines (including those scrolled out of view).
    #[verifier::loop_isolation(false)]
    pub fn draw_text(&self, ctx: &mut BufferContext) -> (lines: usize)
        requires
            old(ctx).wf(),
        ensures
            final(ctx).wf(),
            final(ctx).same_frame(old(ctx)),
            lines == spec_wrapped_lines(
                old(ctx).font,
                self.text@,
                self.size.width as int,
                TextArea::spec_pad2(
                    old(ctx).theme.spec_style_for(self.component_state).border_width as int,
                ),
            ).len(),
            final(ctx).buffer@ == spec_text_pass_post(
                *self,
                old(ctx).font,
                old(ctx).theme,
                old(ctx).screen_size.width as int,
                old(ctx).buffer@,
            ),
    {
        let w = ctx.screen_size.width;
        let h = ctx.screen_size.height;
        let style = ctx.theme.style_for(&self.component_state);
        let bw = style.border_width;
        let pad2: u64 = {
            let p: u128 = (bw as u128 + 5) * 2;
            if p > u64::MAX as u128 {
                u64::MAX
            } else {
                p as u64
            }
        };
        let pad_i: i64 = {
            let p: u128 = bw as u128 + 5;
            if p > i64::MAX as u128 {
                i64::MAX
            } else {
                p as i64
            }
        };
        let lines = wrap_text(&ctx.font, &self.text, self.size.width as u64, pad2);
        let ghost lines_view = lines@.map_values(|l: Vec<char>| l@);
        let lh = ctx.font.line_height();
        let asc = ctx.font.ascent;
        let start_x = sat_add_i64(self.position.x, pad_i);
        let base_y: i128 = self.position.y as i128 + pad_i as i128 + asc as i128
            - self.visible_scrolling_offset as i128;
        let area_top: i128 = self.position.y as i128 + lh as i128 + pad_i as i128;
        let area_bottom: i128 = self.position.y as i128 + self.size.height as i128 - lh as i128
            - pad_i as i128;
        let mut i: usize = 0;
        proof {
            assert(lines_view.take(0) =~= Seq::<Seq<char>>::empty());
        }
        while i < lines.len()
            invariant
                i <= lines@.len(),
                ctx.buffer@.len() == old(ctx).buffer@.len(),
                ctx.same_frame(old(ctx)),
                ctx.font == old(ctx).font,
                ctx.buffer@ == lines_post(
                    old(ctx).font,
                    lines_view.take(i as int),
                    start_x as int,
                    base_y as int,
                    lh as int,
                    area_top as int,
                    area_bottom as int,
                    style.edit_text_color.value,
                    old(ctx).screen_size.width as int,
                    old(ctx).buffer@,
                ),
            decreases lines@.len() - i,
        {
            proof {
                assert(0 <= (lh as int) * (i as int) <= 0x400000 * 0xffffffffffffffff)
                    by (nonlinear_arith)
                    requires 0 <= lh as int <= 0x400000 && 0 <= i as int <= 0xffffffffffffffff;
            }
            let ghost snap = ctx.buffer@;
            let line_y: i128 = base_y + (lh as i128) * (i as i128);
            if !(line_y + (lh as i128) < area_top || line_y > area_bottom) {
                let baseline: i64 = if line_y > i64::MAX as i128 {
                    i64::MAX
                } else if line_y < i64::MIN as i128 {
                    i64::MIN
                } else {
                    line_y as i64
                };
                crate::component::button::draw_text_run(
                    &mut ctx.buffer,
                    w,
                    h,
                    &ctx.font,
                    start_x,
                    baseline,
                    &lines[i],
                    style.edit_text_color.value,
                );
            }
            proof {
                assert(lines_view.take(i + 1).drop_last() =~= lines_view.take(i as int));
                assert(lines_view.take(i + 1).last() == lines_view[i as int]);
                assert(ctx.buffer@ == line_post(
                    old(ctx).font,
                    lines_view[i as int],
                    start_x as int,
                    line_y as int,
                    lh as int,
                    area_top as int,
                    area_bottom as int,
                    style.edit_text_color.value,
                    old(ctx).screen_size.width as int,
                    snap,
                ));
            }
            i = i + 1;
        }
        proof {
            assert(lines_view.take(lines_view.len() as int) =~= lines_view);
        }
        lines.len()
    }

    /// Fill the text area's background: the whole bounding box takes a
    /// brighter color while focused, clipped to the screen; every other
    /// pixel is untouched.
    pub fn draw_background(&self, ctx: &mut BufferContext)
        requires
            old(ctx).wf(),
        ensures
            final(ctx).wf(),
            final(ctx).same_frame(old(ctx)),
            final(ctx).buffer@ == fill_post(
                old(ctx).buffer@,
                self.position.x as int,
                self.position.y as int,
                self.size.width as int,
                self.size.height as int,
                old(ctx).screen_size.width as int,
                if self.focused {
                    0xFFEEEEFFu32
                } else {
                    0xFFFFFFFFu32
                },
            ),
    {
        let w = ctx.screen_size.width;
        let h = ctx.screen_size.height;
        let background: u32 = if self.focused {
            0xFFEEEEFF
        } else {
            0xFFFFFFFF
        };
        fill_rect(
            &mut ctx.buffer,
            w,
            h,
            self.position.x,
            self.position.y,
            self.size.width,
            self.size.height,
            background,
        );
    }

    /// Draw the text area's border: the ring of the state's border width
    /// just inside the bounding box takes the state's border color, clipped
    /// to the screen; every other pixel is untouched.
    pub fn draw_border(&self, ctx: &mut BufferContext)
        requires
            old(ctx).wf(),
        ensures
            final(ctx).wf(),
            final(ctx).same_frame(old(ctx)),
            final(ctx).buffer@ == ring_post(
                old(ctx).buffer@,
                self.position.x as int,
                self.position.y as int,
                self.size.width as int,
                self.size.height as int,
                old(ctx).theme.spec_style_for(self.component_state).border_width as int,
                old(ctx).screen_size.width as int,
                old(ctx).theme.spec_style_for(self.component_state).border_color.value,
            ),
    {
        let w = ctx.screen_size.width;
        let h = ctx.screen_size.height;
        let style = ctx.theme.style_for(&self.component_state);
        draw_border_rect(
            &mut ctx.buffer,
            w,
            h,
            self.position.x,
            self.position.y,
            self.size.width,
            self.size.height,
            style.border_width,
            style.border_color.value,
        );
    }

    /// Paint the text area: background (brighter while focused), the wrapped
    /// text, the border ring, and the scrollbar track and thumb on the right
    /// edge. All writes are clipped to the screen and stay inside the
    /// buffer.
    pub fn draw(&self, ctx: &mut BufferContext)
        requires
            old(ctx).wf(),
        ensures
            final(ctx).wf(),
            final(ctx).same_frame(old(ctx)),
            final(ctx).buffer@ == spec_textarea_draw_post(
                *self,
                old(ctx).font,
                old(ctx).theme,
                old(ctx).screen_size.width as int,
                old(ctx).buffer@,
            ),
    {
        let w = ctx.screen_size.width;
        let h = ctx.screen_size.height;
        self.draw_background(ctx);
        let total_lines = self.draw_text(ctx);
        self.draw_border(ctx);
        let style = ctx.theme.style_for(&self.component_state);
        let lh = ctx.font.line_height();
        let content_height: u64 = {
            proof {
                assert(0 <= (lh as int) * (total_lines as int) <= 0x400000 * 0xffffffffffffffff)
                    by (nonlinear_arith)
                    requires 0 <= lh as int <= 0x400000 && 0 <= total_lines as int
                        <= 0xffffffffffffffff;
            }
            let p: u128 = (lh as u128) * (total_lines as u128);
            if p > u64::MAX as u128 {
                u64::MAX
            } else {
                p as u64
            }
        };
        let area_h = self.size.height;
        let th = thumb_height(content_height, area_h);
        let toff = thumb_offset(self.visible_scrolling_offset, content_height, area_h, th);
        let track_x: i64 = {
            let t: i128 = self.position.x as i128 + self.size.width as i128
                - self.scrollbar_width as i128;
            if t > i64::MAX as i128 {
                i64::MAX
            } else if t < i64::MIN as i128 {
                i64::MIN
            } else {
                t as i64
            }
        };
        let track_color = style.back_color.lighten(ColorFactor::double()).value;
        let thumb_color = style.back_color.value;
        fill_rect(
            &mut ctx.buffer,
            w,
            h,
            track_x,
            self.position.y,
            self.scrollbar_width,
            area_h,
            track_color,
        );
        fill_rect(
            &mut ctx.buffer,
            w,
            h,
            track_x,
            sat_add_i64(self.position.y, toff as i64),
            self.scrollbar_width,
            th,
            thumb_color,
        );
    }
}

/// The scrollbar thumb never degenerates: for content at least as tall as
/// the square of the track (far taller than the view), the thumb height is
/// exactly the 10-pixel floor; it never reaches 0 and never exceeds the
/// track height.
pub proof fn lemma_thumb_height_clamped(content: int, area: int)
    requires
        area >= 10,
        content >= area * area,
    ensures
        spec_thumb_height(content, area) == 10,
{
    let sq = area * area;
    assert(sq >= 100) by (nonlinear_arith)
        requires area >= 10 && sq == area * area;
    vstd::arithmetic::div_mod::lemma_div_is_ordered(sq, content, content);
    vstd::arithmetic::div_mod::lemma_div_by_self(content);
    vstd::arithmetic::div_mod::lemma_div_pos_is_pos(sq, content);
}

} // verus!
