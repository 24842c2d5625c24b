//! Software drawing primitives: filled rectangles, border rings, and
//! anti-aliased glyph blits.
//!
//! Every primitive works on a row-major pixel buffer of `w * h` packed color
//! words and takes component coordinates that may lie partly or wholly
//! outside the screen; writes are clipped to the screen bounds and every
//! pixel outside the described region is left untouched. No primitive ever
//! writes outside the buffer.

use vstd::prelude::*;
use crate::component::style::{chan_b, chan_g, chan_r};
use crate::font::GlyphRaster;

verus! {

broadcast use vstd::seq::axiom_seq_index_decreases;

/// The row of the pixel at linear index `i` in a buffer `w` pixels wide.
pub open spec fn pix_row(i: int, w: int) -> int {
    i / w
}

/// The column of the pixel at linear index `i` in a buffer `w` pixels wide.
pub open spec fn pix_col(i: int, w: int) -> int {
    i % w
}

/// The linear index of the pixel at `(yy, xx)` maps back to that row and
/// column.
pub proof fn lemma_pixel_index(yy: int, xx: int, w: int)
    requires
        w > 0,
        0 <= xx < w,
        0 <= yy,
    ensures
        pix_row(yy * w + xx, w) == yy,
        pix_col(yy * w + xx, w) == xx,
{
    vstd::arithmetic::div_mod::lemma_fundamental_div_mod_converse(yy * w + xx, w, yy, xx);
}

/// Every linear index below `w * h` lies at a row below `h` and a column
/// below `w`.
pub proof fn lemma_pixel_bounds(i: int, w: int, h: int)
    requires
        0 <= i < w * h,
        h >= 0,
    ensures
        w > 0,
        0 <= pix_col(i, w) < w,
        0 <= pix_row(i, w) < h,
{
    assert(w > 0) by (nonlinear_arith)
        requires 0 <= i < w * h && h >= 0;
    vstd::arithmetic::div_mod::lemma_remainder_lower(i, w);
    vstd::arithmetic::div_mod::lemma_remainder_upper(i, w);
    vstd::arithmetic::div_mod::lemma_div_pos_is_pos(i, w);
    vstd::arithmetic::div_mod::lemma_multiply_divide_lt(i, w, h);
}

/// The pixel at `(yy, xx)` is inside a `w * h` buffer.
pub proof fn lemma_pixel_in_buffer(yy: int, xx: int, w: int, h: int)
    requires
        0 <= xx < w,
        0 <= yy < h,
    ensures
        0 <= yy * w + xx < w * h,
{
    assert(yy * w + xx < w * h && yy * w >= 0) by (nonlinear_arith)
        requires 0 <= xx < w && 0 <= yy < h;
}

/// Clamp an (arbitrarily large) coordinate into `[0, hi]`.
fn clamp_coord(v: i128, hi: u32) -> (r: u32)
    ensures
        r as int == if v < 0 {
            0int
        } else if v > hi as int {
            hi as int
        } else {
            v as int
        },
{
    if v < 0 {
        0
    } else if v > hi as i128 {
        hi
    } else {
        v as u32
    }
}

/// Whether the pixel at linear index `i` (in a buffer `w` pixels wide) lies
/// inside the rectangle of origin `(x, y)` and extent `width x height`.
pub open spec fn rect_covers(x: int, y: int, width: int, height: int, w: int, i: int) -> bool {
    &&& x <= pix_col(i, w) < x + width
    &&& y <= pix_row(i, w) < y + height
}


/// The pixels after one rectangle fill: every pixel of the rectangle
/// (clipped to the screen) holds `color`, every other pixel keeps its old
/// value.
pub open spec fn fill_post(
    pre: Seq<u32>,
    x: int,
    y: int,
    width: int,
    height: int,
    w: int,
    color: u32,
) -> Seq<u32> {
    Seq::new(
        pre.len(),
        |i: int|
            if rect_covers(x, y, width, height, w, i) {
                color
            } else {
                pre[i]
            },
    )
}

/// Write `color` to every pixel of the rectangle with origin `(x, y)` and
/// extent `width x height`, clipped to the `w x h` screen; every other pixel
/// is untouched.
#[verifier::loop_isolation(false)]
pub fn fill_rect(
    buffer: &mut Vec<u32>,
    w: u32,
    h: u32,
    x: i64,
    y: i64,
    width: u32,
    height: u32,
    color: u32,
)
    requires
        old(buffer)@.len() == w * h,
    ensures
        final(buffer)@ == fill_post(
            old(buffer)@,
            x as int,
            y as int,
            width as int,
            height as int,
            w as int,
            color,
        ),
{
    let buf_len = buffer.len();
    let ghost len = buf_len as int;
    proof {
        assert forall|i: int| 0 <= i < len implies 0 <= #[trigger] pix_col(i, w as int) < w && 0
            <= #[trigger] pix_row(i, w as int) < h by {
            lemma_pixel_bounds(i, w as int, h as int);
        }
    }
    let x0 = clamp_coord(x as i128, w);
    let x1 = clamp_coord(x as i128 + width as i128, w);
    let y0 = clamp_coord(y as i128, h);
    let y1 = clamp_coord(y as i128 + height as i128, h);
    let mut yy = y0;
    while yy < y1
        invariant
            y0 <= yy <= y1,
            buffer@.len() == len,
            forall|i: int|
                0 <= i < len ==> buffer@[i] == (if rect_covers(
                    x as int,
                    y as int,
                    width as int,
                    height as int,
                    w as int,
                    i,
                ) && pix_row(i, w as int) < yy {
                    color
                } else {
                    old(buffer)@[i]
                }),
        decreases y1 - yy,
    {
        let mut xx = x0;
        while xx < x1
            invariant
                y0 <= yy < y1,
                x0 <= xx <= x1,
                buffer@.len() == len,
                forall|i: int|
                    0 <= i < len ==> buffer@[i] == (if rect_covers(
                        x as int,
                        y as int,
                        width as int,
                        height as int,
                        w as int,
                        i,
                    ) && (pix_row(i, w as int) < yy || (pix_row(i, w as int) == yy && pix_col(
                        i,
                        w as int,
                    ) < xx)) {
                        color
                    } else {
                        old(buffer)@[i]
                    }),
            decreases x1 - xx,
        {
            proof {
                lemma_pixel_in_buffer(yy as int, xx as int, w as int, h as int);
                lemma_pixel_index(yy as int, xx as int, w as int);
            }
            let idx = (yy as usize) * (w as usize) + (xx as usize);
            buffer.set(idx, color);
            proof {
                assert forall|i: int|
                    0 <= i < len && pix_row(i, w as int) == yy && pix_col(i, w as int)
                        == xx implies i == yy * (w as int) + xx by {
                    vstd::arithmetic::div_mod::lemma_fundamental_div_mod(i, w as int);
                    vstd::arithmetic::mul::lemma_mul_is_commutative(w as int, yy as int);
                }
            }
            xx = xx + 1;
        }
        yy = yy + 1;
    }
    proof {
        assert forall|i: int| 0 <= i < len implies buffer@[i] == (if rect_covers(
            x as int,
            y as int,
            width as int,
            height as int,
            w as int,
            i,
        ) {
            color
        } else {
            old(buffer)@[i]
        }) by {
            lemma_pixel_bounds(i, w as int, h as int);
        }
    }
}

/// Whether the pixel at linear index `i` lies on the border ring of width
/// `bw` just inside the rectangle of origin `(x, y)` and extent
/// `width x height`.
pub open spec fn ring_covers(
    x: int,
    y: int,
    width: int,
    height: int,
    bw: int,
    w: int,
    i: int,
) -> bool {
    &&& rect_covers(x, y, width, height, w, i)
    &&& {
        ||| pix_col(i, w) < x + bw
        ||| pix_col(i, w) >= x + width - bw
        ||| pix_row(i, w) < y + bw
        ||| pix_row(i, w) >= y + height - bw
    }
}


/// The pixels after one border-ring draw: every pixel of the ring (clipped
/// to the screen) holds `color`, every other pixel keeps its old value.
pub open spec fn ring_post(
    pre: Seq<u32>,
    x: int,
    y: int,
    width: int,
    height: int,
    bw: int,
    w: int,
    color: u32,
) -> Seq<u32> {
    Seq::new(
        pre.len(),
        |i: int|
            if ring_covers(x, y, width, height, bw, w, i) {
                color
            } else {
                pre[i]
            },
    )
}

/// Write `color` to the border ring of width `bw` just inside the rectangle
/// with origin `(x, y)` and extent `width x height`, clipped to the `w x h`
/// screen; every other pixel is untouched.
#[verifier::loop_isolation(false)]
pub fn draw_border_rect(
    buffer: &mut Vec<u32>,
    w: u32,
    h: u32,
    x: i64,
    y: i64,
    width: u32,
    height: u32,
    bw: usize,
    color: u32,
)
    requires
        old(buffer)@.len() == w * h,
    ensures
        final(buffer)@ == ring_post(
            old(buffer)@,
            x as int,
            y as int,
            width as int,
            height as int,
            bw as int,
            w as int,
            color,
        ),
{
    let buf_len = buffer.len();
    let ghost len = buf_len as int;
    proof {
        assert forall|i: int| 0 <= i < len implies 0 <= #[trigger] pix_col(i, w as int) < w && 0
            <= #[trigger] pix_row(i, w as int) < h by {
            lemma_pixel_bounds(i, w as int, h as int);
        }
    }
    let x0 = clamp_coord(x as i128, w);
    let x1 = clamp_coord(x as i128 + width as i128, w);
    let y0 = clamp_coord(y as i128, h);
    let y1 = clamp_coord(y as i128 + height as i128, h);
    let mut yy = y0;
    while yy < y1
        invariant
            y0 <= yy <= y1,
            buffer@.len() == len,
            forall|i: int|
                0 <= i < len ==> buffer@[i] == (if ring_covers(
                    x as int,
                    y as int,
                    width as int,
                    height as int,
                    bw as int,
                    w as int,
                    i,
                ) && pix_row(i, w as int) < yy {
                    color
                } else {
                    old(buffer)@[i]
                }),
        decreases y1 - yy,
    {
        let mut xx = x0;
        while xx < x1
            invariant
                y0 <= yy < y1,
                x0 <= xx <= x1,
                buffer@.len() == len,
                forall|i: int|
                    0 <= i < len ==> buffer@[i] == (if ring_covers(
                        x as int,
                        y as int,
                        width as int,
                        height as int,
                        bw as int,
                        w as int,
                        i,
                    ) && (pix_row(i, w as int) < yy || (pix_row(i, w as int) == yy && pix_col(
                        i,
                        w as int,
                    ) < xx)) {
                        color
                    } else {
                        old(buffer)@[i]
                    }),
            decreases x1 - xx,
        {
            proof {
                lemma_pixel_in_buffer(yy as int, xx as int, w as int, h as int);
                lemma_pixel_index(yy as int, xx as int, w as int);
            }
            let is_top = (yy as i128) < y as i128 + bw as i128;
            let is_bottom = (yy as i128) >= y as i128 + height as i128 - bw as i128;
            let is_left = (xx as i128) < x as i128 + bw as i128;
            let is_right = (xx as i128) >= x as i128 + width as i128 - bw as i128;
            if is_top || is_bottom || is_left || is_right {
                let idx = (yy as usize) * (w as usize) + (xx as usize);
                buffer.set(idx, color);
            }
            proof {
                assert forall|i: int|
                    0 <= i < len && pix_row(i, w as int) == yy && pix_col(i, w as int)
                        == xx implies i == yy * (w as int) + xx by {
                    vstd::arithmetic::div_mod::lemma_fundamental_div_mod(i, w as int);
                    vstd::arithmetic::mul::lemma_mul_is_commutative(w as int, yy as int);
                }
            }
            xx = xx + 1;
        }
        yy = yy + 1;
    }
    proof {
        assert forall|i: int| 0 <= i < len implies buffer@[i] == (if ring_covers(
            x as int,
            y as int,
            width as int,
            height as int,
            bw as int,
            w as int,
            i,
        ) {
            color
        } else {
            old(buffer)@[i]
        }) by {
            lemma_pixel_bounds(i, w as int, h as int);
        }
        assert(buffer@ =~= ring_post(
            old(buffer)@,
            x as int,
            y as int,
            width as int,
            height as int,
            bw as int,
            w as int,
            color,
        ));
    }
}

/// One color channel blended over a background channel: linear interpolation
/// `b * (1 - a/255) + f * (a/255)`, rounded to the nearest integer.
pub open spec fn mix_chan(b: int, f: int, a: int) -> int {
    (2 * (b * (255 - a) + f * a) + 255) / 510
}

/// The foreground color blended over a background pixel with coverage `a` in
/// `[0, 255]`: each RGB channel interpolated independently, reassembled into
/// a packed 24-bit RGB word (the alpha channel of the result is zero).
pub open spec fn spec_blend(bg: u32, fg: u32, a: int) -> int {
    mix_chan(chan_r(bg), chan_r(fg), a) * 0x10000 + mix_chan(chan_g(bg), chan_g(fg), a) * 0x100
        + mix_chan(chan_b(bg), chan_b(fg), a)
}

/// Blend the foreground color `fg` over the background pixel `bg` with
/// coverage `alpha` (0 transparent, 255 opaque), channel by channel.
pub fn blend(bg: u32, fg: u32, alpha: u8) -> (r: u32)
    ensures
        r == spec_blend(bg, fg, alpha as int),
{
    let a = alpha as u32;
    let inv = 255 - a;
    let br = (bg / 0x10000) % 0x100;
    let bgr = (bg / 0x100) % 0x100;
    let bb = bg % 0x100;
    let fr = (fg / 0x10000) % 0x100;
    let fgr = (fg / 0x100) % 0x100;
    let fb = fg % 0x100;
    proof {
        assert(br * inv + fr * a <= 255 * 255 && bgr * inv + fgr * a <= 255 * 255 && bb * inv + fb
            * a <= 255 * 255) by (nonlinear_arith)
            requires br <= 255 && bgr <= 255 && bb <= 255 && fr <= 255 && fgr <= 255 && fb <= 255
                && a <= 255 && inv == 255 - a;
    }
    let r_ = (2 * (br * inv + fr * a) + 255) / 510;
    let g_ = (2 * (bgr * inv + fgr * a) + 255) / 510;
    let b_ = (2 * (bb * inv + fb * a) + 255) / 510;
    r_ * 0x10000 + g_ * 0x100 + b_
}


/// The pixels after one glyph blit: every pixel covered by the raster
/// placed at origin `(x, y)` (clipped to the screen) is blended between its
/// old value and `color` with the raster's coverage; every other pixel
/// keeps its old value.
pub open spec fn blit_post(
    pre: Seq<u32>,
    x: int,
    y: int,
    raster: GlyphRaster,
    w: int,
    color: u32,
) -> Seq<u32> {
    Seq::new(
        pre.len(),
        |i: int|
            if rect_covers(
                x + raster.min_x,
                y + raster.min_y,
                raster.width as int,
                raster.height as int,
                w,
                i,
            ) {
                spec_blend(
                    pre[i],
                    color,
                    raster.spec_coverage_at(
                        pix_col(i, w) - (x + raster.min_x),
                        pix_row(i, w) - (y + raster.min_y),
                    ),
                ) as u32
            } else {
                pre[i]
            },
    )
}

/// Write the anti-aliased glyph `raster` with its origin (pen position and
/// baseline) at `(x, y)`: each covered pixel inside the `w x h` screen is
/// blended between its old value and `color`, weighted by the raster's
/// coverage; every other pixel is untouched.
#[verifier::loop_isolation(false)]
pub fn blit_glyph(
    buffer: &mut Vec<u32>,
    w: u32,
    h: u32,
    x: i64,
    y: i64,
    raster: &GlyphRaster,
    color: u32,
)
    requires
        old(buffer)@.len() == w * h,
        raster.wf(),
    ensures
        final(buffer)@ == blit_post(old(buffer)@, x as int, y as int, *raster, w as int, color),
{
    let buf_len = buffer.len();
    let ghost len = buf_len as int;
    let gw = raster.width;
    let gh = raster.height;
    let cov_len = raster.coverage.len();
    proof {
        assert forall|i: int| 0 <= i < len implies 0 <= #[trigger] pix_col(i, w as int) < w && 0
            <= #[trigger] pix_row(i, w as int) < h by {
            lemma_pixel_bounds(i, w as int, h as int);
        }
    }
    let gx0 = x as i128 + raster.min_x as i128;
    let gy0 = y as i128 + raster.min_y as i128;
    let ghost gx0s = x + raster.min_x as int;
    let ghost gy0s = y + raster.min_y as int;
    let mut gy: u32 = 0;
    while gy < gh
        invariant
            gy <= gh,
            buffer@.len() == len,
            forall|i: int|
                0 <= i < len ==> buffer@[i] as int == (if rect_covers(
                    gx0s,
                    gy0s,
                    gw as int,
                    gh as int,
                    w as int,
                    i,
                ) && pix_row(i, w as int) - gy0s < gy {
                    spec_blend(
                        old(buffer)@[i],
                        color,
                        raster.spec_coverage_at(
                            pix_col(i, w as int) - gx0s,
                            pix_row(i, w as int) - gy0s,
                        ),
                    )
                } else {
                    old(buffer)@[i] as int
                }),
        decreases gh - gy,
    {
        let mut gx: u32 = 0;
        while gx < gw
            invariant
                gy < gh,
                gx <= gw,
                buffer@.len() == len,
                forall|i: int|
                    0 <= i < len ==> buffer@[i] as int == (if rect_covers(
                        gx0s,
                        gy0s,
                        gw as int,
                        gh as int,
                        w as int,
                        i,
                    ) && (pix_row(i, w as int) - gy0s < gy || (pix_row(i, w as int) - gy0s == gy
                        && pix_col(i, w as int) - gx0s < gx)) {
                        spec_blend(
                            old(buffer)@[i],
                            color,
                            raster.spec_coverage_at(
                                pix_col(i, w as int) - gx0s,
                                pix_row(i, w as int) - gy0s,
                            ),
                        )
                    } else {
                        old(buffer)@[i] as int
                    }),
            decreases gw - gx,
        {
            let px = gx0 + gx as i128;
            let py = gy0 + gy as i128;
            if px >= 0 && px < w as i128 && py >= 0 && py < h as i128 {
                let xx = px as u32;
                let yy = py as u32;
                proof {
                    lemma_pixel_in_buffer(yy as int, xx as int, w as int, h as int);
                    lemma_pixel_index(yy as int, xx as int, w as int);
                    lemma_pixel_in_buffer(gy as int, gx as int, gw as int, gh as int);
                }
                let idx = (yy as usize) * (w as usize) + (xx as usize);
                let cov_idx = (gy as usize) * (gw as usize) + (gx as usize);
                let cov = raster.coverage[cov_idx];
                let old_pixel = buffer[idx];
                let new_pixel = blend(old_pixel, color, cov);
                buffer.set(idx, new_pixel);
                proof {
                    lemma_pixel_index(gy as int, gx as int, gw as int);
                    assert(raster.spec_coverage_at(gx as int, gy as int) == cov as int);
                    assert forall|i: int|
                        0 <= i < len && pix_row(i, w as int) == yy && pix_col(i, w as int)
                            == xx implies i == yy * (w as int) + xx by {
                        vstd::arithmetic::div_mod::lemma_fundamental_div_mod(i, w as int);
                        vstd::arithmetic::mul::lemma_mul_is_commutative(w as int, yy as int);
                    }
                }
            }
            gx = gx + 1;
        }
        gy = gy + 1;
    }
    proof {
        assert forall|i: int| 0 <= i < len implies buffer@[i] as int == (if rect_covers(
            gx0s,
            gy0s,
            gw as int,
            gh as int,
            w as int,
            i,
        ) {
            spec_blend(
                old(buffer)@[i],
                color,
                raster.spec_coverage_at(pix_col(i, w as int) - gx0s, pix_row(i, w as int) - gy0s),
            )
        } else {
            old(buffer)@[i] as int
        }) by {
            lemma_pixel_bounds(i, w as int, h as int);
        }
        assert(buffer@ =~= blit_post(
            old(buffer)@,
            x as int,
            y as int,
            *raster,
            w as int,
            color,
        ));
    }
}

} // verus!
