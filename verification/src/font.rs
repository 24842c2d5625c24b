//! The font model: integer metrics and pre-rasterized glyph coverage.
//!
//! The toolkit treats glyph shaping and rasterization as an opaque service.
//! The embedding layer queries its font library once per font size and hands
//! the results over as plain data: per-character advance widths, vertical
//! metrics, and per-character coverage rasters (one opacity sample in
//! `[0, 255]` per pixel). Everything the layout and drawing code reads is an
//! integer in this module.

use vstd::prelude::*;

verus! {

/// The largest value any single font metric (advance, ascent, descent,
/// line gap, raster extent) may take: one million pixels.
pub const METRIC_MAX: u32 = 0x100000;

/// One rasterized glyph: a bounding box placed relative to the glyph origin
/// (pen x, baseline y) and one coverage sample per pixel, row-major.
/// Coverage 0 is fully transparent, 255 fully opaque.
#[derive(Clone)]
pub struct GlyphRaster {
    pub min_x: i32,
    pub min_y: i32,
    pub width: u32,
    pub height: u32,
    pub coverage: Vec<u8>,
}

impl GlyphRaster {
    /// The raster holds exactly one sample per pixel and its extents are
    /// within the metric bound.
    pub open spec fn wf(&self) -> bool {
        &&& self.coverage@.len() == self.width * self.height
        &&& self.width <= METRIC_MAX
        &&& self.height <= METRIC_MAX
        &&& -(METRIC_MAX as int) <= self.min_x <= METRIC_MAX
        &&& -(METRIC_MAX as int) <= self.min_y <= METRIC_MAX
    }

    /// The coverage sample for the pixel at `(gx, gy)` within the raster.
    pub open spec fn spec_coverage_at(&self, gx: int, gy: int) -> int {
        self.coverage@[gy * self.width + gx] as int
    }

    /// An empty raster: a glyph with no visible pixels.
    pub fn empty() -> (r: GlyphRaster)
        ensures
            r.wf(),
            r.width == 0,
            r.height == 0,
    {
        GlyphRaster { min_x: 0, min_y: 0, width: 0, height: 0, coverage: Vec::new() }
    }
}

/// Font metrics for one font at one pixel size, as plain integers. The
/// advance and raster tables are indexed by Unicode code point; characters
/// beyond the tables fall back to `default_advance` and an invisible glyph.
#[derive(Clone)]
pub struct FontMetrics {
    /// Height of the tallest glyph above the baseline.
    pub ascent: u32,
    /// Depth of the lowest glyph below the baseline (a magnitude).
    pub descent: u32,
    /// Extra vertical space between two lines.
    pub line_gap: u32,
    /// Advance width used for characters beyond the table.
    pub default_advance: u32,
    /// Advance width per code point.
    pub advances: Vec<u32>,
    /// Coverage raster per code point.
    pub rasters: Vec<GlyphRaster>,
}

impl FontMetrics {
    /// All metrics are within the metric bound and every raster is
    /// well-formed.
    pub open spec fn wf(&self) -> bool {
        &&& self.ascent <= METRIC_MAX
        &&& self.descent <= METRIC_MAX
        &&& self.line_gap <= METRIC_MAX
        &&& self.default_advance <= METRIC_MAX
        &&& forall|i: int|
            0 <= i < self.advances@.len() ==> #[trigger] self.advances@[i] <= METRIC_MAX
        &&& forall|i: int| 0 <= i < self.rasters@.len() ==> (#[trigger] self.rasters@[i]).wf()
    }

    /// The advance width of one character.
    pub open spec fn spec_advance(&self, c: char) -> int {
        if (c as int) < self.advances@.len() {
            self.advances@[c as int] as int
        } else {
            self.default_advance as int
        }
    }

    /// The height of one line of text: ascent plus descent plus line gap.
    pub open spec fn spec_line_height(&self) -> int {
        self.ascent + self.descent + self.line_gap
    }

    /// The advance width of one character.
    pub fn advance(&self, c: char) -> (r: u32)
        requires
            self.wf(),
        ensures
            r == self.spec_advance(c),
            r <= METRIC_MAX,
    {
        let idx = c as usize;
        if idx < self.advances.len() {
            self.advances[idx]
        } else {
            self.default_advance
        }
    }

    /// The coverage raster of one character, if the font has one for it.
    pub fn raster_for(&self, c: char) -> (r: Option<&GlyphRaster>)
        requires
            self.wf(),
        ensures
            match r {
                Some(g) => (c as int) < self.rasters@.len() && *g == self.rasters@[c as int]
                    && g.wf(),
                None => (c as int) >= self.rasters@.len(),
            },
    {
        let idx = c as usize;
        if idx < self.rasters.len() {
            Some(&self.rasters[idx])
        } else {
            None
        }
    }

    /// The height of one line of text.
    pub fn line_height(&self) -> (r: u32)
        requires
            self.wf(),
        ensures
            r == self.spec_line_height(),
    {
        self.ascent + self.descent + self.line_gap
    }

    /// A font with no glyph data: every character advances by
    /// `default_advance` and draws nothing.
    pub fn fixed(ascent: u32, descent: u32, line_gap: u32, default_advance: u32) -> (r:
        FontMetrics)
        requires
            ascent <= METRIC_MAX,
            descent <= METRIC_MAX,
            line_gap <= METRIC_MAX,
            default_advance <= METRIC_MAX,
        ensures
            r.wf(),
            r.ascent == ascent,
            r.descent == descent,
            r.line_gap == line_gap,
            r.default_advance == default_advance,
            r.advances@.len() == 0,
            r.rasters@.len() == 0,
    {
        FontMetrics {
            ascent,
            descent,
            line_gap,
            default_advance,
            advances: Vec::new(),
            rasters: Vec::new(),
        }
    }
}

} // verus!
