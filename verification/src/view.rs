//! The per-frame drawing context.

use vstd::prelude::*;
use crate::component::style::Theme;
use crate::font::FontMetrics;
use crate::geometry::Size;

verus! {

/// A drawing buffer provided as a context, with associated fields.
///
/// The buffer holds one packed `ARGB` word per screen pixel, row-major: the
/// pixel at `(x, y)` lives at linear index `y * screen_size.width + x`. The
/// context lives for a single draw pass: every component draws into it, and
/// the host presents the buffer afterwards.
pub struct BufferContext {
    pub buffer: Vec<u32>,
    pub screen_size: Size,
    pub font: FontMetrics,
    pub font_size: u32,
    pub theme: Theme,
}

impl BufferContext {
    /// The buffer holds exactly one word per screen pixel and the font data
    /// is well-formed.
    pub open spec fn wf(&self) -> bool {
        &&& self.buffer@.len() == self.screen_size.width * self.screen_size.height
        &&& self.font.wf()
    }

    /// Everything but the pixels is the same in both contexts: drawing
    /// never changes the screen geometry, the font, or the theme.
    pub open spec fn same_frame(&self, other: &BufferContext) -> bool {
        &&& self.screen_size == other.screen_size
        &&& self.font == other.font
        &&& self.font_size == other.font_size
        &&& self.theme == other.theme
        &&& self.buffer@.len() == other.buffer@.len()
    }

    /// Constructor: a context whose buffer holds one word per pixel of a
    /// `width x height` screen, filled with `fill`.
    pub fn new_filled(width: u32, height: u32, font: FontMetrics, font_size: u32, theme: Theme)
        -> (r: BufferContext)
        requires
            font.wf(),
            width * height <= usize::MAX,
        ensures
            r.wf(),
            r.screen_size == (Size { width, height }),
            r.font == font,
            r.font_size == font_size,
            r.theme == theme,
            r.buffer@.len() == width * height,
            forall|i: int| 0 <= i < r.buffer@.len() ==> r.buffer@[i] == 0u32,
    {
        let total = (width as usize) * (height as usize);
        let mut buffer: Vec<u32> = Vec::new();
        let mut i: usize = 0;
        #[verifier::loop_isolation(false)]
        while i < total
            invariant
                i <= total,
                buffer@.len() == i,
                forall|j: int| 0 <= j < i ==> buffer@[j] == 0u32,
            decreases total - i,
        {
            buffer.push(0);
            i = i + 1;
        }
        BufferContext { buffer, screen_size: Size { width, height }, font, font_size, theme }
    }
}

} // verus!
