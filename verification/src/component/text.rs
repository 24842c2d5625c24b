//! Text storage for editable components: a gap buffer with a cursor.
//!
//! The gap buffer keeps the text in one `Vec<char>` with an unused "gap" in
//! the middle; the characters before the gap are the text before the cursor,
//! the characters after the gap are the text after it. Insertion and cursor
//! movement at the gap are constant-time (amortized).

use vstd::prelude::*;
use vstd::string::StrSliceExecFns;

verus! {

/// A run of text positioned at integer pixel coordinates.
pub struct Text {
    pub content: String,
    pub x: i32,
    pub y: i32,
}

/// An editable character buffer with a cursor, stored as a gap buffer.
pub struct GapBuffer {
    buffer: Vec<char>,
    gap_start: usize,
    gap_end: usize,
}

/// Relies on std's `String::push`: appends the given character to the end of
/// the string.
#[verifier::external_body]
fn push_char(s: &mut String, c: char)
    ensures
        final(s)@ == old(s)@.push(c),
{
    s.push(c)
}

/// The characters of a string slice as a vector.
#[verifier::loop_isolation(false)]
pub fn str_chars(s: &str) -> (r: Vec<char>)
    ensures
        r@ == s@,
{
    let n = s.unicode_len();
    let mut r: Vec<char> = Vec::new();
    let mut i: usize = 0;
    while i < n
        invariant
            i <= n,
            n == s@.len(),
            r@ == s@.take(i as int),
        decreases n - i,
    {
        let c = s.get_char(i);
        r.push(c);
        proof {
            assert(r@ =~= s@.take(i + 1));
        }
        i = i + 1;
    }
    proof {
        assert(r@ =~= s@);
    }
    r
}

#[verifier::loop_isolation(false)]
impl GapBuffer {
    /// The gap lies within the backing storage.
    pub closed spec fn wf(&self) -> bool {
        self.gap_start <= self.gap_end <= self.buffer@.len()
    }

    /// The text held by the buffer: everything before the gap followed by
    /// everything after it.
    pub closed spec fn view(&self) -> Seq<char> {
        self.buffer@.take(self.gap_start as int) + self.buffer@.skip(self.gap_end as int)
    }

    /// The cursor position, as a character index into the text.
    pub closed spec fn spec_cursor(&self) -> int {
        self.gap_start as int
    }

    /// Constructor: an empty buffer whose initial gap holds `size` slots.
    pub fn with_capacity(size: usize) -> (r: Self)
        ensures
            r.wf(),
            r.view() == Seq::<char>::empty(),
            r.spec_cursor() == 0,
    {
        let mut buffer: Vec<char> = Vec::new();
        let mut i: usize = 0;
        while i < size
            invariant
                i <= size,
                buffer@.len() == i,
            decreases size - i,
        {
            buffer.push('\0');
            i = i + 1;
        }
        let r = GapBuffer { buffer, gap_start: 0, gap_end: size };
        proof {
            assert(r.view() =~= Seq::<char>::empty());
        }
        r
    }

    /// Insert a character at the cursor; the cursor moves past it.
    pub fn insert(&mut self, c: char)
        requires
            old(self).wf(),
            old(self).view().len() < usize::MAX,
        ensures
            final(self).wf(),
            final(self).view() == old(self).view().insert(old(self).spec_cursor(), c),
            final(self).spec_cursor() == old(self).spec_cursor() + 1,
    {
        if self.gap_start == self.gap_end {
            self.grow();
        }
        self.buffer.set(self.gap_start, c);
        self.gap_start = self.gap_start + 1;
        proof {
            assert(self.view() =~= old(self).view().insert(old(self).spec_cursor(), c));
        }
    }

    /// Move the cursor one character to the left; at the start of the text
    /// this is a no-op. The text itself is unchanged.
    pub fn move_left(&mut self)
        requires
            old(self).wf(),
        ensures
            final(self).wf(),
            final(self).view() == old(self).view(),
            final(self).spec_cursor() == if old(self).spec_cursor() > 0 {
                old(self).spec_cursor() - 1
            } else {
                0int
            },
    {
        if self.gap_start > 0 {
            self.gap_start = self.gap_start - 1;
            self.gap_end = self.gap_end - 1;
            let moved = self.buffer[self.gap_start];
            self.buffer.set(self.gap_end, moved);
            proof {
                assert(self.view() =~= old(self).view());
            }
        }
    }

    /// Move the cursor one character to the right; at the end of the text
    /// this is a no-op. The text itself is unchanged.
    pub fn move_right(&mut self)
        requires
            old(self).wf(),
        ensures
            final(self).wf(),
            final(self).view() == old(self).view(),
            final(self).spec_cursor() == if old(self).spec_cursor() < old(self).view().len() {
                old(self).spec_cursor() + 1
            } else {
                old(self).spec_cursor()
            },
    {
        if self.gap_end < self.buffer.len() {
            let moved = self.buffer[self.gap_end];
            self.buffer.set(self.gap_start, moved);
            self.gap_start = self.gap_start + 1;
            self.gap_end = self.gap_end + 1;
            proof {
                assert(self.view() =~= old(self).view());
            }
        }
    }

    /// Delete the character before the cursor; with the cursor at the start
    /// of the text this is a no-op.
    pub fn delete(&mut self)
        requires
            old(self).wf(),
        ensures
            final(self).wf(),
            final(self).view() == if old(self).spec_cursor() > 0 {
                old(self).view().remove(old(self).spec_cursor() - 1)
            } else {
                old(self).view()
            },
            final(self).spec_cursor() == if old(self).spec_cursor() > 0 {
                old(self).spec_cursor() - 1
            } else {
                0int
            },
    {
        if self.gap_start > 0 {
            self.gap_start = self.gap_start - 1;
            proof {
                assert(self.view() =~= old(self).view().remove(old(self).spec_cursor() - 1));
            }
        }
    }

    /// Widen a full gap so another character can be inserted. Doubles the
    /// backing storage (at least one new slot is always added).
    fn grow(&mut self)
        requires
            old(self).wf(),
            old(self).view().len() < usize::MAX,
        ensures
            final(self).wf(),
            final(self).view() == old(self).view(),
            final(self).spec_cursor() == old(self).spec_cursor(),
            final(self).gap_start < final(self).gap_end,
    {
        let len = self.buffer.len();
        let new_capacity = if len > usize::MAX / 2 {
            usize::MAX
        } else if len == 0 {
            1
        } else {
            len * 2
        };
        let mut new_buffer: Vec<char> = Vec::new();
        let mut i: usize = 0;
        while i < self.gap_start
            invariant
                i <= self.gap_start,
                self == old(self),
                new_buffer@ == self.buffer@.take(i as int),
            decreases self.gap_start - i,
        {
            let c = self.buffer[i];
            new_buffer.push(c);
            proof {
                assert(new_buffer@ =~= self.buffer@.take(i + 1));
            }
            i = i + 1;
        }
        let after_gap_len = len - self.gap_end;
        let new_gap_end = new_capacity - after_gap_len;
        let mut j: usize = self.gap_start;
        while j < new_gap_end
            invariant
                self == old(self),
                self.gap_start <= j <= new_gap_end,
                new_gap_end <= new_capacity,
                new_buffer@.len() == j,
                new_buffer@.take(self.gap_start as int) == self.buffer@.take(
                    self.gap_start as int,
                ),
            decreases new_gap_end - j,
        {
            new_buffer.push('\0');
            proof {
                assert(new_buffer@.take(self.gap_start as int) =~= self.buffer@.take(
                    self.gap_start as int,
                ));
            }
            j = j + 1;
        }
        let mut k: usize = self.gap_end;
        while k < len
            invariant
                self == old(self),
                len == self.buffer@.len(),
                self.gap_end <= k <= len,
                new_gap_end <= new_capacity,
                new_buffer@.len() == new_gap_end + (k - self.gap_end),
                new_buffer@.take(self.gap_start as int) == self.buffer@.take(
                    self.gap_start as int,
                ),
                new_buffer@.skip(new_gap_end as int) == self.buffer@.subrange(
                    self.gap_end as int,
                    k as int,
                ),
            decreases len - k,
        {
            let c = self.buffer[k];
            new_buffer.push(c);
            proof {
                assert(new_buffer@.take(self.gap_start as int) =~= self.buffer@.take(
                    self.gap_start as int,
                ));
                assert(new_buffer@.skip(new_gap_end as int) =~= self.buffer@.subrange(
                    self.gap_end as int,
                    k + 1,
                ));
            }
            k = k + 1;
        }
        self.buffer = new_buffer;
        self.gap_end = new_gap_end;
        proof {
            assert(self.buffer@.skip(self.gap_end as int) =~= old(self).buffer@.skip(
                old(self).gap_end as int,
            ));
            assert(self.view() =~= old(self).view());
        }
    }

    /// The text as a `String`.
    pub fn contents(&self) -> (r: String)
        requires
            self.wf(),
        ensures
            r@ == self.view(),
    {
        let mut r = String::new();
        let mut i: usize = 0;
        while i < self.gap_start
            invariant
                self.wf(),
                i <= self.gap_start,
                r@ == self.buffer@.take(i as int),
            decreases self.gap_start - i,
        {
            push_char(&mut r, self.buffer[i]);
            proof {
                assert(r@ =~= self.buffer@.take(i + 1));
            }
            i = i + 1;
        }
        let mut k: usize = self.gap_end;
        while k < self.buffer.len()
            invariant
                self.wf(),
                self.gap_end <= k <= self.buffer@.len(),
                r@ == self.buffer@.take(self.gap_start as int) + self.buffer@.subrange(
                    self.gap_end as int,
                    k as int,
                ),
            decreases self.buffer@.len() - k,
        {
            push_char(&mut r, self.buffer[k]);
            proof {
                assert(r@ =~= self.buffer@.take(self.gap_start as int) + self.buffer@.subrange(
                    self.gap_end as int,
                    k + 1,
                ));
            }
            k = k + 1;
        }
        proof {
            assert(r@ =~= self.view());
        }
        r
    }

    /// The current cursor position.
    pub fn cursor(&self) -> (r: usize)
        ensures
            r == self.spec_cursor(),
    {
        self.gap_start
    }

    /// In a well-formed buffer the cursor always lies within the text, so
    /// moving left and then right (or right and then left) from any interior
    /// position returns to it.
    pub proof fn lemma_cursor_within_text(&self)
        requires
            self.wf(),
        ensures
            0 <= self.spec_cursor() <= self.view().len(),
    {
    }
}

} // verus!
