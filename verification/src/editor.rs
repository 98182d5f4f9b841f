//! The line editor: an editable buffer of characters plus a cursor. Every
//! operation keeps the cursor inside `[0, buffer length]`, clamping at the
//! boundaries instead of erring.

use vstd::prelude::*;

use crate::text::chars_to_string;
use crate::text::is_space;
use crate::text::is_space_char;

verus! {

/// The in-progress input line and the cursor position within it.
pub struct LineBuffer {
    pub chars: Vec<char>,
    pub cursor: usize,
}

/// Where the word touching position `pos` begins: scanning backward while the
/// preceding character is non-whitespace.
pub open spec fn word_start(s: Seq<char>, pos: int) -> int
    decreases pos,
{
    if pos <= 0 {
        0
    } else if pos > s.len() {
        s.len() as int
    } else if !is_space_char(s[pos - 1]) {
        word_start(s, pos - 1)
    } else {
        pos
    }
}

/// Where the word touching position `pos` ends: scanning forward while the
/// current character is non-whitespace.
pub open spec fn word_end(s: Seq<char>, pos: int) -> int
    decreases s.len() - pos,
{
    if pos < 0 {
        0
    } else if pos >= s.len() {
        s.len() as int
    } else if !is_space_char(s[pos]) {
        word_end(s, pos + 1)
    } else {
        pos
    }
}

/// The scan position for word extraction: the cursor clamped to the last
/// character, so an end-of-buffer cursor still resolves to the trailing word.
pub open spec fn word_scan_pos(len: int, cursor: int) -> int {
    if cursor < len {
        cursor
    } else {
        len - 1
    }
}

impl LineBuffer {
    /// The cursor never leaves the buffer: `0 <= cursor <= length`.
    pub open spec fn wf(self) -> bool {
        self.cursor <= self.chars@.len()
    }

    /// An empty line with the cursor at the start.
    pub fn new() -> (r: LineBuffer)
        ensures
            r.chars@ == Seq::<char>::empty(),
            r.cursor == 0,
            r.wf(),
    {
        LineBuffer { chars: Vec::new(), cursor: 0 }
    }

    /// Inserts a character at the cursor; the cursor advances past it.
    pub fn insert(&mut self, c: char)
        requires
            old(self).wf(),
            old(self).chars@.len() < usize::MAX,
        ensures
            final(self).chars@ == old(self).chars@.insert(old(self).cursor as int, c),
            final(self).cursor == old(self).cursor + 1,
            final(self).wf(),
    {
        self.chars.insert(self.cursor, c);
        self.cursor = self.cursor + 1;
    }

    /// Removes the character before the cursor, if any; a no-op at the start.
    pub fn backspace(&mut self)
        requires
            old(self).wf(),
        ensures
            old(self).cursor > 0 ==> final(self).chars@ == old(self).chars@.remove(
                old(self).cursor - 1,
            ) && final(self).cursor == old(self).cursor - 1,
            old(self).cursor == 0 ==> final(self).chars@ == old(self).chars@ && final(self).cursor
                == 0,
            final(self).wf(),
    {
        if self.cursor > 0 {
            self.chars.remove(self.cursor - 1);
            self.cursor = self.cursor - 1;
        }
    }

    /// Removes the character at the cursor, if any; a no-op at the end.
    pub fn delete(&mut self)
        requires
            old(self).wf(),
        ensures
            old(self).cursor < old(self).chars@.len() ==> final(self).chars@
                == old(self).chars@.remove(old(self).cursor as int),
            old(self).cursor >= old(self).chars@.len() ==> final(self).chars@ == old(self).chars@,
            final(self).cursor == old(self).cursor,
            final(self).wf(),
    {
        if self.cursor < self.chars.len() {
            self.chars.remove(self.cursor);
        }
    }

    /// Moves the cursor one position left, stopping at the start.
    pub fn move_left(&mut self)
        requires
            old(self).wf(),
        ensures
            final(self).chars@ == old(self).chars@,
            final(self).cursor == if old(self).cursor > 0 {
                old(self).cursor - 1
            } else {
                0int
            },
            final(self).wf(),
    {
        if self.cursor > 0 {
            self.cursor = self.cursor - 1;
        }
    }

    /// Moves the cursor one position right, stopping at the end.
    pub fn move_right(&mut self)
        requires
            old(self).wf(),
        ensures
            final(self).chars@ == old(self).chars@,
            final(self).cursor == if old(self).cursor < old(self).chars@.len() {
                old(self).cursor + 1
            } else {
                old(self).chars@.len() as int
            },
            final(self).wf(),
    {
        if self.cursor < self.chars.len() {
            self.cursor = self.cursor + 1;
        }
    }

    /// Moves the cursor to the start of the line.
    pub fn move_home(&mut self)
        requires
            old(self).wf(),
        ensures
            final(self).chars@ == old(self).chars@,
            final(self).cursor == 0,
            final(self).wf(),
    {
        self.cursor = 0;
    }

    /// Moves the cursor to the end of the line.
    pub fn move_end(&mut self)
        requires
            old(self).wf(),
        ensures
            final(self).chars@ == old(self).chars@,
            final(self).cursor == old(self).chars@.len(),
            final(self).wf(),
    {
        self.cursor = self.chars.len();
    }

    /// Empties the buffer and returns the cursor to the start.
    pub fn clear(&mut self)
        ensures
            final(self).chars@ == Seq::<char>::empty(),
            final(self).cursor == 0,
            final(self).wf(),
    {
        self.chars.clear();
        self.cursor = 0;
    }

    /// The maximal run of non-whitespace characters the cursor touches:
    /// its start, its end, and its text. `None` when the buffer is empty or
    /// the cursor sits on whitespace with whitespace just before it.
    pub fn word_at_cursor(&self) -> (r: Option<(usize, usize, String)>)
        requires
            self.wf(),
        ensures
            ({
                let s = self.chars@;
                let p = word_scan_pos(s.len() as int, self.cursor as int);
                let ws = word_start(s, p);
                let we = word_end(s, p);
                if s.len() == 0 || ws == we {
                    r is None
                } else {
                    r is Some && r->Some_0.0 == ws && r->Some_0.1 == we && r->Some_0.2@
                        == s.subrange(ws, we)
                }
            }),
    {
        let len = self.chars.len();
        if len == 0 {
            return None;
        }
        let p: usize = if self.cursor < len {
            self.cursor
        } else {
            len - 1
        };
        let ghost pp = word_scan_pos(self.chars@.len() as int, self.cursor as int);
        assert(p as int == pp);
        let mut start: usize = p;
        while start > 0 && !is_space(self.chars[start - 1])
            invariant
                start <= p < len,
                len == self.chars@.len(),
                word_start(self.chars@, pp) == word_start(self.chars@, start as int),
            decreases start,
        {
            start = start - 1;
        }
        assert(word_start(self.chars@, pp) == start as int);
        let mut end: usize = p;
        while end < len && !is_space(self.chars[end])
            invariant
                p <= end <= len,
                len == self.chars@.len(),
                word_end(self.chars@, pp) == word_end(self.chars@, end as int),
            decreases len - end,
        {
            end = end + 1;
        }
        assert(word_end(self.chars@, pp) == end as int);
        if start == end {
            return None;
        }
        let mut word: Vec<char> = Vec::new();
        let mut i: usize = start;
        while i < end
            invariant
                start <= i <= end <= len,
                len == self.chars@.len(),
                word@ == self.chars@.subrange(start as int, i as int),
            decreases end - i,
        {
            word.push(self.chars[i]);
            proof {
                assert(word@ =~= self.chars@.subrange(start as int, i + 1));
            }
            i = i + 1;
        }
        Some((start, end, chars_to_string(&word)))
    }

    /// Splices `replacement` over `[start, end)`; the cursor lands just past
    /// the inserted text.
    pub fn replace_word(&mut self, start: usize, end: usize, replacement: &str)
        requires
            old(self).wf(),
            start <= end <= old(self).chars@.len(),
            old(self).chars@.len() - (end - start) + replacement@.len() <= usize::MAX,
        ensures
            final(self).chars@ == old(self).chars@.take(start as int) + replacement@
                + old(self).chars@.skip(end as int),
            final(self).cursor == start + replacement@.len(),
            final(self).wf(),
    {
        let mut out: Vec<char> = Vec::new();
        let mut i: usize = 0;
        while i < start
            invariant
                i <= start <= old(self).chars@.len(),
                self.chars@ == old(self).chars@,
                out@ == old(self).chars@.take(i as int),
            decreases start - i,
        {
            out.push(self.chars[i]);
            proof {
                assert(out@ =~= old(self).chars@.take(i + 1));
            }
            i = i + 1;
        }
        let rlen = replacement.unicode_len();
        let mut j: usize = 0;
        while j < rlen
            invariant
                j <= rlen,
                rlen == replacement@.len(),
                self.chars@ == old(self).chars@,
                start <= old(self).chars@.len(),
                out@ == old(self).chars@.take(start as int) + replacement@.take(j as int),
            decreases rlen - j,
        {
            out.push(replacement.get_char(j));
            proof {
                assert(out@ =~= old(self).chars@.take(start as int) + replacement@.take(j + 1));
            }
            j = j + 1;
        }
        let len = self.chars.len();
        let mut k: usize = end;
        while k < len
            invariant
                end <= k <= len,
                len == old(self).chars@.len(),
                rlen == replacement@.len(),
                start <= end <= len,
                self.chars@ == old(self).chars@,
                out@ == old(self).chars@.take(start as int) + replacement@
                    + old(self).chars@.subrange(end as int, k as int),
            decreases len - k,
        {
            out.push(self.chars[k]);
            proof {
                assert(out@ =~= old(self).chars@.take(start as int) + replacement@
                    + old(self).chars@.subrange(end as int, k + 1));
            }
            k = k + 1;
        }
        proof {
            assert(replacement@.take(rlen as int) =~= replacement@);
            assert(old(self).chars@.subrange(end as int, len as int) =~= old(self).chars@.skip(
                end as int,
            ));
        }
        self.chars = out;
        self.cursor = start + rlen;
    }

    /// The text a redraw paints: the prompt followed by the buffer. Redrawing
    /// reads the state and never changes it, so repeated redraws of one state
    /// paint the same text.
    pub fn render(&self, prompt: &str) -> (r: String)
        requires
            self.wf(),
        ensures
            r@ == prompt@ + self.chars@,
    {
        let mut s = String::new();
        s.append(prompt);
        let rest = chars_to_string(&self.chars);
        s.append(rest.as_str());
        proof {
            assert(s@ =~= prompt@ + self.chars@);
        }
        s
    }
}

} // verus!
