//! The anchor/cursor pair that describes what is selected in a buffer.

use std::ops::Range;
use vstd::prelude::*;

verus! {

/// A selection in character offsets. The text between `anchor` and `cursor`
/// is selected, whichever of the two comes first.
#[derive(Debug, Clone, Copy, PartialEq, Eq, Structural)]
pub struct Selection {
    pub anchor: usize,
    pub cursor: usize,
}

impl Selection {
    /// The smaller of anchor and cursor.
    pub open spec fn start(self) -> usize {
        if self.anchor <= self.cursor {
            self.anchor
        } else {
            self.cursor
        }
    }

    /// The larger of anchor and cursor.
    pub open spec fn end(self) -> usize {
        if self.anchor <= self.cursor {
            self.cursor
        } else {
            self.anchor
        }
    }

    /// Both ends lie within a text of `len` characters.
    pub open spec fn within(self, len: nat) -> bool {
        self.anchor <= len && self.cursor <= len
    }

    /// Where the cursor and anchor end up when the cursor is set.
    pub open spec fn with_cursor(self, cursor: usize, extend: bool) -> Selection {
        Selection { anchor: if extend { self.anchor } else { cursor }, cursor }
    }

    pub fn collapsed(pos: usize) -> (s: Self)
        ensures
            s == (Selection { anchor: pos, cursor: pos }),
    {
        Self { anchor: pos, cursor: pos }
    }

    pub fn is_empty(&self) -> (b: bool)
        ensures
            b == (self.anchor == self.cursor),
    {
        self.anchor == self.cursor
    }

    pub fn range(&self) -> (r: Range<usize>)
        ensures
            r.start == self.start(),
            r.end == self.end(),
            r.start <= r.end,
    {
        if self.anchor <= self.cursor {
            self.anchor..self.cursor
        } else {
            self.cursor..self.anchor
        }
    }

    pub fn set_cursor(&mut self, cursor: usize, extend: bool)
        ensures
            *final(self) == old(self).with_cursor(cursor, extend),
    {
        if !extend {
            self.anchor = cursor;
        }
        self.cursor = cursor;
    }

    pub fn collapse_to(&mut self, pos: usize)
        ensures
            *final(self) == (Selection { anchor: pos, cursor: pos }),
    {
        self.anchor = pos;
        self.cursor = pos;
    }
}

} // verus!
