//! The window of list rows that fits the terminal.

use vstd::prelude::*;

verus! {

/// How many list rows may be drawn at once, and where the window currently
/// starts. The actual terminal measurement is a host concern; an unknown
/// terminal means no bound.
pub struct TermSize {
    window_max_rows: usize,
    window_pos: usize,
}

impl TermSize {
    /// The number of rows the window may show.
    pub closed spec fn max_rows(&self) -> int {
        self.window_max_rows as int
    }

    /// The index of the first visible row.
    pub closed spec fn pos(&self) -> int {
        self.window_pos as int
    }

    /// The number of rows the window may show.
    pub fn get_max_rows(&self) -> (r: usize)
        ensures
            r as int == self.max_rows(),
    {
        self.window_max_rows
    }

    /// Bounds the window to `rows` rows.
    pub fn set_max_rows(&mut self, rows: usize)
        ensures
            final(self).max_rows() == rows as int,
            final(self).pos() == old(self).pos(),
    {
        self.window_max_rows = rows;
    }

    /// The index of the first visible row.
    pub fn get_pos(&self) -> (r: usize)
        ensures
            r as int == self.pos(),
    {
        self.window_pos
    }

    /// Scrolls the window so that `pos` is its first visible row.
    pub fn set_pos(&mut self, pos: usize)
        ensures
            final(self).pos() == pos as int,
            final(self).max_rows() == old(self).max_rows(),
    {
        self.window_pos = pos;
    }
}

impl Default for TermSize {
    /// An unbounded window starting at the top, for when no terminal
    /// measurement is available.
    fn default() -> (r: TermSize)
        ensures
            r.max_rows() == usize::MAX as int,
            r.pos() == 0,
    {
        TermSize { window_max_rows: usize::MAX, window_pos: 0 }
    }
}

} // verus!
