//! The state a progress line keeps when stacked with others.
//!
//! The animated bar widgets themselves are a host concern; the library only
//! holds the plain flags the stacking logic reads.

use vstd::prelude::*;

verus! {

/// Where one progress line stands inside a stack of lines.
#[derive(Debug, Clone)]
pub struct MultiLineProgressState {
    /// Whether this line is the last of its stack.
    pub is_last: bool,
    /// Whether this line's work has finished.
    pub is_finished: bool,
}

impl MultiLineProgressState {
    /// A fresh, unfinished line.
    pub fn new(is_last: bool) -> (r: MultiLineProgressState)
        ensures
            r.is_last == is_last,
            !r.is_finished,
    {
        MultiLineProgressState { is_last, is_finished: false }
    }

    /// Whether this line is the last of its stack.
    pub fn is_last(&self) -> (r: bool)
        ensures
            r == self.is_last,
    {
        self.is_last
    }

    /// Marks or unmarks this line as the last of its stack.
    pub fn set_is_last(&mut self, is_last: bool)
        ensures
            final(self).is_last == is_last,
            final(self).is_finished == old(self).is_finished,
    {
        self.is_last = is_last;
    }
}

/// The kind of indication a progress line renders.
#[derive(Clone)]
pub enum ProgressBarKind {
    Progress,
    Download,
    Spinner,
}

} // verus!
