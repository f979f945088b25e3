//! A visible page of items in a selection list.

use vstd::prelude::*;

verus! {

/// Represents a visible page of items in a selection list.
#[derive(Clone)]
pub struct ListView {
    /// The height of the page (number of visible items).
    pub height: usize,
    /// The starting index of the page.
    pub start: usize,
}

impl Default for ListView {
    /// An unbounded page starting at the top.
    fn default() -> (r: ListView)
        ensures
            r.height == usize::MAX,
            r.start == 0,
    {
        ListView { height: usize::MAX, start: 0 }
    }
}

} // verus!
