//! The state of the highlight pane.
use vstd::prelude::*;

use crate::buffer::ScrollView;

verus! {

/// The highlight pane: its view state.
#[derive(Debug)]
pub struct Highlights {
    pub scroll_view: ScrollView,
}

impl Highlights {
    /// A fresh highlight pane.
    pub fn new() -> (r: Highlights)
        ensures
            r.scroll_view.scrolled_to_bottom,
    {
        Highlights { scroll_view: ScrollView { scrolled_to_bottom: true } }
    }
}

} // verus!
