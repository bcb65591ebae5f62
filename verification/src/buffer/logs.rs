//! The state of the log pane.
use vstd::prelude::*;

use crate::buffer::ScrollView;

verus! {

/// The log pane: its view state.
#[derive(Debug)]
pub struct Logs {
    pub scroll_view: ScrollView,
}

impl Logs {
    /// A fresh log pane.
    pub fn new() -> (r: Logs)
        ensures
            r.scroll_view.scrolled_to_bottom,
    {
        Logs { scroll_view: ScrollView { scrolled_to_bottom: true } }
    }
}

} // verus!
