//! The state of a pane showing one private conversation.
use vstd::prelude::*;

use crate::buffer::DataBuffer;
use crate::buffer::ScrollView;

verus! {

/// A query pane: whose conversation on which server it shows, and its
/// view state.
#[derive(Debug)]
pub struct Query {
    pub server: crate::server::Server,
    pub nick: String,
    pub buffer: DataBuffer,
    pub scroll_view: ScrollView,
}

impl Query {
    /// A fresh pane showing the conversation with the given nick.
    pub fn new(server: crate::server::Server, nick: String) -> (r: Query)
        ensures
            r.server == server,
            r.nick == nick,
            r.buffer == DataBuffer::Query(server, nick),
            r.scroll_view.scrolled_to_bottom,
    {
        let buffer = DataBuffer::Query(server.clone(), nick.clone());
        Query { server, nick, buffer, scroll_view: ScrollView { scrolled_to_bottom: true } }
    }
}

} // verus!
