//! The state of a pane showing one server's own messages.
use vstd::prelude::*;

use crate::buffer::DataBuffer;
use crate::buffer::ScrollView;

verus! {

/// A server pane: which server it shows, and its view state.
#[derive(Debug)]
pub struct Server {
    pub server: crate::server::Server,
    pub buffer: DataBuffer,
    pub scroll_view: ScrollView,
}

impl Server {
    /// A fresh pane showing the given server.
    pub fn new(server: crate::server::Server) -> (r: Server)
        ensures
            r.server == server,
            r.buffer == DataBuffer::Server(server),
            r.scroll_view.scrolled_to_bottom,
    {
        let buffer = DataBuffer::Server(server.clone());
        Server { server, buffer, scroll_view: ScrollView { scrolled_to_bottom: true } }
    }
}

} // verus!
