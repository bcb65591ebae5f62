//! The state of a pane showing one channel.
use vstd::prelude::*;

use crate::buffer::DataBuffer;
use crate::buffer::ScrollView;

verus! {

/// A channel pane: which channel of which server it shows, and its
/// view state.
#[derive(Debug)]
pub struct Channel {
    pub server: crate::server::Server,
    pub channel: String,
    pub buffer: DataBuffer,
    pub scroll_view: ScrollView,
}

impl Channel {
    /// A fresh pane showing the given channel.
    pub fn new(server: crate::server::Server, channel: String) -> (r: Channel)
        ensures
            r.server == server,
            r.channel == channel,
            r.buffer == DataBuffer::Channel(server, channel),
            r.scroll_view.scrolled_to_bottom,
    {
        let buffer = DataBuffer::Channel(server.clone(), channel.clone());
        Channel { server, channel, buffer, scroll_view: ScrollView { scrolled_to_bottom: true } }
    }
}

} // verus!
