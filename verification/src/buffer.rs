//! The buffer a pane of the client shows: empty, one conversation
//! (server, channel or query), or one of the utility views. The pane
//! state here is the data the client's decisions read — which
//! conversation a pane points at and where its scroll position sits —
//! not the widget tree that renders it.
use vstd::prelude::*;

pub mod channel;
pub mod file_transfers;
pub mod highlights;
pub mod logs;
pub mod query;
pub mod server;
pub mod user_context;

use crate::strutil::str_eq;

verus! {

/// Which conversation a pane points at — the buffer identifier the
/// data layer hands around.
#[derive(Debug)]
pub enum DataBuffer {
    Server(crate::server::Server),
    Channel(crate::server::Server, String),
    Query(crate::server::Server, String),
}

impl Clone for DataBuffer {
    fn clone(&self) -> (r: Self)
        ensures
            r == *self,
    {
        match self {
            DataBuffer::Server(s) => DataBuffer::Server(s.clone()),
            DataBuffer::Channel(s, c) => DataBuffer::Channel(s.clone(), c.clone()),
            DataBuffer::Query(s, n) => DataBuffer::Query(s.clone(), n.clone()),
        }
    }
}

/// The scroll position of a conversation view, as far as the client's
/// decisions read it. A fresh view sits at the bottom.
#[derive(Debug, Clone, Copy, PartialEq, Eq, Structural)]
pub struct ScrollView {
    pub scrolled_to_bottom: bool,
}

impl Default for ScrollView {
    /// A fresh view, anchored at the bottom.
    fn default() -> (r: Self)
        ensures
            r.scrolled_to_bottom,
    {
        ScrollView { scrolled_to_bottom: true }
    }
}

impl ScrollView {
    /// Whether the view sits at the bottom.
    pub fn is_scrolled_to_bottom(&self) -> (r: bool)
        ensures
            r == self.scrolled_to_bottom,
    {
        self.scrolled_to_bottom
    }
}

/// The buffer a pane shows.
#[derive(Debug)]
pub enum Buffer {
    Empty,
    Channel(channel::Channel),
    Server(server::Server),
    Query(query::Query),
    FileTransfers(file_transfers::FileTransfers),
    Logs(logs::Logs),
    Highlights(highlights::Highlights),
}

impl Buffer {
    /// A pane showing nothing.
    pub fn empty() -> (r: Self)
        ensures
            r is Empty,
    {
        Buffer::Empty
    }

    /// The server the pane's content belongs to. The log and highlight
    /// views belong to their reserved pseudo-servers.
    pub fn server(&self) -> (r: Option<crate::server::Server>)
        ensures
            match self {
                Buffer::Empty | Buffer::FileTransfers(_) => r is None,
                Buffer::Channel(state) => r matches Some(s) && s == state.server,
                Buffer::Server(state) => r matches Some(s) && s == state.server,
                Buffer::Query(state) => r matches Some(s) && s == state.server,
                Buffer::Logs(_) => r matches Some(s) && s@ == "logs"@,
                Buffer::Highlights(_) => r matches Some(s) && s@ == "highlights"@,
            },
    {
        match self {
            Buffer::Empty | Buffer::FileTransfers(_) => None,
            Buffer::Channel(state) => Some(state.server.clone()),
            Buffer::Server(state) => Some(state.server.clone()),
            Buffer::Query(state) => Some(state.server.clone()),
            Buffer::Logs(_) => Some(crate::server::Server::from("logs")),
            Buffer::Highlights(_) => Some(crate::server::Server::from("highlights")),
        }
    }

    /// The conversation the pane points at, for panes that point at
    /// one.
    pub fn data(&self) -> (r: Option<&DataBuffer>)
        ensures
            match self {
                Buffer::Channel(state) => r matches Some(b) && *b == state.buffer,
                Buffer::Server(state) => r matches Some(b) && *b == state.buffer,
                Buffer::Query(state) => r matches Some(b) && *b == state.buffer,
                _ => r is None,
            },
    {
        match self {
            Buffer::Empty => None,
            Buffer::Channel(state) => Some(&state.buffer),
            Buffer::Server(state) => Some(&state.buffer),
            Buffer::Query(state) => Some(&state.buffer),
            Buffer::FileTransfers(_) => None,
            Buffer::Logs(_) => None,
            Buffer::Highlights(_) => None,
        }
    }

    /// The server pane's state, when the pane shows exactly the given
    /// server.
    pub fn get_server(&self, server: &crate::server::Server) -> (r: Option<&server::Server>)
        ensures
            (r is Some) == (self matches Buffer::Server(state) && state.server@ == server@),
            r matches Some(st) ==> (self matches Buffer::Server(state) && *st == state),
    {
        if let Buffer::Server(state) = self {
            if state.server == *server {
                Some(state)
            } else {
                None
            }
        } else {
            None
        }
    }

    /// The channel pane's state, when the pane shows exactly the given
    /// channel of the given server.
    pub fn get_channel(&self, server: &crate::server::Server, channel: &str) -> (r: Option<
        &channel::Channel,
    >)
        ensures
            (r is Some) == (self matches Buffer::Channel(state) && state.server@ == server@
                && state.channel@ == channel@),
            r matches Some(st) ==> (self matches Buffer::Channel(state) && *st == state),
    {
        if let Buffer::Channel(state) = self {
            if state.server == *server && str_eq(state.channel.as_str(), channel) {
                Some(state)
            } else {
                None
            }
        } else {
            None
        }
    }

    /// Puts the pane's view state back to how a fresh pane starts; the
    /// conversation it points at is kept.
    pub fn reset(&mut self)
        ensures
            match *old(self) {
                Buffer::Channel(state) => *final(self) == Buffer::Channel(
                    channel::Channel {
                        scroll_view: ScrollView { scrolled_to_bottom: true },
                        ..state
                    },
                ),
                Buffer::Server(state) => *final(self) == Buffer::Server(
                    server::Server {
                        scroll_view: ScrollView { scrolled_to_bottom: true },
                        ..state
                    },
                ),
                Buffer::Query(state) => *final(self) == Buffer::Query(
                    query::Query {
                        scroll_view: ScrollView { scrolled_to_bottom: true },
                        ..state
                    },
                ),
                _ => *final(self) == *old(self),
            },
    {
        match self {
            Buffer::Empty | Buffer::FileTransfers(_) | Buffer::Logs(_) | Buffer::Highlights(_) => {
            },
            Buffer::Channel(state) => {
                state.scroll_view = ScrollView { scrolled_to_bottom: true };
            },
            Buffer::Server(state) => {
                state.scroll_view = ScrollView { scrolled_to_bottom: true };
            },
            Buffer::Query(state) => {
                state.scroll_view = ScrollView { scrolled_to_bottom: true };
            },
        }
    }

    /// Whether the pane's view sits at the bottom; `None` for panes
    /// without a scrollable transcript.
    pub fn is_scrolled_to_bottom(&self) -> (r: Option<bool>)
        ensures
            match self {
                Buffer::Empty | Buffer::FileTransfers(_) => r is None,
                Buffer::Channel(state) => r == Some(state.scroll_view.scrolled_to_bottom),
                Buffer::Server(state) => r == Some(state.scroll_view.scrolled_to_bottom),
                Buffer::Query(state) => r == Some(state.scroll_view.scrolled_to_bottom),
                Buffer::Logs(state) => r == Some(state.scroll_view.scrolled_to_bottom),
                Buffer::Highlights(state) => r == Some(state.scroll_view.scrolled_to_bottom),
            },
    {
        match self {
            Buffer::Empty | Buffer::FileTransfers(_) => None,
            Buffer::Channel(state) => Some(state.scroll_view.is_scrolled_to_bottom()),
            Buffer::Server(state) => Some(state.scroll_view.is_scrolled_to_bottom()),
            Buffer::Query(state) => Some(state.scroll_view.is_scrolled_to_bottom()),
            Buffer::Logs(state) => Some(state.scroll_view.is_scrolled_to_bottom()),
            Buffer::Highlights(state) => Some(state.scroll_view.is_scrolled_to_bottom()),
        }
    }

    /// The pane showing a conversation: a fresh pane of the matching
    /// kind.
    pub fn from(buffer: DataBuffer) -> (r: Buffer)
        ensures
            match buffer {
                DataBuffer::Server(s) => r matches Buffer::Server(state) && state.server == s
                    && state.buffer == buffer && state.scroll_view.scrolled_to_bottom,
                DataBuffer::Channel(s, c) => r matches Buffer::Channel(state) && state.server == s
                    && state.channel == c && state.buffer == buffer
                    && state.scroll_view.scrolled_to_bottom,
                DataBuffer::Query(s, n) => r matches Buffer::Query(state) && state.server == s
                    && state.nick == n && state.buffer == buffer
                    && state.scroll_view.scrolled_to_bottom,
            },
    {
        match buffer {
            DataBuffer::Server(s) => Buffer::Server(server::Server::new(s)),
            DataBuffer::Channel(s, c) => Buffer::Channel(channel::Channel::new(s, c)),
            DataBuffer::Query(s, n) => Buffer::Query(query::Query::new(s, n)),
        }
    }
}

} // verus!
