//! The user context menu: which entries it offers for a user in a
//! given buffer, and how a chosen entry becomes an event the
//! application handles. Drawing the menu is presentation; the entry
//! list and the message-to-event mapping are the decisions made here.
use vstd::prelude::*;

use crate::buffer::DataBuffer;
use crate::user::AccessLevel;
use crate::user::User;

verus! {

/// An entry of the user context menu.
#[derive(Debug, Clone, Copy, PartialEq, Eq, Structural)]
pub enum Entry {
    Whois,
    Query,
    ToggleAccessLevelOp,
    ToggleAccessLevelVoice,
    SendFile,
    UserInfo,
}

impl Entry {
    /// The entries offered in a buffer: in a channel, the full menu —
    /// with the access-level toggles only when the user themself is an
    /// operator — and elsewhere only whois and file sending.
    pub open spec fn spec_list(buffer: DataBuffer, oper: bool) -> Seq<Entry> {
        match buffer {
            DataBuffer::Channel(_, _) => if oper {
                seq![
                    Entry::UserInfo,
                    Entry::Whois,
                    Entry::Query,
                    Entry::ToggleAccessLevelOp,
                    Entry::ToggleAccessLevelVoice,
                    Entry::SendFile,
                ]
            } else {
                seq![Entry::UserInfo, Entry::Whois, Entry::Query, Entry::SendFile]
            },
            _ => seq![Entry::Whois, Entry::SendFile],
        }
    }

    /// The entries offered for a user in the given buffer.
    pub fn list(buffer: &DataBuffer, our_user: Option<&User>) -> (r: Vec<Entry>)
        ensures
            r@ == Entry::spec_list(
                *buffer,
                match our_user {
                    Some(u) => u.spec_has_access_level(AccessLevel::Oper),
                    None => false,
                },
            ),
    {
        let oper = match our_user {
            Some(u) => u.has_access_level(AccessLevel::Oper),
            None => false,
        };
        let mut out: Vec<Entry> = Vec::new();
        match buffer {
            DataBuffer::Channel(_, _) => {
                if oper {
                    out.push(Entry::UserInfo);
                    out.push(Entry::Whois);
                    out.push(Entry::Query);
                    out.push(Entry::ToggleAccessLevelOp);
                    out.push(Entry::ToggleAccessLevelVoice);
                    out.push(Entry::SendFile);
                } else {
                    out.push(Entry::UserInfo);
                    out.push(Entry::Whois);
                    out.push(Entry::Query);
                    out.push(Entry::SendFile);
                }
            },
            _ => {
                out.push(Entry::Whois);
                out.push(Entry::SendFile);
            },
        }
        proof {
            assert(out@ =~= Entry::spec_list(
                *buffer,
                match our_user {
                    Some(u) => u.spec_has_access_level(AccessLevel::Oper),
                    None => false,
                },
            ));
        }
        out
    }
}

/// A choice made in the menu, carrying the nickname it concerns.
#[derive(Debug)]
pub enum Message {
    Whois(String),
    Query(String),
    SingleClick(String),
    ToggleAccessLevel(String, String),
    SendFile(String),
}

/// What the application does in response to a menu choice.
#[derive(Debug)]
pub enum Event {
    SendWhois(String),
    OpenQuery(String),
    SingleClick(String),
    ToggleAccessLevel(String, String),
    SendFile(String),
}

/// The event a menu choice maps to.
pub open spec fn spec_update(message: Message) -> Event {
    match message {
        Message::Whois(nick) => Event::SendWhois(nick),
        Message::Query(nick) => Event::OpenQuery(nick),
        Message::SingleClick(nick) => Event::SingleClick(nick),
        Message::ToggleAccessLevel(nick, mode) => Event::ToggleAccessLevel(nick, mode),
        Message::SendFile(nick) => Event::SendFile(nick),
    }
}

/// Maps a menu choice to the event the application handles.
pub fn update(message: Message) -> (r: Event)
    ensures
        r == spec_update(message),
{
    match message {
        Message::Whois(nick) => Event::SendWhois(nick),
        Message::Query(nick) => Event::OpenQuery(nick),
        Message::SingleClick(nick) => Event::SingleClick(nick),
        Message::ToggleAccessLevel(nick, mode) => Event::ToggleAccessLevel(nick, mode),
        Message::SendFile(nick) => Event::SendFile(nick),
    }
}

} // verus!
