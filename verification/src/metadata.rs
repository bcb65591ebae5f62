//! History metadata of one conversation: the read marker, the instant
//! of the last message that triggers the unread indicator, and the
//! name of the file the metadata is stored under. Reading and writing
//! that file is outside work; this module computes its name and the
//! values stored in it.
use vstd::prelude::*;

use crate::server::Server;
use crate::strutil::spec_dec;
use crate::strutil::u64_to_dec;

verus! {

/// A chat message as the metadata rules see it: when the server sent
/// it (milliseconds since the Unix epoch) and whether it triggers the
/// unread indicator.
#[derive(Debug, Clone, Copy, PartialEq, Eq, Structural)]
pub struct Message {
    pub server_time: i64,
    pub triggers_unread: bool,
}

/// The send instant of the newest message that triggers the unread
/// indicator, if any.
pub open spec fn spec_latest_triggers(ms: Seq<Message>) -> Option<i64>
    decreases ms.len(),
{
    if ms.len() == 0 {
        None
    } else if ms.last().triggers_unread {
        Some(ms.last().server_time)
    } else {
        spec_latest_triggers(ms.drop_last())
    }
}

/// Scans the messages from newest to oldest for one that triggers the
/// unread indicator and yields its send instant.
#[verifier::loop_isolation(false)]
pub fn find_latest_triggers(messages: &Vec<Message>) -> (r: Option<i64>)
    ensures
        r == spec_latest_triggers(messages@),
{
    let mut i: usize = messages.len();
    proof {
        assert(messages@.take(i as int) =~= messages@);
    }
    while i > 0
        invariant
            i <= messages@.len(),
            spec_latest_triggers(messages@) == spec_latest_triggers(messages@.take(i as int)),
        decreases i,
    {
        i -= 1;
        proof {
            assert(messages@.take(i + 1).last() == messages@[i as int]);
            assert(messages@.take(i + 1).drop_last() =~= messages@.take(i as int));
        }
        if messages[i].triggers_unread {
            return Some(messages[i].server_time);
        }
    }
    proof {
        assert(messages@.take(0) =~= Seq::<Message>::empty());
    }
    None
}

/// What parsing an RFC 3339 date-time yields, in milliseconds since
/// the Unix epoch; a function of the text alone.
pub uninterp spec fn rfc3339_millis_of(s: Seq<char>) -> Option<i64>;

/// Relies on chrono's `DateTime::parse_from_rfc3339`, with
/// `timestamp_millis` converting the parsed instant: both depend on
/// the text alone.
#[verifier::external_body]
fn parse_rfc3339(s: &str) -> (r: Option<i64>)
    ensures
        r == rfc3339_millis_of(s@),
{
    chrono::DateTime::parse_from_rfc3339(s).ok().map(|dt| dt.timestamp_millis())
}

/// The RFC 3339 rendering of an in-range epoch-millisecond instant in
/// UTC, with millisecond precision and a `Z` suffix; a function of the
/// instant alone.
pub uninterp spec fn rfc3339_of_millis(ms: i64) -> Seq<char>;

/// Relies on chrono's `DateTime::to_rfc3339_opts`, with
/// `DateTime::from_timestamp_millis` converting the argument, which
/// returns `None` on an out-of-range instant.
#[verifier::external_body]
fn format_rfc3339(ms: i64) -> (r: Option<String>)
    ensures
        r matches Some(t) ==> t@ == rfc3339_of_millis(ms),
{
    chrono::DateTime::<chrono::Utc>::from_timestamp_millis(ms).map(
        |dt| dt.to_rfc3339_opts(chrono::SecondsFormat::Millis, true),
    )
}

/// The instant up to which a conversation has been read, in
/// milliseconds since the Unix epoch.
#[derive(Debug, Clone, Copy, PartialEq, Eq, PartialOrd, Ord, Hash)]
pub struct ReadMarker(i64);

impl ReadMarker {
    /// The instant this marker stands for.
    pub closed spec fn spec_millis(self) -> i64 {
        self.0
    }

    /// The read marker at the newest message that triggers the unread
    /// indicator, if any message does.
    pub fn latest(messages: &Vec<Message>) -> (r: Option<ReadMarker>)
        ensures
            match r {
                Some(m) => spec_latest_triggers(messages@) == Some(m.spec_millis()),
                None => spec_latest_triggers(messages@) is None,
            },
    {
        match find_latest_triggers(messages) {
            Some(ms) => Some(ReadMarker(ms)),
            None => None,
        }
    }

    /// The instant of this marker, in milliseconds since the Unix
    /// epoch.
    pub fn date_time(self) -> (r: i64)
        ensures
            r == self.spec_millis(),
    {
        self.0
    }

    /// Parses a marker from its RFC 3339 text.
    pub fn from_rfc3339(s: &str) -> (r: Option<ReadMarker>)
        ensures
            match r {
                Some(m) => rfc3339_millis_of(s@) == Some(m.spec_millis()),
                None => rfc3339_millis_of(s@) is None,
            },
    {
        match parse_rfc3339(s) {
            Some(ms) => Some(ReadMarker(ms)),
            None => None,
        }
    }

    /// The RFC 3339 text of this marker; `None` for an instant the
    /// calendar cannot place.
    pub fn to_rfc3339(&self) -> (r: Option<String>)
        ensures
            r matches Some(t) ==> t@ == rfc3339_of_millis(self.spec_millis()),
    {
        format_rfc3339(self.0)
    }
}

/// The metadata stored for one conversation.
#[derive(Debug, Clone, Copy)]
pub struct Metadata {
    pub read_marker: Option<ReadMarker>,
    pub last_triggers_unread: Option<i64>,
}

impl Default for Metadata {
    /// Metadata with nothing recorded.
    fn default() -> (r: Self)
        ensures
            r.read_marker is None,
            r.last_triggers_unread is None,
    {
        Metadata { read_marker: None, last_triggers_unread: None }
    }
}

impl Metadata {
    /// The metadata to store for a conversation: the marker the caller
    /// chose, and the newest unread-triggering instant of its
    /// messages.
    pub fn from_messages(read_marker: Option<ReadMarker>, messages: &Vec<Message>) -> (r: Metadata)
        ensures
            r.read_marker == read_marker,
            r.last_triggers_unread == spec_latest_triggers(messages@),
    {
        Metadata { read_marker, last_triggers_unread: find_latest_triggers(messages) }
    }
}

/// The kind of conversation a metadata file belongs to.
#[derive(Debug)]
pub enum Kind {
    Server,
    Channel(String),
    Query(String),
}

impl Clone for Kind {
    fn clone(&self) -> (r: Self)
        ensures
            r == *self,
    {
        match self {
            Kind::Server => Kind::Server,
            Kind::Channel(c) => Kind::Channel(c.clone()),
            Kind::Query(n) => Kind::Query(n.clone()),
        }
    }
}

/// The descriptive name a metadata file's hash is taken over.
pub open spec fn spec_meta_name(server: Seq<char>, kind: Kind) -> Seq<char> {
    match kind {
        Kind::Server => server + "-metadata"@,
        Kind::Channel(c) => server + "channel"@ + c@ + "-metadata"@,
        Kind::Query(n) => server + "nickname"@ + n@ + "-metadata"@,
    }
}

/// The 64-bit hash a name is filed under; a function of the name
/// alone.
pub uninterp spec fn seahash_of(s: Seq<char>) -> u64;

/// Relies on `seahash::hash`: the 64-bit hash of the name's bytes,
/// depending on the bytes alone.
#[verifier::external_body]
fn hash_name(s: &str) -> (h: u64)
    ensures
        h == seahash_of(s@),
{
    seahash::hash(s.as_bytes())
}

/// The file name the metadata of a conversation is stored under: the
/// decimal hash of its descriptive name with `.json` appended.
pub fn file_name(server: &Server, kind: &Kind) -> (r: String)
    ensures
        r@ == spec_dec(seahash_of(spec_meta_name(server@, *kind)) as int) + ".json"@,
{
    let mut name = String::new();
    name.append(server.as_str());
    match kind {
        Kind::Server => {
            name.append("-metadata");
            assert(name@ =~= spec_meta_name(server@, *kind));
        },
        Kind::Channel(c) => {
            name.append("channel");
            name.append(c.as_str());
            name.append("-metadata");
            assert(name@ =~= spec_meta_name(server@, *kind));
        },
        Kind::Query(n) => {
            name.append("nickname");
            name.append(n.as_str());
            name.append("-metadata");
            assert(name@ =~= spec_meta_name(server@, *kind));
        },
    }
    let h = hash_name(name.as_str());
    let mut out = u64_to_dec(h);
    out.append(".json");
    out
}

} // verus!
