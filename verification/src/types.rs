//! The records the reader keeps: feeds, entries, tags, highlights, sessions
//! and messages, and the modes and actions of the interface.
//!
//! Points in time are moments: Unix seconds and the nanoseconds past them, as
//! `chrono` keeps them.

use vstd::prelude::*;
use crate::text::eq_str;

verus! {

/// A point in time: Unix seconds and the nanoseconds past that second
/// (`chrono`'s `timestamp` and `timestamp_subsec_nanos`; a leap second takes
/// the nanoseconds to a billion and beyond).
#[derive(Clone, Copy, Debug, PartialEq, Eq, Structural)]
pub struct Moment {
    pub secs: i64,
    pub nanos: u32,
}

/// A moment in nanoseconds since the Unix epoch.
pub open spec fn moment_nanos(m: Moment) -> int {
    m.secs * 1_000_000_000 + m.nanos
}

/// A subscribed feed.
#[derive(Debug, Clone)]
pub struct Feed {
    pub id: i64,
    pub title: String,
    pub url: String,
    pub feed_type: String,
    pub category: Option<String>,
    pub icon_url: Option<String>,
    pub last_fetched_at: Option<Moment>,
    pub error_count: i64,
}

/// An article of a feed.
#[derive(Debug, Clone)]
pub struct Entry {
    pub id: i64,
    pub feed_id: i64,
    pub guid: String,
    pub title: Option<String>,
    pub link: Option<String>,
    pub summary: Option<String>,
    pub content: Option<String>,
    pub author: Option<String>,
    pub published_at: Option<Moment>,
    pub fetched_at: Option<Moment>,
    pub is_read: bool,
    pub is_starred: bool,
}

/// A tag that entries may carry.
#[derive(Debug, Clone)]
pub struct Tag {
    pub id: i64,
    pub name: String,
}

/// A saved passage of an entry.
#[derive(Debug, Clone)]
pub struct Highlight {
    pub id: i64,
    pub entry_id: i64,
    pub text: String,
    pub note: Option<String>,
    pub created_at: Option<Moment>,
}

/// A conversation with the assistant.
#[derive(Debug, Clone)]
pub struct AISession {
    pub id: i64,
    pub name: String,
    pub model: String,
    pub description: String,
    pub session_type: SessionType,
    pub created_at: Option<Moment>,
}

/// What a session is for.
#[derive(Clone, Copy, Debug, PartialEq, Eq, Structural)]
pub enum SessionType {
    Chat,
    Code,
    Search,
}

/// A file attached to a session.
#[derive(Debug, Clone)]
pub struct SessionFile {
    pub id: i64,
    pub session_id: i64,
    pub filename: String,
    pub file_type: String,
    pub filepath: String,
    pub created_at: Option<Moment>,
}

/// A message of a session.
#[derive(Debug, Clone)]
pub struct AIMessage {
    pub id: i64,
    pub session_id: i64,
    pub role: String,
    pub content: String,
    pub created_at: Option<Moment>,
}

/// The screen the interface shows.
#[derive(Clone, Copy, Debug, PartialEq, Eq, Structural)]
pub enum AppMode {
    Feeds,
    Articles,
    Reading,
    Search,
    Ask,
    Digest,
    Tag,
    Highlight,
    Help,
    ModelSelect,
    SessionSelect,
}

/// A user command.
#[derive(Clone, Copy, Debug, PartialEq, Eq, Structural)]
pub enum Action {
    NavigateUp,
    NavigateDown,
    OpenFeed,
    OpenArticle,
    Back,
    Refresh,
    Summarize,
    Ask,
    Search,
    ToggleStar,
    Tag,
    AddTag,
    ShowDigest,
    ShowHighlights,
    ShowHelp,
    Export,
    ScrollUp,
    ScrollDown,
    Quit,
}

/// The name under which a session type is stored.
pub open spec fn session_type_name(t: SessionType) -> Seq<char> {
    match t {
        SessionType::Chat => "chat"@,
        SessionType::Code => "code"@,
        SessionType::Search => "search"@,
    }
}

/// The session type a stored name stands for; unknown names mean chat.
pub open spec fn session_type_of(s: Seq<char>) -> SessionType {
    if s == "code"@ {
        SessionType::Code
    } else if s == "search"@ {
        SessionType::Search
    } else {
        SessionType::Chat
    }
}

impl SessionType {
    /// The name under which this session type is stored.
    pub fn as_str(&self) -> (r: &'static str)
        ensures
            r@ == session_type_name(*self),
    {
        match self {
            SessionType::Chat => "chat",
            SessionType::Code => "code",
            SessionType::Search => "search",
        }
    }

    /// The session type a stored name stands for; unknown names mean chat.
    pub fn from_str(s: &str) -> (r: Self)
        ensures
            r == session_type_of(s@),
    {
        if eq_str(s, "code") {
            SessionType::Code
        } else if eq_str(s, "search") {
            SessionType::Search
        } else {
            SessionType::Chat
        }
    }
}

/// Reading back the stored name of a session type gives that type.
pub proof fn law_session_type_round_trip(t: SessionType)
    ensures
        session_type_of(session_type_name(t)) == t,
{
    reveal_strlit("chat");
    reveal_strlit("code");
    reveal_strlit("search");
    assert("chat"@[1] != "code"@[1]);
    assert("chat"@.len() != "search"@.len());
    assert("code"@.len() != "search"@.len());
}

/// A copy of an optional string.
pub fn copy_opt(s: &Option<String>) -> (r: Option<String>)
    ensures
        r == *s,
{
    match s {
        Some(x) => Some(x.clone()),
        None => None,
    }
}

impl Entry {
    /// A copy of this entry.
    pub fn duplicate(&self) -> (r: Entry)
        ensures
            r == *self,
    {
        Entry {
            id: self.id,
            feed_id: self.feed_id,
            guid: self.guid.clone(),
            title: copy_opt(&self.title),
            link: copy_opt(&self.link),
            summary: copy_opt(&self.summary),
            content: copy_opt(&self.content),
            author: copy_opt(&self.author),
            published_at: self.published_at,
            fetched_at: self.fetched_at,
            is_read: self.is_read,
            is_starred: self.is_starred,
        }
    }
}

} // verus!
