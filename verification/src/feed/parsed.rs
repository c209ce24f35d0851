//! The documents `feed_rs` parses, and what the reader takes from them.

use vstd::prelude::*;
use feed_rs::parser::ParseFeedError;
use crate::ai::client::{opt_view, strs};

verus! {

#[verifier::external_type_specification]
#[verifier::external_body]
pub struct ExParseFeedError(ParseFeedError);

/// An item of a parsed feed, as plain values: its id, title, the addresses of
/// its links and the names of its authors in order, summary, content body, and
/// the times it was published and updated (Unix seconds and the nanoseconds
/// past them).
#[derive(Debug)]
pub struct FeedItem {
    pub id: String,
    pub title: Option<String>,
    pub links: Vec<String>,
    pub summary: Option<String>,
    pub content: Option<String>,
    pub authors: Vec<String>,
    pub published: Option<(i64, u32)>,
    pub updated: Option<(i64, u32)>,
}

/// What `feed_rs` makes of a document: `None` when it cannot parse it as a
/// feed; else the text of the feed's title (`None` inside when it has none)
/// and, for each item in document order: its id, title text, link addresses,
/// summary text, content body, author names, and the times it was published
/// and updated as Unix seconds and the nanoseconds past them. The id is `None` where the document
/// gives the item neither an id nor a link, for there `feed_rs` makes up a
/// random one.
pub uninterp spec fn feed_document(xml: Seq<char>) -> Option<(Option<Seq<char>>, Seq<(Option<Seq<char>>, Option<Seq<char>>, Seq<Seq<char>>, Option<Seq<char>>, Option<Seq<char>>, Seq<Seq<char>>, Option<(i64, u32)>, Option<(i64, u32)>)>)>;

/// The title the parsed document gives, if it parsed.
pub open spec fn document_title(d: Option<(Option<Seq<char>>, Seq<(Option<Seq<char>>, Option<Seq<char>>, Seq<Seq<char>>, Option<Seq<char>>, Option<Seq<char>>, Seq<Seq<char>>, Option<(i64, u32)>, Option<(i64, u32)>)>)>) -> Option<Seq<char>> {
    match d {
        Some((title, _)) => title,
        None => None,
    }
}

/// The items the parsed document lists, if it parsed.
pub open spec fn document_items(d: Option<(Option<Seq<char>>, Seq<(Option<Seq<char>>, Option<Seq<char>>, Seq<Seq<char>>, Option<Seq<char>>, Option<Seq<char>>, Seq<Seq<char>>, Option<(i64, u32)>, Option<(i64, u32)>)>)>) -> Seq<(Option<Seq<char>>, Option<Seq<char>>, Seq<Seq<char>>, Option<Seq<char>>, Option<Seq<char>>, Seq<Seq<char>>, Option<(i64, u32)>, Option<(i64, u32)>)> {
    match d {
        Some((_, items)) => items,
        None => Seq::empty(),
    }
}

/// Whether an item holds what the document says of it; its id is free where
/// the document fixes none.
pub open spec fn item_agrees(it: FeedItem, d: (Option<Seq<char>>, Option<Seq<char>>, Seq<Seq<char>>, Option<Seq<char>>, Option<Seq<char>>, Seq<Seq<char>>, Option<(i64, u32)>, Option<(i64, u32)>)) -> bool {
    &&& (d.0 matches Some(id) ==> it.id@ == id)
    &&& opt_view(it.title) == d.1
    &&& strs(it.links@) == d.2
    &&& opt_view(it.summary) == d.3
    &&& opt_view(it.content) == d.4
    &&& strs(it.authors@) == d.5
    &&& it.published == d.6
    &&& it.updated == d.7
}

/// Whether the items are, one for one and in order, those the document lists.
pub open spec fn items_agree(items: Seq<FeedItem>, ds: Seq<(Option<Seq<char>>, Option<Seq<char>>, Seq<Seq<char>>, Option<Seq<char>>, Option<Seq<char>>, Seq<Seq<char>>, Option<(i64, u32)>, Option<(i64, u32)>)>) -> bool {
    items.len() == ds.len() && forall|i: int| 0 <= i < items.len() ==> item_agrees(#[trigger] items[i], ds[i])
}

/// Parse a document as a feed (`feed_rs::parser::parse`) and take its items,
/// field for field, in document order: they are what the document lists, as
/// `feed_document` says.
#[verifier::external_body]
pub(crate) fn parse_items(xml: &str) -> (r: Result<Vec<FeedItem>, ParseFeedError>)
    ensures
        r is Ok <==> feed_document(xml@) is Some,
        r matches Ok(v) ==> items_agree(v@, document_items(feed_document(xml@))),
{
    let f = feed_rs::parser::parse(xml.as_bytes())?;
    Ok(f.entries.into_iter().map(|e| FeedItem {
        id: e.id,
        title: e.title.map(|t| t.content),
        links: e.links.into_iter().map(|l| l.href).collect(),
        summary: e.summary.map(|t| t.content),
        content: e.content.and_then(|c| c.body),
        authors: e.authors.into_iter().map(|a| a.name).collect(),
        published: e.published.map(|d| (d.timestamp(), d.timestamp_subsec_nanos())),
        updated: e.updated.map(|d| (d.timestamp(), d.timestamp_subsec_nanos())),
    }).collect())
}

/// The parser's message for an error (its `Display`).
#[verifier::external_body]
pub(crate) fn parse_error_message(e: &ParseFeedError) -> String {
    format!("{}", e)
}

/// Parse a document as a feed (`feed_rs::parser::parse`) and take the text of
/// its title, if it has one.
#[verifier::external_body]
pub(crate) fn parse_title(xml: &str) -> (r: Result<Option<String>, ParseFeedError>)
    ensures
        r is Ok <==> feed_document(xml@) is Some,
        r matches Ok(t) ==> opt_view(t) == document_title(feed_document(xml@)),
{
    match feed_rs::parser::parse(xml.as_bytes()) {
        Ok(f) => Ok(f.title.map(|t| t.content)),
        Err(e) => Err(e),
    }
}

} // verus!
