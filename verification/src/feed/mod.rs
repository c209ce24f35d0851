//! Feeds: turning a fetched document into entries (the parsing itself is
//! `feed_rs`'s), and the notes the reader shows while adding and refreshing
//! feeds. Fetching and storing happen outside this library.

pub mod parsed;

use vstd::prelude::*;
use crate::text::{decimal, push_decimal, chars_of, string_from};
use crate::types::{Entry, Feed, Moment, copy_opt};
use crate::clock::{now_moment, moment_of};
use crate::feed::parsed::{FeedItem, feed_document, document_items, document_title, items_agree, parse_items, parse_error_message, parse_title};
use crate::ai::client::opt_view;

verus! {

/// A document that could not be parsed as a feed, with the parser's message.
#[derive(Debug)]
pub struct FeedError {
    pub message: String,
}

/// The first of a list of strings, if any.
pub open spec fn first_of(v: Seq<String>) -> Option<String> {
    if v.len() > 0 { Some(v[0]) } else { None }
}

/// The entry an item becomes in the feed `feed_id`, fetched at `now`: dated
/// by its publication time, or else its update time; an item with neither is
/// left out.
pub open spec fn item_entry(feed_id: i64, it: FeedItem, now: Moment) -> Option<Entry> {
    let date = if it.published is Some { it.published } else { it.updated };
    if date is None {
        None
    } else {
        Some(Entry {
            id: 0,
            feed_id: feed_id,
            guid: it.id,
            title: it.title,
            link: first_of(it.links@),
            summary: it.summary,
            content: it.content,
            author: first_of(it.authors@),
            published_at: Some(moment_of(date->0)),
            fetched_at: Some(now),
            is_read: false,
            is_starred: false,
        })
    }
}

/// The entries the items become, in order.
pub open spec fn items_entries(feed_id: i64, items: Seq<FeedItem>, now: Moment) -> Seq<Entry>
    decreases items.len(),
{
    if items.len() == 0 {
        seq![]
    } else {
        let rest = items_entries(feed_id, items.drop_last(), now);
        match item_entry(feed_id, items.last(), now) {
            Some(e) => rest.push(e),
            None => rest,
        }
    }
}

fn first_string(v: &Vec<String>) -> (r: Option<String>)
    ensures
        r == first_of(v@),
{
    if v.len() > 0 {
        Some(v[0].clone())
    } else {
        None
    }
}

/// The entries of the feed `feed_id` that the items become, fetched at `now`.
pub fn entries_from_items(feed_id: i64, items: &Vec<FeedItem>, now: Moment) -> (r: Vec<Entry>)
    ensures
        r@ == items_entries(feed_id, items@, now),
{
    let mut r: Vec<Entry> = Vec::new();
    let mut i: usize = 0;
    while i < items.len()
        invariant
            0 <= i <= items@.len(),
            r@ == items_entries(feed_id, items@.take(i as int), now),
        decreases items@.len() - i,
    {
        assert(items@.take(i + 1).drop_last() =~= items@.take(i as int));
        let it = &items[i];
        let date = if it.published.is_some() { it.published } else { it.updated };
        if let Some((secs, nanos)) = date {
            let e = Entry {
                id: 0,
                feed_id,
                guid: it.id.clone(),
                title: copy_opt(&it.title),
                link: first_string(&it.links),
                summary: copy_opt(&it.summary),
                content: copy_opt(&it.content),
                author: first_string(&it.authors),
                published_at: Some(Moment { secs, nanos }),
                fetched_at: Some(now),
                is_read: false,
                is_starred: false,
            };
            r.push(e);
        }
        i = i + 1;
    }
    assert(items@.take(items@.len() as int) =~= items@);
    r
}

/// Whether an item carries a date: a publication or an update time.
pub open spec fn is_dated(it: FeedItem) -> bool {
    it.published is Some || it.updated is Some
}

/// The items that carry a date, in order.
pub open spec fn dated_items(items: Seq<FeedItem>) -> Seq<FeedItem> {
    items.filter(|it: FeedItem| is_dated(it))
}

/// Whether `e` is what the dated item `it` becomes in the feed `feed_id`
/// fetched at `now`: every field of the item carried over (the first link and
/// the first author), dated by the publication time or else the update time.
pub open spec fn entry_carries(e: Entry, it: FeedItem, feed_id: i64, now: Moment) -> bool {
    &&& e.id == 0 && e.feed_id == feed_id
    &&& e.guid == it.id
    &&& e.title == it.title
    &&& e.link == first_of(it.links@)
    &&& e.summary == it.summary
    &&& e.content == it.content
    &&& e.author == first_of(it.authors@)
    &&& e.published_at == Some(moment_of(if it.published is Some { it.published->0 } else { it.updated->0 }))
    &&& e.fetched_at == Some(now)
    &&& !e.is_read && !e.is_starred
}

/// Items become entries one for one, in order, exactly for the items that
/// carry a date; each entry holds its item's id, title, first link, summary,
/// content, first author and date.
pub proof fn law_entries_are_the_dated_items(feed_id: i64, items: Seq<FeedItem>, now: Moment)
    ensures
        items_entries(feed_id, items, now).len() == dated_items(items).len(),
        forall|k: int| 0 <= k < dated_items(items).len() ==>
            entry_carries(#[trigger] items_entries(feed_id, items, now)[k], dated_items(items)[k], feed_id, now),
    decreases items.len(),
{
    reveal(Seq::filter);
    if items.len() > 0 {
        let rest = items.drop_last();
        law_entries_are_the_dated_items(feed_id, rest, now);
        assert(dated_items(items) == if is_dated(items.last()) {
            dated_items(rest).push(items.last())
        } else {
            dated_items(rest)
        });
    } else {
        assert(dated_items(items) == items);
    }
}

/// Whether `e` is a new entry of the feed `feed_id` as parsing makes it.
pub open spec fn fresh_entry_of(feed_id: i64, e: Entry) -> bool {
    e.id == 0 && e.feed_id == feed_id && e.published_at is Some && e.fetched_at is Some && !e.is_read && !e.is_starred
}

/// Parse a fetched document into entries of the feed `feed_id`, fetched now:
/// one entry for each item of the document that carries a date, in document
/// order, made as `entries_from_items` makes it (the item's id as guid, its
/// publication time or else its update time as date, unread and unstarred);
/// a document that is no feed gives the parser's message.
pub fn parse_feed_xml(feed_id: i64, xml: &str) -> (r: Result<Vec<Entry>, FeedError>)
    ensures
        r is Ok <==> feed_document(xml@) is Some,
        r matches Ok(v) ==> exists|items: Seq<FeedItem>, now: Moment|
            items_agree(items, document_items(feed_document(xml@))) && v@ == #[trigger] items_entries(feed_id, items, now),
        r matches Ok(v) ==> forall|i: int| 0 <= i < v@.len() ==> fresh_entry_of(feed_id, #[trigger] v@[i]),
{
    match parse_items(xml) {
        Ok(items) => {
            let now = now_moment();
            let v = entries_from_items(feed_id, &items, now);
            proof {
                lemma_items_entries_fresh(feed_id, items@, now);
                assert(items_agree(items@, document_items(feed_document(xml@))) && v@ == items_entries(feed_id, items@, now));
            }
            Ok(v)
        },
        Err(e) => Err(FeedError { message: parse_error_message(&e) }),
    }
}

proof fn lemma_items_entries_fresh(feed_id: i64, items: Seq<FeedItem>, now: Moment)
    ensures
        forall|i: int| 0 <= i < items_entries(feed_id, items, now).len()
            ==> fresh_entry_of(feed_id, #[trigger] items_entries(feed_id, items, now)[i]),
    decreases items.len(),
{
    if items.len() > 0 {
        let rest = items_entries(feed_id, items.drop_last(), now);
        lemma_items_entries_fresh(feed_id, items.drop_last(), now);
        let all = items_entries(feed_id, items, now);
        assert forall|i: int| 0 <= i < all.len() implies fresh_entry_of(feed_id, #[trigger] all[i]) by {
            if i < rest.len() {
                assert(all[i] == rest[i]);
            }
        }
    }
}

/// The title of a fetched feed document: its own title, else its address;
/// a document that is no feed gives the parser's message.
pub fn parse_feed_title(xml: &str, url: &str) -> (r: Result<String, FeedError>)
    ensures
        r is Ok <==> feed_document(xml@) is Some,
        r matches Ok(t) ==> t@ == (match document_title(feed_document(xml@)) { Some(x) => x, None => url@ }),
{
    match parse_title(xml) {
        Ok(title) => Ok(title_or_url(title, url)),
        Err(e) => Err(FeedError { message: parse_error_message(&e) }),
    }
}

/// A feed's own title, else its address.
pub fn title_or_url(title: Option<String>, url: &str) -> (r: String)
    ensures
        title is Some ==> r == title->0,
        title is None ==> r@ == url@,
{
    match title {
        Some(t) => t,
        None => string_from(&chars_of(url)),
    }
}

/// The first subscribed feed with the address `url`, if any.
pub open spec fn feed_with_url(feeds: Seq<Feed>, url: Seq<char>) -> Option<int> {
    if exists|i: int| 0 <= i < feeds.len() && feeds[i].url@ == url && forall|j: int| 0 <= j < i ==> feeds[j].url@ != url {
        Some(choose|i: int| 0 <= i < feeds.len() && feeds[i].url@ == url && forall|j: int| 0 <= j < i ==> feeds[j].url@ != url)
    } else {
        None
    }
}

/// The position of the first subscribed feed with the address `url`.
pub fn find_feed(feeds: &Vec<Feed>, url: &str) -> (r: Option<usize>)
    ensures
        r matches Some(i) ==> feed_with_url(feeds@, url@) == Some(i as int) && i < feeds@.len(),
        r is None ==> feed_with_url(feeds@, url@) is None,
{
    let mut i: usize = 0;
    while i < feeds.len()
        invariant
            0 <= i <= feeds@.len(),
            forall|j: int| 0 <= j < i ==> feeds@[j].url@ != url@,
        decreases feeds@.len() - i,
    {
        if crate::text::eq_str(feeds[i].url.as_str(), url) {
            let ghost w = i as int;
            let ghost k = choose|k: int| 0 <= k < feeds@.len() && feeds@[k].url@ == url@ && forall|j: int| 0 <= j < k ==> feeds@[j].url@ != url@;
            assert(k == w) by {
                if k < w {
                    assert(feeds@[k].url@ != url@);
                } else if k > w {
                    assert(feeds@[w].url@ != url@);
                }
            }
            return Some(i);
        }
        i = i + 1;
    }
    None
}

/// The note for a feed that is already subscribed.
pub fn already_added_note(title: &str) -> (r: String)
    ensures
        r@ == title@ + " (already added)"@,
{
    let mut s = String::from_str(title);
    s.append(" (already added)");
    s
}

/// The note for a feed just added, after fetching its articles: how many
/// were new, or why fetching failed.
pub fn added_note(title: &str, fetched: &Result<u64, String>) -> (r: String)
    ensures
        fetched matches Ok(n) ==> r@ == title@ + " (+"@ + decimal(n as nat) + " articles)"@,
        fetched matches Err(e) ==> r@ == title@ + " (fetch err: "@ + e@ + ")"@,
{
    let mut s = String::from_str(title);
    match fetched {
        Ok(n) => {
            s.append(" (+");
            push_decimal(&mut s, *n);
            s.append(" articles)");
        },
        Err(e) => {
            s.append(" (fetch err: ");
            s.append(e.as_str());
            s.append(")");
        },
    }
    s
}

/// The line recording a feed that failed to refresh.
pub fn refresh_error_line(title: &str, err: &str) -> (r: String)
    ensures
        r@ == title@ + ": "@ + err@,
{
    let mut s = String::from_str(title);
    s.append(": ");
    s.append(err);
    s
}

/// The note for a configured feed that could not be fetched (`parsing` false)
/// or parsed (`parsing` true).
pub fn config_feed_error_note(url: &str, parsing: bool, err: &str) -> (r: String)
    ensures
        !parsing ==> r@ == url@ + " (error: "@ + err@ + ")"@,
        parsing ==> r@ == url@ + " (parse: "@ + err@ + ")"@,
{
    let mut s = String::from_str(url);
    if parsing {
        s.append(" (parse: ");
    } else {
        s.append(" (error: ");
    }
    s.append(err);
    s.append(")");
    s
}

/// The status after refreshing all feeds: how many articles were new, and how
/// many feeds failed if any did.
pub fn refresh_status(count: u64, errors: u64) -> (r: String)
    ensures
        errors > 0 ==> r@ == decimal(count as nat) + " new, "@ + decimal(errors as nat) + " errors"@,
        errors == 0 ==> r@ == decimal(count as nat) + " articles fetched"@,
{
    let mut s = String::new();
    push_decimal(&mut s, count);
    if errors > 0 {
        s.append(" new, ");
        push_decimal(&mut s, errors);
        s.append(" errors");
    } else {
        s.append(" articles fetched");
    }
    s
}

} // verus!
