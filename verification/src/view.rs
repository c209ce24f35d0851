//! What the screen shows for a state: the header, the navigation line, the
//! conversation, and the texts of the list views.

use vstd::prelude::*;
use crate::text::{chars_of, copy_range, find_char, find_char_spec, decimal, push_decimal, opt_text};
use crate::types::{AppMode, Entry};
use crate::markdown::{MdLine, MdText, SpanV, fg_style, line_views, render, render_spec, single_span_line, Rgb};
use crate::ai::client::{join, join_strings, strs};
use crate::state::AppState;

verus! {

/// The colour of the question line above an answer.
#[verifier::allow_in_spec]
pub fn question_color() -> Rgb
    returns
        (Rgb { r: 180, g: 190, b: 218 }),
{
    Rgb { r: 180, g: 190, b: 218 }
}

/// Whether the conversation takes the content area.
pub open spec fn showing_answer_spec(s: AppState) -> bool {
    s.mode == AppMode::Ask || s.is_streaming || s.blocks@.len() > 0
}

/// The position shown for the conversation: the block shown and how many there are.
pub open spec fn position_text(s: AppState) -> Seq<char> {
    decimal((s.block_idx + 1) as nat) + "/"@ + decimal(s.blocks@.len())
}

/// The left and right texts of the header.
pub open spec fn header_spec(s: AppState) -> (Seq<char>, Seq<char>) {
    if showing_answer_spec(s) {
        (" Q&A  ·  "@ + position_text(s), opt_text(s.tool_activity))
    } else if s.mode == AppMode::Search {
        (" Search  ·  Enter to run"@, seq![])
    } else {
        let name = if s.selected_feed < s.feeds@.len() { s.feeds@[s.selected_feed as int].title@ } else { seq![] };
        let count = if s.mode == AppMode::Feeds || s.mode == AppMode::Articles {
            decimal(s.entries@.len()) + " articles"@
        } else {
            seq![]
        };
        (" "@ + name, count)
    }
}

/// The navigation line.
pub open spec fn nav_spec(s: AppState) -> Seq<char> {
    if showing_answer_spec(s) {
        "  "@ + position_text(s) + "  ↑↓ browse"@
    } else {
        seq![]
    }
}

/// The block of the conversation on screen, empty when there is none.
pub open spec fn visible_block(s: AppState) -> Seq<char> {
    if s.block_idx < s.blocks@.len() { s.blocks@[s.block_idx as int]@ } else { seq![] }
}

/// A conversation block as shown: its first line as the question, in the
/// question colour, then the rest rendered as Markdown; a block of one line is
/// rendered whole.
pub open spec fn conversation_spec(visible: Seq<char>) -> Seq<Seq<SpanV>> {
    match find_char_spec(visible, 0, '\n') {
        Some(i) => seq![seq![(visible.take(i), fg_style(question_color()))]] + render_spec(visible.skip(i + 1)),
        None => render_spec(visible),
    }
}

/// The lines listing search results, the selected one marked.
pub open spec fn hit_lines(hits: Seq<Entry>, sel: int) -> Seq<Seq<char>> {
    Seq::new(hits.len(), |i: int| "  "@ + (if i == sel { "▸ "@ } else { "  "@ }) + opt_text(hits[i].title))
}

/// The text of the search view.
pub open spec fn search_text_spec(s: AppState) -> Seq<char> {
    if s.search_hits@.len() == 0 {
        "  Type query, Enter to search"@
    } else {
        join(hit_lines(s.search_hits@, s.search_selected as int), "\n"@)
    }
}

/// The text of the tag view.
pub open spec fn tags_text_spec(s: AppState) -> Seq<char> {
    if s.current_tags@.len() == 0 { "No tags"@ } else { "Tags: "@ + join(strs(s.current_tags@), ", "@) }
}

/// The text of the highlight view.
pub open spec fn highlights_text_spec(s: AppState) -> Seq<char> {
    if s.highlights@.len() == 0 {
        "No highlights"@
    } else {
        join(Seq::new(s.highlights@.len(), |i: int| "- "@ + s.highlights@[i].text@), "\n"@)
    }
}

fn push_position(s: &mut String, st: &AppState)
    requires
        st.block_idx < usize::MAX,
    ensures
        final(s)@ == old(s)@ + position_text(*st),
{
    push_decimal(s, (st.block_idx + 1) as u64);
    s.append("/");
    push_decimal(s, st.blocks.len() as u64);
}

impl AppState {
    /// Whether the conversation takes the content area.
    pub fn showing_answer(&self) -> (b: bool)
        ensures
            b == showing_answer_spec(*self),
    {
        self.mode == AppMode::Ask || self.is_streaming || self.blocks.len() > 0
    }

    /// The left and right texts of the header.
    pub fn header_texts(&self) -> (r: (String, String))
        requires
            self.block_idx < usize::MAX,
        ensures
            (r.0@, r.1@) == header_spec(*self),
    {
        if self.showing_answer() {
            let mut left = String::from_str(" Q&A  ·  ");
            push_position(&mut left, self);
            let right = match &self.tool_activity {
                Some(t) => t.clone(),
                None => String::new(),
            };
            (left, right)
        } else if self.mode == AppMode::Search {
            (String::from_str(" Search  ·  Enter to run"), String::new())
        } else {
            let mut left = String::from_str(" ");
            if self.selected_feed < self.feeds.len() {
                left.append(self.feeds[self.selected_feed].title.as_str());
            }
            let mut right = String::new();
            if self.mode == AppMode::Feeds || self.mode == AppMode::Articles {
                push_decimal(&mut right, self.entries.len() as u64);
                right.append(" articles");
            }
            (left, right)
        }
    }

    /// The navigation line.
    pub fn nav_text(&self) -> (r: String)
        requires
            self.block_idx < usize::MAX,
        ensures
            r@ == nav_spec(*self),
    {
        let mut s = String::new();
        if self.showing_answer() {
            s.append("  ");
            push_position(&mut s, self);
            s.append("  ↑↓ browse");
        }
        s
    }

    /// The conversation block on screen, as styled lines.
    pub fn conversation_view(&self) -> (r: MdText)
        ensures
            r@ == conversation_spec(visible_block(*self)),
    {
        let cs = if self.block_idx < self.blocks.len() {
            chars_of(self.blocks[self.block_idx].as_str())
        } else {
            Vec::new()
        };
        assert(cs@ == visible_block(*self));
        let n = cs.len();
        match find_char(&cs, 0, '\n') {
            Some(i) => {
                let q = copy_range(&cs, 0, i);
                let a = copy_range(&cs, i + 1, n);
                assert(q@ == cs@.take(i as int));
                assert(a@ == cs@.skip(i + 1));
                let astr = crate::text::string_from(&a);
                let mut rest = render(astr.as_str());
                let mut lines: Vec<MdLine> = Vec::new();
                lines.push(single_span_line(&q, fg_style(question_color())));
                let ghost first = lines@;
                let ghost tail = rest.lines@;
                lines.append(&mut rest.lines);
                assert(lines@ == first + tail);
                assert(line_views(lines@) =~= line_views(first) + line_views(tail));
                MdText { lines }
            },
            None => render(crate::text::string_from(&cs).as_str()),
        }
    }

    /// The text of the search view.
    pub fn search_text(&self) -> (r: String)
        ensures
            r@ == search_text_spec(*self),
    {
        if self.search_hits.len() == 0 {
            return String::from_str("  Type query, Enter to search");
        }
        let ghost want = hit_lines(self.search_hits@, self.search_selected as int);
        let mut lines: Vec<String> = Vec::new();
        let mut i: usize = 0;
        while i < self.search_hits.len()
            invariant
                0 <= i <= self.search_hits@.len(),
                want == hit_lines(self.search_hits@, self.search_selected as int),
                strs(lines@) == want.take(i as int),
            decreases self.search_hits@.len() - i,
        {
            let mut l = String::from_str("  ");
            if i == self.search_selected {
                l.append("▸ ");
            } else {
                l.append("  ");
            }
            match &self.search_hits[i].title {
                Some(t) => l.append(t.as_str()),
                None => {},
            }
            let ghost before = lines@;
            assert(l@ == want[i as int]);
            lines.push(l);
            assert(strs(lines@) =~= strs(before).push(want[i as int]));
            assert(want.take(i + 1) =~= want.take(i as int).push(want[i as int]));
            assert(strs(lines@) =~= want.take(i + 1));
            i = i + 1;
        }
        assert(want.take(self.search_hits@.len() as int) =~= want);
        join_strings(&lines, "\n")
    }

    /// The text of the tag view.
    pub fn tags_text(&self) -> (r: String)
        ensures
            r@ == tags_text_spec(*self),
    {
        if self.current_tags.len() == 0 {
            String::from_str("No tags")
        } else {
            let mut s = String::from_str("Tags: ");
            let j = join_strings(&self.current_tags, ", ");
            s.append(j.as_str());
            s
        }
    }

    /// The text of the highlight view.
    pub fn highlights_text(&self) -> (r: String)
        ensures
            r@ == highlights_text_spec(*self),
    {
        if self.highlights.len() == 0 {
            return String::from_str("No highlights");
        }
        let ghost want = Seq::new(self.highlights@.len(), |i: int| "- "@ + self.highlights@[i].text@);
        let mut lines: Vec<String> = Vec::new();
        let mut i: usize = 0;
        while i < self.highlights.len()
            invariant
                0 <= i <= self.highlights@.len(),
                want == Seq::new(self.highlights@.len(), |i: int| "- "@ + self.highlights@[i].text@),
                strs(lines@) == want.take(i as int),
            decreases self.highlights@.len() - i,
        {
            let mut l = String::from_str("- ");
            l.append(self.highlights[i].text.as_str());
            let ghost before = lines@;
            assert(l@ == want[i as int]);
            lines.push(l);
            assert(strs(lines@) =~= strs(before).push(want[i as int]));
            assert(want.take(i + 1) =~= want.take(i as int).push(want[i as int]));
            assert(strs(lines@) =~= want.take(i + 1));
            i = i + 1;
        }
        assert(want.take(self.highlights@.len() as int) =~= want);
        join_strings(&lines, "\n")
    }

    /// The title and the text shown for the selected article: its content,
    /// or else its summary.
    pub fn reading_view(&self) -> (r: (Option<String>, Option<String>))
        ensures
            self.selected_entry < self.entries@.len() ==> {
                let e = self.entries@[self.selected_entry as int];
                r.0 == e.title && r.1 == (if e.content is Some { e.content } else { e.summary })
            },
            self.selected_entry >= self.entries@.len() ==> r.0 is None && r.1 is None,
    {
        if self.selected_entry < self.entries.len() {
            let e = &self.entries[self.selected_entry];
            let body = if e.content.is_some() { crate::types::copy_opt(&e.content) } else { crate::types::copy_opt(&e.summary) };
            (crate::types::copy_opt(&e.title), body)
        } else {
            (None, None)
        }
    }
}

} // verus!
