//! The widgets of the screen, as what each writes where: a list of texts with
//! their positions (relative to the widget's area) and looks. Drawing them
//! into the terminal's buffer happens outside this library.

use vstd::prelude::*;
use vstd::utf8::encode_utf8;
use vstd::string::StringSliceAdditionalSpecFns;
use crate::text::{chars_of, decimal, push_decimal, string_from};
use crate::types::{Feed, Entry};

verus! {

/// How a text is drawn: the palette of the screen.
#[derive(Clone, Copy, Debug, PartialEq, Eq, Structural)]
pub enum Look {
    /// The terminal's default style.
    Plain,
    /// Grey.
    Dim,
    /// Bold, in the accent colour.
    AccentBold,
}

/// A text written at a position of a widget's area.
#[derive(Debug)]
pub struct Put {
    pub x: u16,
    pub y: u16,
    pub text: String,
    pub look: Look,
}

/// A put as a value.
pub type PutV = (u16, u16, Seq<char>, Look);

impl View for Put {
    type V = PutV;

    open spec fn view(&self) -> PutV {
        (self.x, self.y, self.text@, self.look)
    }
}

/// The values of a sequence of puts.
pub open spec fn put_views(v: Seq<Put>) -> Seq<PutV> {
    v.map_values(|p: Put| p@)
}

/// The first `n` characters of `s`, or all of it.
pub open spec fn first_chars(s: Seq<char>, n: int) -> Seq<char> {
    if s.len() <= n { s } else { s.take(n) }
}

/// `a - b`, or zero when `b` exceeds `a` (std's `saturating_sub`).
pub open spec fn sub_sat(a: int, b: int) -> int {
    if a > b { a - b } else { 0 }
}

/// The marker in front of a list line: an arrow on the selected line.
pub open spec fn marker(sel: bool) -> Seq<char> {
    if sel { "▸ "@ } else { "  "@ }
}

fn first_chars_exec(cs: &[char], n: usize) -> (r: String)
    ensures
        r@ == first_chars(cs@, n as int),
{
    if cs.len() <= n {
        string_from(cs)
    } else {
        let v = crate::text::copy_range(cs, 0, n);
        assert(v@ =~= cs@.take(n as int));
        string_from(&v)
    }
}

fn push_put(v: &mut Vec<Put>, x: u16, y: u16, text: String, look: Look)
    ensures
        put_views(final(v)@) == put_views(old(v)@).push((x, y, text@, look)),
{
    let p = Put { x, y, text, look };
    v.push(p);
    assert(put_views(v@) =~= put_views(old(v)@).push((x, y, p.text@, look)));
}

/// The header: a text on the left, one on the right, and a rule under them.
pub struct Header<'a> {
    pub left: &'a str,
    pub right: &'a str,
}

/// How many bytes of the left text of a header of width `w` are shown.
pub open spec fn header_left_len(left: Seq<char>, w: int) -> int {
    if encode_utf8(left).len() > w { w } else { encode_utf8(left).len() as int }
}

/// How many bytes of the right text of a header of width `w` are shown.
pub open spec fn header_right_len(left: Seq<char>, right: Seq<char>, w: int) -> int {
    let avail = sub_sat(w, header_left_len(left, w) + 1);
    let rb = encode_utf8(right).len() as int;
    if right.len() == 0 { 0 } else if rb < avail { rb } else { avail }
}

/// Whether a header of width `w` cuts its texts at character boundaries.
pub open spec fn header_fits(left: Seq<char>, right: Seq<char>, w: int) -> bool {
    &&& encode_utf8(left).len() > w ==> vstd::utf8::is_char_boundary(encode_utf8(left), w)
    &&& header_right_len(left, right, w) > 0 ==> vstd::utf8::is_char_boundary(
        encode_utf8(right), encode_utf8(right).len() - header_right_len(left, right, w))
}

/// The rule under the header: `w` horizontal lines.
pub open spec fn rule_of(w: nat) -> Seq<char> {
    Seq::new(w, |i: int| '─')
}

impl<'a> Header<'a> {
    /// Whether this header can be drawn `width` columns wide: its texts are
    /// cut at character boundaries.
    pub fn fits(&self, width: u16) -> (b: bool)
        ensures
            b == header_fits(self.left@, self.right@, width as int),
    {
        let lw = width as usize;
        let lb = self.left.as_bytes().len();
        assert(lb == encode_utf8(self.left@).len());
        let shown = if lb > lw { lw } else { lb };
        assert(shown == header_left_len(self.left@, width as int));
        if lb > lw && !self.left.is_char_boundary(lw) {
            return false;
        }
        let avail = if lw > shown + 1 { lw - shown - 1 } else { 0 };
        let rb = self.right.as_bytes().len();
        let rw = if self.right.is_empty() { 0 } else if rb < avail { rb } else { avail };
        assert(rb == encode_utf8(self.right@).len());
        assert(rw == header_right_len(self.left@, self.right@, width as int));
        if rw > 0 && !self.right.is_char_boundary(rb - rw) {
            return false;
        }
        true
    }

    /// What the header writes in an area `width` wide and `height` high: the
    /// left text cut to the width, in grey; the right text, if any, cut from
    /// its start to the room left after a space, flush right, in grey; and,
    /// below, a grey rule across the width.
    pub fn layout(&self, width: u16, height: u16) -> (r: Vec<Put>)
        requires
            header_fits(self.left@, self.right@, width as int),
        ensures
            r@.len() >= 1,
            r@[0].x == 0 && r@[0].y == 0 && r@[0].look == Look::Dim,
            encode_utf8(r@[0].text@) == encode_utf8(self.left@).take(header_left_len(self.left@, width as int)),
            header_right_len(self.left@, self.right@, width as int) > 0 ==> {
                let rw = header_right_len(self.left@, self.right@, width as int);
                &&& r@.len() >= 2
                &&& r@[1].x == width - rw && r@[1].y == 0 && r@[1].look == Look::Dim
                &&& encode_utf8(r@[1].text@) == encode_utf8(self.right@).skip(encode_utf8(self.right@).len() - rw)
            },
            r@.len() == 1 + (if header_right_len(self.left@, self.right@, width as int) > 0 { 1int } else { 0 })
                + (if height > 1 { 1int } else { 0 }),
            height > 1 ==> r@.last()@ == (0u16, 1u16, rule_of(width as nat), Look::Dim),
    {
        let lw = width as usize;
        let lb = self.left.as_bytes().len();
        assert(lb == encode_utf8(self.left@).len());
        let left = if lb > lw {
            let (a, _) = self.left.split_at(lw);
            a
        } else {
            self.left
        };
        assert(encode_utf8(left@) == encode_utf8(self.left@).take(header_left_len(self.left@, width as int))) by {
            if lb <= lw {
                assert(encode_utf8(self.left@).take(lb as int) =~= encode_utf8(self.left@));
            }
        };
        let mut out: Vec<Put> = Vec::new();
        out.push(Put { x: 0, y: 0, text: string_from(&chars_of(left)), look: Look::Dim });
        let shown = left.as_bytes().len();
        let avail = if lw > shown + 1 { lw - shown - 1 } else { 0 };
        let rb = self.right.as_bytes().len();
        let rw = if self.right.is_empty() { 0 } else if rb < avail { rb } else { avail };
        assert(shown == header_left_len(self.left@, width as int));
        assert(rb == encode_utf8(self.right@).len());
        assert(rw == header_right_len(self.left@, self.right@, width as int));
        if rw > 0 {
            let (_, text) = self.right.split_at(rb - rw);
            assert(encode_utf8(text@) =~= encode_utf8(self.right@).skip(rb - rw));
            out.push(Put { x: (lw - rw) as u16, y: 0, text: string_from(&chars_of(text)), look: Look::Dim });
        }
        if height > 1 {
            let mut sep = String::new();
            let mut i: u16 = 0;
            while i < width
                invariant
                    i <= width,
                    sep@ == rule_of(i as nat),
                decreases width - i,
            {
                crate::text::push_char(&mut sep, '─');
                assert(sep@ =~= rule_of((i + 1) as nat));
                i = i + 1;
            }
            out.push(Put { x: 0, y: 1, text: sep, look: Look::Dim });
        }
        out
    }
}

/// The list of feeds.
pub struct FeedList<'a> {
    pub feeds: &'a [Feed],
    pub selected: usize,
}

/// The line of the feed at position `i` in a list `w` columns wide.
pub open spec fn feed_line(f: Feed, sel: bool, w: int) -> PutV {
    (1u16, 0u16, first_chars(marker(sel) + f.title@, sub_sat(w, 2)), if sel { Look::AccentBold } else { Look::Dim })
}

/// How many lines of a list of `n` items fit in `h` rows.
pub open spec fn rows_shown(n: nat, h: int) -> int {
    if n < h { n as int } else { h }
}

impl<'a> FeedList<'a> {
    /// What the feed list writes in an area `width` wide and `height` high:
    /// one line per feed from the top while rows remain, each the feed's
    /// title after a marker, cut to the width less two, the selected one in
    /// bold accent and the others grey, one column in.
    pub fn layout(&self, width: u16, height: u16) -> (r: Vec<Put>)
        ensures
            r@.len() == rows_shown(self.feeds@.len(), height as int),
            forall|i: int| 0 <= i < r@.len() ==> #[trigger] r@[i]@ == {
                let l = feed_line(self.feeds@[i], i == self.selected, width as int);
                (l.0, i as u16, l.2, l.3)
            },
    {
        let w: usize = if width >= 2 { (width - 2) as usize } else { 0 };
        let mut out: Vec<Put> = Vec::new();
        let mut i: usize = 0;
        while i < self.feeds.len() && i < height as usize
            invariant
                0 <= i <= self.feeds@.len(),
                i <= height,
                w as int == sub_sat(width as int, 2),
                out@.len() == i,
                forall|k: int| 0 <= k < i ==> #[trigger] out@[k]@ == {
                    let l = feed_line(self.feeds@[k], k == self.selected, width as int);
                    (l.0, k as u16, l.2, l.3)
                },
            decreases self.feeds@.len() - i,
        {
            let sel = i == self.selected;
            let mut line = String::from_str(if sel { "▸ " } else { "  " });
            line.append(self.feeds[i].title.as_str());
            let text = first_chars_exec(&chars_of(line.as_str()), w);
            out.push(Put { x: 1, y: i as u16, text, look: if sel { Look::AccentBold } else { Look::Dim } });
            i = i + 1;
        }
        out
    }
}

/// The list of articles.
pub struct ArticleList<'a> {
    pub entries: &'a [Entry],
    pub selected: usize,
}

/// A number right-aligned in two columns (`{:2}`).
pub open spec fn two_columns(n: nat) -> Seq<char> {
    if n < 10 { " "@ + decimal(n) } else { decimal(n) }
}

/// The line of the article at position `i` in a list `w` columns wide: its
/// number, a bar and its title; selected in bold accent, read ones grey.
pub open spec fn article_line(e: Entry, i: int, sel: bool, w: int) -> PutV {
    let title = match e.title { Some(t) => t@, None => "(untitled)"@ };
    let line = " "@ + two_columns((i + 1) as nat) + " │ "@ + title;
    (1u16, i as u16, first_chars(line, sub_sat(w, 3)),
        if sel { Look::AccentBold } else if e.is_read { Look::Dim } else { Look::Plain })
}

impl<'a> ArticleList<'a> {
    /// What the article list writes in an area `width` wide and `height`
    /// high: one numbered line per article from the top while rows remain.
    pub fn layout(&self, width: u16, height: u16) -> (r: Vec<Put>)
        ensures
            r@.len() == rows_shown(self.entries@.len(), height as int),
            forall|i: int| 0 <= i < r@.len() ==> #[trigger] r@[i]@
                == article_line(self.entries@[i], i, i == self.selected, width as int),
    {
        let w: usize = if width >= 3 { (width - 3) as usize } else { 0 };
        let mut out: Vec<Put> = Vec::new();
        let mut i: usize = 0;
        while i < self.entries.len() && i < height as usize
            invariant
                0 <= i <= self.entries@.len(),
                i <= height,
                w as int == sub_sat(width as int, 3),
                out@.len() == i,
                forall|k: int| 0 <= k < i ==> #[trigger] out@[k]@
                    == article_line(self.entries@[k], k, k == self.selected, width as int),
            decreases self.entries@.len() - i,
        {
            let sel = i == self.selected;
            let e = &self.entries[i];
            let mut line = String::from_str(" ");
            if i + 1 < 10 {
                line.append(" ");
            }
            push_decimal(&mut line, (i + 1) as u64);
            line.append(" │ ");
            match &e.title {
                Some(t) => line.append(t.as_str()),
                None => line.append("(untitled)"),
            }
            let text = first_chars_exec(&chars_of(line.as_str()), w);
            let look = if sel { Look::AccentBold } else if e.is_read { Look::Dim } else { Look::Plain };
            out.push(Put { x: 1, y: i as u16, text, look });
            i = i + 1;
        }
        out
    }
}

/// An article: its title, its text, and how far it is scrolled.
pub struct ArticleView<'a> {
    pub title: Option<&'a str>,
    pub content: Option<&'a str>,
    pub scroll: u16,
}

impl<'a> ArticleView<'a> {
    /// The text shown, wrapped and scrolled by `scroll` rows: a blank line,
    /// the indented title, a blank line, and the text.
    pub fn text(&self) -> (r: String)
        ensures
            r@ == "\n  "@ + (match self.title { Some(t) => t@, None => seq![] }) + "\n\n"@
                + (match self.content { Some(c) => c@, None => seq![] }),
    {
        let mut s = String::from_str("\n  ");
        match self.title {
            Some(t) => s.append(t),
            None => {},
        }
        s.append("\n\n");
        match self.content {
            Some(c) => s.append(c),
            None => {},
        }
        s
    }
}

/// The navigation line.
pub struct NavBar<'a> {
    pub text: &'a str,
}

impl<'a> NavBar<'a> {
    /// What the navigation line writes: its text in grey, one column in.
    pub fn layout(&self) -> (r: Vec<Put>)
        ensures
            put_views(r@) == seq![(1u16, 0u16, self.text@, Look::Dim)],
    {
        let mut out: Vec<Put> = Vec::new();
        push_put(&mut out, 1, 0, string_from(&chars_of(self.text)), Look::Dim);
        out
    }
}

/// The results of a search, as titles and texts.
pub struct SearchResults<'a> {
    pub results: &'a [(String, String)],
    pub selected: usize,
}

impl<'a> SearchResults<'a> {
    /// What the result list writes in an area `width` wide and `height` high:
    /// one line per result from the top while rows remain, each the title
    /// after a marker, cut to the width, the selected one in bold accent.
    pub fn layout(&self, width: u16, height: u16) -> (r: Vec<Put>)
        ensures
            r@.len() == rows_shown(self.results@.len(), height as int),
            forall|i: int| 0 <= i < r@.len() ==> #[trigger] r@[i]@ == (0u16, i as u16,
                first_chars(marker(i == self.selected) + self.results@[i].0@, width as int),
                if i == self.selected { Look::AccentBold } else { Look::Plain }),
    {
        let mut out: Vec<Put> = Vec::new();
        let mut i: usize = 0;
        while i < self.results.len() && i < height as usize
            invariant
                0 <= i <= self.results@.len(),
                i <= height,
                out@.len() == i,
                forall|k: int| 0 <= k < i ==> #[trigger] out@[k]@ == (0u16, k as u16,
                    first_chars(marker(k == self.selected) + self.results@[k].0@, width as int),
                    if k == self.selected { Look::AccentBold } else { Look::Plain }),
            decreases self.results@.len() - i,
        {
            let sel = i == self.selected;
            let mut line = String::from_str(if sel { "▸ " } else { "  " });
            line.append(self.results[i].0.as_str());
            let text = first_chars_exec(&chars_of(line.as_str()), width as usize);
            out.push(Put { x: 0, y: i as u16, text, look: if sel { Look::AccentBold } else { Look::Plain } });
            i = i + 1;
        }
        out
    }
}

/// The help text.
pub const HELP_TEXT: &'static str = " Nuzzle · commands\n\n /exit  quit    /feed  feeds    /new  session\n /models  pick model    /model <name>  switch\n\n ↑/↓  navigate    Enter  open\n type in the ask bar below to chat with AI";

/// The help overlay.
pub struct HelpOverlay;

impl HelpOverlay {
    /// What the help overlay writes: the help text in grey, one column in.
    pub fn layout(&self) -> (r: Vec<Put>)
        ensures
            put_views(r@) == seq![(1u16, 0u16, HELP_TEXT@, Look::Dim)],
    {
        let mut out: Vec<Put> = Vec::new();
        push_put(&mut out, 1, 0, String::from_str(HELP_TEXT), Look::Dim);
        out
    }
}

/// The screen shown while loading: a spinner beside the name, and a message.
pub struct LoadingScreen<'a> {
    pub spinner: &'a str,
    pub message: &'a str,
}

/// The lines of the loading screen.
pub open spec fn loading_lines(spinner: Seq<char>, message: Seq<char>) -> Seq<Seq<char>> {
    seq![seq![], seq![], seq![], "      "@ + spinner + "  N U Z Z L E"@, seq![], "         "@ + message, seq![], seq![]]
}

/// Where a line of the loading screen goes: centred by its length in bytes
/// (taken modulo 2^16), the block of eight lines centred vertically.
pub open spec fn loading_put(l: Seq<char>, i: int, w: int, h: int) -> PutV {
    let x = sub_sat(w, (encode_utf8(l).len() as u16) as int) / 2;
    (x as u16, (sub_sat(h, 8) / 2 + i) as u16, l, if i == 3 { Look::AccentBold } else { Look::Plain })
}

impl<'a> LoadingScreen<'a> {
    /// What the loading screen writes in an area `width` wide and `height` high.
    pub fn layout(&self, width: u16, height: u16) -> (r: Vec<Put>)
        ensures
            r@.len() == 8,
            forall|i: int| 0 <= i < 8 ==> #[trigger] r@[i]@
                == loading_put(loading_lines(self.spinner@, self.message@)[i], i, width as int, height as int),
    {
        let mut lines: Vec<String> = Vec::new();
        lines.push(String::new());
        lines.push(String::new());
        lines.push(String::new());
        let mut l3 = String::from_str("      ");
        l3.append(self.spinner);
        l3.append("  N U Z Z L E");
        lines.push(l3);
        lines.push(String::new());
        let mut l5 = String::from_str("         ");
        l5.append(self.message);
        lines.push(l5);
        lines.push(String::new());
        lines.push(String::new());
        let ghost want = loading_lines(self.spinner@, self.message@);
        assert(crate::ai::client::strs(lines@) =~= want);
        let start_y: u16 = if height > 8 { (height - 8) / 2 } else { 0 };
        let mut out: Vec<Put> = Vec::new();
        let mut i: usize = 0;
        while i < 8
            invariant
                0 <= i <= 8,
                lines@.len() == 8,
                crate::ai::client::strs(lines@) == want,
                want == loading_lines(self.spinner@, self.message@),
                start_y as int == sub_sat(height as int, 8) / 2,
                out@.len() == i,
                forall|k: int| 0 <= k < i ==> #[trigger] out@[k]@
                    == loading_put(want[k], k, width as int, height as int),
            decreases 8 - i,
        {
            let l = &lines[i];
            assert(l@ == want[i as int]);
            let n = #[verifier::truncate] (l.as_str().as_bytes().len() as u16);
            let x: u16 = if width > n { (width - n) / 2 } else { 0 };
            let t = l.clone();
            out.push(Put { x, y: start_y + i as u16, text: t, look: if i == 3 { Look::AccentBold } else { Look::Plain } });
            assert(out@[i as int]@ == loading_put(want[i as int], i as int, width as int, height as int));
            i = i + 1;
        }
        out
    }
}

/// The model picker: the server's models, the selected one, and the one in use.
pub struct ModelList<'a> {
    pub models: &'a [String],
    pub selected: usize,
    pub current: &'a str,
}

/// The line of model `m` in a picker whose inner area is `w` columns wide.
pub open spec fn model_line(m: Seq<char>, i: int, sel: bool, current: Seq<char>, w: int) -> PutV {
    let line = marker(sel) + m + (if m == current { " ←"@ } else { seq![] });
    (1u16, (i + 2) as u16, first_chars(line, sub_sat(w, 2)), if sel { Look::AccentBold } else { Look::Plain })
}

impl<'a> ModelList<'a> {
    /// What the picker writes inside its border, in an inner area `width`
    /// wide and `height` high: a note when there are no models; else one line
    /// per model from the third row while a row remains below, the one in use
    /// marked with an arrow, the selected one in bold accent.
    pub fn layout(&self, width: u16, height: u16) -> (r: Vec<Put>)
        ensures
            self.models@.len() == 0 ==> put_views(r@) == seq![(1u16, 1u16, "No models."@, Look::Dim)],
            self.models@.len() > 0 ==> r@.len() == rows_shown(self.models@.len(), sub_sat(height as int, 2)),
            self.models@.len() > 0 ==> forall|i: int| 0 <= i < r@.len() ==> #[trigger] r@[i]@
                == model_line(self.models@[i]@, i, i == self.selected, self.current@, width as int),
    {
        let mut out: Vec<Put> = Vec::new();
        if self.models.len() == 0 {
            push_put(&mut out, 1, 1, String::from_str("No models."), Look::Dim);
            return out;
        }
        let w: usize = if width >= 2 { (width - 2) as usize } else { 0 };
        let rows: usize = if height >= 2 { (height - 2) as usize } else { 0 };
        let mut i: usize = 0;
        while i < self.models.len() && i < rows
            invariant
                0 <= i <= self.models@.len(),
                i <= rows,
                rows as int == sub_sat(height as int, 2),
                w as int == sub_sat(width as int, 2),
                out@.len() == i,
                forall|k: int| 0 <= k < i ==> #[trigger] out@[k]@
                    == model_line(self.models@[k]@, k, k == self.selected, self.current@, width as int),
            decreases self.models@.len() - i,
        {
            let sel = i == self.selected;
            let m = self.models[i].as_str();
            let mut line = String::from_str(if sel { "▸ " } else { "  " });
            line.append(m);
            if crate::text::eq_str(m, self.current) {
                line.append(" ←");
            }
            let text = first_chars_exec(&chars_of(line.as_str()), w);
            out.push(Put { x: 1, y: (i + 2) as u16, text, look: if sel { Look::AccentBold } else { Look::Plain } });
            i = i + 1;
        }
        out
    }
}

} // verus!
