//! A small Markdown renderer for the terminal.
//!
//! Text is turned into styled lines of styled spans.  The renderer handles
//! fenced and indented code, block quotes, headings, bullet and ordered lists,
//! horizontal rules, and the inline forms `***x***`, `**x**`, `*x*` (and the
//! same with `_`), `` `x` ``, ``` ``x`` ```, `[title](url)` and backslash escapes.

use vstd::prelude::*;
use crate::text::{
    chars_of, split_lines, trim_chars, trim_start_chars, lines_of, trim, trim_start, views,
    string_from, copy_range, concat_chars, find_char, find_str, find_char_spec, find_str_spec,
};

verus! {

/// A 24-bit colour.
#[derive(Clone, Copy, Debug, PartialEq, Eq, Structural)]
pub struct Rgb {
    pub r: u8,
    pub g: u8,
    pub b: u8,
}

/// The style of a span: optional colours and three modifiers.
#[derive(Clone, Copy, Debug, PartialEq, Eq, Structural)]
pub struct MdStyle {
    pub fg: Option<Rgb>,
    pub bg: Option<Rgb>,
    pub bold: bool,
    pub italic: bool,
    pub underlined: bool,
}

/// A run of text in one style.
#[derive(Clone, Debug)]
pub struct MdSpan {
    pub content: String,
    pub style: MdStyle,
}

/// One rendered line.
#[derive(Clone, Debug)]
pub struct MdLine {
    pub spans: Vec<MdSpan>,
}

/// A rendered document.
#[derive(Clone, Debug)]
pub struct MdText {
    pub lines: Vec<MdLine>,
}

/// A span as a value: its characters and its style.
pub type SpanV = (Seq<char>, MdStyle);

impl View for MdSpan {
    type V = SpanV;

    open spec fn view(&self) -> SpanV {
        (self.content@, self.style)
    }
}

/// The values of a sequence of spans.
pub open spec fn span_views(s: Seq<MdSpan>) -> Seq<SpanV> {
    s.map_values(|x: MdSpan| x@)
}

impl View for MdLine {
    type V = Seq<SpanV>;

    open spec fn view(&self) -> Seq<SpanV> {
        span_views(self.spans@)
    }
}

/// The values of a sequence of lines.
pub open spec fn line_views(s: Seq<MdLine>) -> Seq<Seq<SpanV>> {
    s.map_values(|x: MdLine| x@)
}

impl View for MdText {
    type V = Seq<Seq<SpanV>>;

    open spec fn view(&self) -> Seq<Seq<SpanV>> {
        line_views(self.lines@)
    }
}

/// Heading colour.
#[verifier::allow_in_spec]
pub fn heading_color() -> Rgb
    returns
        (Rgb { r: 189, g: 166, b: 232 }),
{
    Rgb { r: 189, g: 166, b: 232 }
}

/// Link colour.
#[verifier::allow_in_spec]
pub fn link_color() -> Rgb
    returns
        (Rgb { r: 138, g: 173, b: 224 }),
{
    Rgb { r: 138, g: 173, b: 224 }
}

/// Block-quote colour.
#[verifier::allow_in_spec]
pub fn quote_color() -> Rgb
    returns
        (Rgb { r: 147, g: 147, b: 155 }),
{
    Rgb { r: 147, g: 147, b: 155 }
}

/// Background of code.
#[verifier::allow_in_spec]
pub fn code_bg_color() -> Rgb
    returns
        (Rgb { r: 36, g: 39, b: 52 }),
{
    Rgb { r: 36, g: 39, b: 52 }
}

/// Foreground of code.
#[verifier::allow_in_spec]
pub fn code_fg_color() -> Rgb
    returns
        (Rgb { r: 231, g: 221, b: 208 }),
{
    Rgb { r: 231, g: 221, b: 208 }
}

/// Colour of horizontal rules.
#[verifier::allow_in_spec]
pub fn dim_color() -> Rgb
    returns
        (Rgb { r: 147, g: 147, b: 155 }),
{
    Rgb { r: 147, g: 147, b: 155 }
}

/// The default style: no colours, no modifiers.
#[verifier::allow_in_spec]
pub fn plain_style() -> MdStyle
    returns
        (MdStyle { fg: None, bg: None, bold: false, italic: false, underlined: false }),
{
    MdStyle { fg: None, bg: None, bold: false, italic: false, underlined: false }
}

/// A style with only a foreground colour.
#[verifier::allow_in_spec]
pub fn fg_style(c: Rgb) -> MdStyle
    returns
        (MdStyle { fg: Some(c), bg: None, bold: false, italic: false, underlined: false }),
{
    MdStyle { fg: Some(c), bg: None, bold: false, italic: false, underlined: false }
}

/// The style of code: code background and foreground.
#[verifier::allow_in_spec]
pub fn code_style() -> MdStyle
    returns
        (MdStyle { fg: Some(code_fg_color()), bg: Some(code_bg_color()), bold: false, italic: false, underlined: false }),
{
    MdStyle { fg: Some(code_fg_color()), bg: Some(code_bg_color()), bold: false, italic: false, underlined: false }
}

/// Bold, with the given modifiers besides.
#[verifier::allow_in_spec]
pub fn emphasis_style(bold: bool, italic: bool) -> MdStyle
    returns
        (MdStyle { fg: None, bg: None, bold: bold, italic: italic, underlined: false }),
{
    MdStyle { fg: None, bg: None, bold: bold, italic: italic, underlined: false }
}

/// The style of links: underlined, in the link colour.
#[verifier::allow_in_spec]
pub fn link_style() -> MdStyle
    returns
        (MdStyle { fg: Some(link_color()), bg: None, bold: false, italic: false, underlined: true }),
{
    MdStyle { fg: Some(link_color()), bg: None, bold: false, italic: false, underlined: true }
}

/// The style of headings: bold, in the heading colour.
#[verifier::allow_in_spec]
pub fn heading_style() -> MdStyle
    returns
        (MdStyle { fg: Some(heading_color()), bg: None, bold: true, italic: false, underlined: false }),
{
    MdStyle { fg: Some(heading_color()), bg: None, bold: true, italic: false, underlined: false }
}

/// `a` overlaid with `b`: colours of `b` win where `b` sets them, modifiers add up.
pub open spec fn patch(a: MdStyle, b: MdStyle) -> MdStyle {
    MdStyle {
        fg: if b.fg is Some { b.fg } else { a.fg },
        bg: if b.bg is Some { b.bg } else { a.bg },
        bold: a.bold || b.bold,
        italic: a.italic || b.italic,
        underlined: a.underlined || b.underlined,
    }
}

/// Overlay `b` on `a`.
pub fn patch_style(a: MdStyle, b: MdStyle) -> (r: MdStyle)
    ensures
        r == patch(a, b),
{
    MdStyle {
        fg: if b.fg.is_some() { b.fg } else { a.fg },
        bg: if b.bg.is_some() { b.bg } else { a.bg },
        bold: a.bold || b.bold,
        italic: a.italic || b.italic,
        underlined: a.underlined || b.underlined,
    }
}

/// Every span of `s` overlaid with `st`.
pub open spec fn patch_all(s: Seq<SpanV>, st: MdStyle) -> Seq<SpanV> {
    s.map_values(|x: SpanV| (x.0, patch(x.1, st)))
}

// ---------------------------------------------------------------------------
// Inline grammar
// ---------------------------------------------------------------------------

/// `*` and `_` delimit emphasis.
pub open spec fn is_emph(c: char) -> bool {
    c == '*' || c == '_'
}

/// Characters that a backslash turns into literal text.
pub open spec fn is_escapable(c: char) -> bool {
    c == '*' || c == '_' || c == '`' || c == '[' || c == ']' || c == '(' || c == ')' || c == '#'
        || c == '\\'
}

/// Characters at which plain text stops.
pub open spec fn is_marker(c: char) -> bool {
    c == '\\' || c == '*' || c == '_' || c == '`' || c == '['
}

/// The first index `i >= p` holding a marker, or the length if there is none.
pub open spec fn marker_end(cs: Seq<char>, p: int) -> int {
    if exists|i: int| p <= i < cs.len() && is_marker(cs[i]) && forall|j: int| p <= j < i ==> !is_marker(cs[j]) {
        choose|i: int| p <= i < cs.len() && is_marker(cs[i]) && forall|j: int| p <= j < i ==> !is_marker(cs[j])
    } else {
        cs.len() as int
    }
}

/// A token: the span and the position after it.
pub type Tok = (SpanV, int);

/// A backslash followed by an escapable character stands for that character.
pub open spec fn escape_tok(cs: Seq<char>, pos: int) -> Option<Tok> {
    if cs[pos] == '\\' && pos + 1 < cs.len() && is_escapable(cs[pos + 1]) {
        Some(((seq![cs[pos + 1]], plain_style()), pos + 2))
    } else {
        None
    }
}

/// `cs[pos + 1] == cs[pos]`.
pub open spec fn is_double(cs: Seq<char>, pos: int) -> bool {
    pos + 1 < cs.len() && cs[pos + 1] == cs[pos]
}

/// `***x***` or `___x___`: bold italic.
pub open spec fn triple_tok(cs: Seq<char>, pos: int) -> Option<Tok> {
    let c = cs[pos];
    if is_emph(c) && is_double(cs, pos) && pos + 2 < cs.len() && cs[pos + 2] == c
        && find_str_spec(cs, pos + 3, seq![c, c, c]) is Some {
        let e = find_str_spec(cs, pos + 3, seq![c, c, c])->0;
        Some(((cs.subrange(pos + 3, e), emphasis_style(true, true)), e + 3))
    } else {
        None
    }
}

/// `**x**` or `__x__` with `x` not empty: bold.
pub open spec fn double_tok(cs: Seq<char>, pos: int) -> Option<Tok> {
    let c = cs[pos];
    if is_emph(c) && is_double(cs, pos) && find_str_spec(cs, pos + 2, seq![c, c]) is Some
        && find_str_spec(cs, pos + 2, seq![c, c])->0 > pos + 2 {
        let e = find_str_spec(cs, pos + 2, seq![c, c])->0;
        Some(((cs.subrange(pos + 2, e), emphasis_style(true, false)), e + 2))
    } else {
        None
    }
}

/// `*x*` or `_x_` with `x` not empty: italic.
pub open spec fn italic_tok(cs: Seq<char>, pos: int) -> Option<Tok> {
    let c = cs[pos];
    if is_emph(c) && !is_double(cs, pos) && pos + 1 < cs.len() && find_char_spec(cs, pos + 1, c) is Some
        && find_char_spec(cs, pos + 1, c)->0 > pos + 1 {
        let e = find_char_spec(cs, pos + 1, c)->0;
        Some(((cs.subrange(pos + 1, e), emphasis_style(false, true)), e + 1))
    } else {
        None
    }
}

/// `` `x` `` or ``` ``x`` ```: code.
pub open spec fn code_tok(cs: Seq<char>, pos: int) -> Option<Tok> {
    if cs[pos] != '`' {
        None
    } else if is_double(cs, pos) {
        if find_str_spec(cs, pos + 2, seq!['`', '`']) is Some {
            let e = find_str_spec(cs, pos + 2, seq!['`', '`'])->0;
            Some(((cs.subrange(pos + 2, e), code_style()), e + 2))
        } else {
            None
        }
    } else if find_char_spec(cs, pos + 1, '`') is Some {
        let e = find_char_spec(cs, pos + 1, '`')->0;
        Some(((cs.subrange(pos + 1, e), code_style()), e + 1))
    } else {
        None
    }
}

/// `[title](url)`: shown as `title (url)` in the link style.
pub open spec fn link_tok(cs: Seq<char>, pos: int) -> Option<Tok> {
    if cs[pos] == '[' && find_char_spec(cs, pos + 1, ']') is Some
        && find_char_spec(cs, pos + 1, ']')->0 + 1 < cs.len()
        && cs[find_char_spec(cs, pos + 1, ']')->0 + 1] == '('
        && find_char_spec(cs, find_char_spec(cs, pos + 1, ']')->0 + 2, ')') is Some {
        let te = find_char_spec(cs, pos + 1, ']')->0;
        let ue = find_char_spec(cs, te + 2, ')')->0;
        Some(((cs.subrange(pos + 1, te) + seq![' ', '('] + cs.subrange(te + 2, ue) + seq![')'], link_style()), ue + 1))
    } else {
        None
    }
}

/// Plain text up to the next marker; a marker that starts nothing stands for itself.
pub open spec fn plain_tok(cs: Seq<char>, pos: int) -> Tok {
    let e = marker_end(cs, pos);
    if e == pos {
        ((seq![cs[pos]], plain_style()), pos + 1)
    } else {
        ((cs.subrange(pos, e), plain_style()), e)
    }
}

/// The span that starts at `pos` and the position after it: the first form that applies.
pub open spec fn inline_step(cs: Seq<char>, pos: int) -> Tok {
    if escape_tok(cs, pos) is Some {
        escape_tok(cs, pos)->0
    } else if triple_tok(cs, pos) is Some {
        triple_tok(cs, pos)->0
    } else if double_tok(cs, pos) is Some {
        double_tok(cs, pos)->0
    } else if italic_tok(cs, pos) is Some {
        italic_tok(cs, pos)->0
    } else if code_tok(cs, pos) is Some {
        code_tok(cs, pos)->0
    } else if link_tok(cs, pos) is Some {
        link_tok(cs, pos)->0
    } else {
        plain_tok(cs, pos)
    }
}

/// The spans of `cs` from position `pos` on.
pub open spec fn inline_from(cs: Seq<char>, pos: int) -> Seq<SpanV>
    decreases cs.len() - pos,
{
    if pos < 0 || pos >= cs.len() {
        seq![]
    } else {
        let (sp, np) = inline_step(cs, pos);
        if np <= pos {
            seq![]
        } else {
            seq![sp] + inline_from(cs, np)
        }
    }
}

/// The spans of a line of inline Markdown.
pub open spec fn inline_spans(cs: Seq<char>) -> Seq<SpanV> {
    inline_from(cs, 0)
}

/// Whether `cs[pos]` starts something other than plain text.
fn is_marker_start(cs: &[char], pos: usize) -> (b: bool)
    ensures
        b == (pos < cs@.len() && is_marker(cs@[pos as int])),
{
    if pos >= cs.len() {
        return false;
    }
    let c = cs[pos];
    if c == '\\' {
        return true;
    }
    if c == '*' || c == '_' {
        return true;
    }
    if c == '`' {
        return true;
    }
    if c == '[' {
        return true;
    }
    false
}

/// A span of the given characters and style.
fn make_span(cs: &[char], st: MdStyle) -> (s: MdSpan)
    ensures
        s@ == (cs@, st),
{
    MdSpan { content: string_from(cs), style: st }
}

/// The escape form at `pos`, if it applies.
fn escape_at(cs: &[char], pos: usize) -> (r: Option<(MdSpan, usize)>)
    requires
        pos < cs@.len(),
    ensures
        r is Some <==> escape_tok(cs@, pos as int) is Some,
        r matches Some(t) ==> escape_tok(cs@, pos as int) == Some((t.0@, t.1 as int)),
{
    if cs[pos] == '\\' && pos + 1 < cs.len() {
        let next = cs[pos + 1];
        if next == '*' || next == '_' || next == '`' || next == '[' || next == ']' || next == '('
            || next == ')' || next == '#' || next == '\\' {
            return Some((make_span(&vec![next], plain_style()), pos + 2));
        }
    }
    None
}

/// The bold-italic form at `pos`, if it applies.
fn triple_at(cs: &[char], pos: usize) -> (r: Option<(MdSpan, usize)>)
    requires
        pos < cs@.len(),
    ensures
        r is Some <==> triple_tok(cs@, pos as int) is Some,
        r matches Some(t) ==> triple_tok(cs@, pos as int) == Some((t.0@, t.1 as int)),
{
    let n = cs.len();
    let c = cs[pos];
    if (c == '*' || c == '_') && pos + 1 < n && cs[pos + 1] == c && pos + 2 < n && cs[pos + 2] == c {
        let marker = vec![c, c, c];
        assert(marker@ == seq![c, c, c]);
        if let Some(end) = find_str(cs, pos + 3, marker.as_slice()) {
            let inner = copy_range(cs, pos + 3, end);
            return Some((make_span(&inner, emphasis_style(true, true)), end + 3));
        }
    }
    None
}

/// The bold form at `pos`, if it applies.
fn double_at(cs: &[char], pos: usize) -> (r: Option<(MdSpan, usize)>)
    requires
        pos < cs@.len(),
    ensures
        r is Some <==> double_tok(cs@, pos as int) is Some,
        r matches Some(t) ==> double_tok(cs@, pos as int) == Some((t.0@, t.1 as int)),
{
    let n = cs.len();
    let c = cs[pos];
    if (c == '*' || c == '_') && pos + 1 < n && cs[pos + 1] == c {
        let marker = vec![c, c];
        assert(marker@ == seq![c, c]);
        if let Some(end) = find_str(cs, pos + 2, marker.as_slice()) {
            if end > pos + 2 {
                let inner = copy_range(cs, pos + 2, end);
                return Some((make_span(&inner, emphasis_style(true, false)), end + 2));
            }
        }
    }
    None
}

/// The italic form at `pos`, if it applies.
fn italic_at(cs: &[char], pos: usize) -> (r: Option<(MdSpan, usize)>)
    requires
        pos < cs@.len(),
    ensures
        r is Some <==> italic_tok(cs@, pos as int) is Some,
        r matches Some(t) ==> italic_tok(cs@, pos as int) == Some((t.0@, t.1 as int)),
{
    let n = cs.len();
    let c = cs[pos];
    let double = pos + 1 < n && cs[pos + 1] == c;
    if (c == '*' || c == '_') && !double && pos + 1 < n {
        if let Some(end) = find_char(cs, pos + 1, c) {
            if end > pos + 1 {
                let inner = copy_range(cs, pos + 1, end);
                return Some((make_span(&inner, emphasis_style(false, true)), end + 1));
            }
        }
    }
    None
}

/// The code form at `pos`, if it applies.
fn code_at(cs: &[char], pos: usize) -> (r: Option<(MdSpan, usize)>)
    requires
        pos < cs@.len(),
    ensures
        r is Some <==> code_tok(cs@, pos as int) is Some,
        r matches Some(t) ==> code_tok(cs@, pos as int) == Some((t.0@, t.1 as int)),
{
    let n = cs.len();
    if cs[pos] != '`' {
        return None;
    }
    if pos + 1 < n && cs[pos + 1] == '`' {
        let marker = vec!['`', '`'];
        assert(marker@ == seq!['`', '`']);
        if let Some(end) = find_str(cs, pos + 2, marker.as_slice()) {
            let inner = copy_range(cs, pos + 2, end);
            return Some((make_span(&inner, code_style()), end + 2));
        }
    } else {
        if let Some(end) = find_char(cs, pos + 1, '`') {
            let inner = copy_range(cs, pos + 1, end);
            return Some((make_span(&inner, code_style()), end + 1));
        }
    }
    None
}

/// The link form at `pos`, if it applies.
fn link_at(cs: &[char], pos: usize) -> (r: Option<(MdSpan, usize)>)
    requires
        pos < cs@.len(),
    ensures
        r is Some <==> link_tok(cs@, pos as int) is Some,
        r matches Some(t) ==> link_tok(cs@, pos as int) == Some((t.0@, t.1 as int)),
{
    let n = cs.len();
    if cs[pos] == '[' {
        if let Some(title_end) = find_char(cs, pos + 1, ']') {
            if title_end + 1 < n && cs[title_end + 1] == '(' {
                if let Some(url_end) = find_char(cs, title_end + 2, ')') {
                    let title = copy_range(cs, pos + 1, title_end);
                    let url = copy_range(cs, title_end + 2, url_end);
                    let a = concat_chars(&title, &vec![' ', '(']);
                    let b = concat_chars(&a, &url);
                    let all = concat_chars(&b, &vec![')']);
                    return Some((make_span(&all, link_style()), url_end + 1));
                }
            }
        }
    }
    None
}

/// Plain text at `pos`.
fn plain_at(cs: &[char], pos: usize) -> (t: (MdSpan, usize))
    requires
        pos < cs@.len(),
    ensures
        plain_tok(cs@, pos as int) == (t.0@, t.1 as int),
{
    let n = cs.len();
    let mut end = pos;
    while end < n && !is_marker_start(cs, end)
        invariant
            n == cs@.len(),
            pos <= end <= n,
            forall|j: int| pos <= j < end ==> !is_marker(cs@[j]),
        decreases n - end,
    {
        end = end + 1;
    }
    proof {
        let e = marker_end(cs@, pos as int);
        if exists|i: int| pos <= i < cs@.len() && is_marker(cs@[i]) && forall|j: int| pos <= j < i ==> !is_marker(cs@[j]) {
            let k = choose|i: int| pos <= i < cs@.len() && is_marker(cs@[i]) && forall|j: int| pos <= j < i ==> !is_marker(cs@[j]);
            if k < end {
                assert(!is_marker(cs@[k]));
            }
            if end < n && k > end {
                assert(!is_marker(cs@[end as int]));
            }
            assert(e == end);
        } else {
            if end < n {
                assert(pos <= end < cs@.len() && is_marker(cs@[end as int]) && forall|j: int| pos <= j < end ==> !is_marker(cs@[j]));
            }
            assert(e == end);
        }
    }
    if end == pos {
        (make_span(&vec![cs[pos]], plain_style()), pos + 1)
    } else {
        let run = copy_range(cs, pos, end);
        (make_span(&run, plain_style()), end)
    }
}

/// The span that starts at `pos` and the position after it.
fn inline_token(cs: &[char], pos: usize) -> (t: (MdSpan, usize))
    requires
        pos < cs@.len(),
    ensures
        inline_step(cs@, pos as int) == (t.0@, t.1 as int),
        pos < t.1 <= cs@.len(),
{
    proof {
        lemma_step_advances(cs@, pos as int);
    }
    if let Some(t) = escape_at(cs, pos) {
        return t;
    }
    if let Some(t) = triple_at(cs, pos) {
        return t;
    }
    if let Some(t) = double_at(cs, pos) {
        return t;
    }
    if let Some(t) = italic_at(cs, pos) {
        return t;
    }
    if let Some(t) = code_at(cs, pos) {
        return t;
    }
    if let Some(t) = link_at(cs, pos) {
        return t;
    }
    plain_at(cs, pos)
}

/// Every token moves forward and stays within the line.
proof fn lemma_step_advances(cs: Seq<char>, pos: int)
    requires
        0 <= pos < cs.len(),
    ensures
        pos < inline_step(cs, pos).1 <= cs.len(),
{
    let c = cs[pos];
    if triple_tok(cs, pos) is Some {
        let k = find_str_spec(cs, pos + 3, seq![c, c, c])->0;
        assert(occurs_at_spec_len(cs, seq![c, c, c], k));
    }
    if double_tok(cs, pos) is Some {
        let k = find_str_spec(cs, pos + 2, seq![c, c])->0;
        assert(occurs_at_spec_len(cs, seq![c, c], k));
    }
    if code_tok(cs, pos) is Some && is_double(cs, pos) {
        let k = find_str_spec(cs, pos + 2, seq!['`', '`'])->0;
        assert(occurs_at_spec_len(cs, seq!['`', '`'], k));
    }
}

/// Where `t` occurs at `k`, it ends within `s`.
pub open spec fn occurs_at_spec_len(s: Seq<char>, t: Seq<char>, k: int) -> bool {
    k + t.len() <= s.len()
}

proof fn lemma_inline_unfold(cs: Seq<char>, pos: int, sp: SpanV, np: int)
    requires
        0 <= pos < np,
        pos < cs.len(),
        inline_step(cs, pos) == (sp, np),
    ensures
        inline_from(cs, pos) == seq![sp] + inline_from(cs, np),
{
}

/// Parse one line of inline Markdown into spans.
fn parse_inline(cs: &[char]) -> (l: MdLine)
    ensures
        l@ == inline_spans(cs@),
{
    let n = cs.len();
    let mut spans: Vec<MdSpan> = Vec::new();
    let mut pos: usize = 0;
    while pos < n
        invariant
            n == cs@.len(),
            pos <= n,
            span_views(spans@) + inline_from(cs@, pos as int) == inline_from(cs@, 0),
        decreases n - pos,
    {
        let (sp, np) = inline_token(cs, pos);
        proof {
            lemma_inline_unfold(cs@, pos as int, sp@, np as int);
            assert(span_views(spans@.push(sp)) =~= span_views(spans@).push(sp@));
            assert(span_views(spans@) + inline_from(cs@, pos as int) =~= span_views(spans@.push(sp)) + inline_from(cs@, np as int));
        }
        spans.push(sp);
        pos = np;
    }
    MdLine { spans }
}

// ---------------------------------------------------------------------------
// Block structure
// ---------------------------------------------------------------------------

/// The code fence.
pub open spec fn fence() -> Seq<char> {
    seq!['`', '`', '`']
}

/// A line of three or more of `-`, `_` and `*` is a horizontal rule.
pub open spec fn is_rule(t: Seq<char>) -> bool {
    t.len() >= 3 && forall|i: int| 0 <= i < t.len() ==> (t[i] == '-' || t[i] == '_' || t[i] == '*')
}

/// A horizontal rule: eighty box-drawing dashes.
pub open spec fn rule_line() -> Seq<SpanV> {
    seq![(Seq::new(80, |i: int| '\u{2500}'), fg_style(dim_color()))]
}

/// A block quote: a bar, then the quoted text in the quote colour.
pub open spec fn quote_line(t: Seq<char>) -> Seq<SpanV> {
    seq![(seq!['\u{2502}', ' '], fg_style(quote_color()))] + patch_all(
        inline_spans(trim_start(t.skip(1))),
        fg_style(quote_color()),
    )
}

/// The number of leading copies of `c` in `t`.
pub open spec fn run_of(t: Seq<char>, c: char) -> int {
    if exists|i: int| 0 <= i < t.len() && t[i] != c && forall|j: int| 0 <= j < i ==> t[j] == c {
        choose|i: int| 0 <= i < t.len() && t[i] != c && forall|j: int| 0 <= j < i ==> t[j] == c
    } else {
        t.len() as int
    }
}

/// An ASCII decimal digit.
pub open spec fn is_digit(c: char) -> bool {
    '0' <= c <= '9'
}

/// The number of leading ASCII digits of `t`.
pub open spec fn digit_run(t: Seq<char>) -> int {
    if exists|i: int| 0 <= i < t.len() && !is_digit(t[i]) && forall|j: int| 0 <= j < i ==> is_digit(t[j]) {
        choose|i: int| 0 <= i < t.len() && !is_digit(t[i]) && forall|j: int| 0 <= j < i ==> is_digit(t[j])
    } else {
        t.len() as int
    }
}

/// One to six `#` start a heading.
pub open spec fn is_heading(t: Seq<char>) -> bool {
    1 <= run_of(t, '#') <= 6
}

/// A heading: the text after the hashes and one optional space, bold in the heading colour.
pub open spec fn heading_line(t: Seq<char>) -> Seq<SpanV> {
    let r = t.skip(run_of(t, '#'));
    let rest = if r.len() > 0 && r[0] == ' ' { r.skip(1) } else { r };
    patch_all(inline_spans(rest), heading_style())
}

/// `- `, `* ` or a bullet and a space start a list item.
pub open spec fn is_bullet(t: Seq<char>) -> bool {
    t.len() >= 2 && t[1] == ' ' && (t[0] == '-' || t[0] == '*' || t[0] == '\u{2022}')
}

/// A list item: an indented bullet, then the item's text.
pub open spec fn bullet_line(t: Seq<char>) -> Seq<SpanV> {
    seq![(seq![' ', ' ', '\u{2022}', ' '], plain_style())] + inline_spans(t.skip(2))
}

/// Digits, a dot and a space start an ordered item.
pub open spec fn is_ordered(t: Seq<char>) -> bool {
    let d = digit_run(t);
    d > 0 && d + 1 < t.len() && t[d] == '.' && t[d + 1] == ' '
}

/// An ordered item: its indented number, then the item's text.
pub open spec fn ordered_line(t: Seq<char>) -> Seq<SpanV> {
    let d = digit_run(t);
    seq![(seq![' ', ' '] + t.take(d) + seq!['.', ' '], plain_style())] + inline_spans(t.skip(d + 2))
}

/// Four leading spaces make a line of code.
pub open spec fn is_indented(raw: Seq<char>) -> bool {
    raw.len() >= 4 && raw[0] == ' ' && raw[1] == ' ' && raw[2] == ' ' && raw[3] == ' '
}

/// A line of code, kept as it is.
pub open spec fn code_line(raw: Seq<char>) -> Seq<SpanV> {
    seq![(raw, code_style())]
}

/// A blank line: one plain space.
pub open spec fn blank_line() -> Seq<SpanV> {
    seq![(seq![' '], plain_style())]
}

/// How a line outside a code block renders.
pub open spec fn block_line(raw: Seq<char>) -> Seq<SpanV> {
    let t = trim(raw);
    if t.len() == 0 {
        seq![(seq![' '], plain_style())]
    } else if is_rule(t) {
        rule_line()
    } else if t[0] == '>' {
        quote_line(t)
    } else if is_heading(t) {
        heading_line(t)
    } else if is_bullet(t) {
        bullet_line(t)
    } else if is_ordered(t) {
        ordered_line(t)
    } else if is_indented(raw) {
        code_line(raw)
    } else {
        inline_spans(raw)
    }
}

/// The rendering of lines `i..` given whether line `i` lies inside a fenced
/// block. The fences themselves do not show, but a closing fence leaves a
/// blank line before whatever follows the block.
pub open spec fn render_from(ls: Seq<Seq<char>>, i: int, in_code: bool) -> Seq<Seq<SpanV>>
    decreases ls.len() - i,
{
    if i < 0 || i >= ls.len() {
        seq![]
    } else {
        let raw = ls[i];
        let fenced = trim(raw).len() >= 3 && trim(raw).take(3) == fence();
        if in_code {
            if fenced {
                if i + 1 < ls.len() {
                    seq![blank_line()] + render_from(ls, i + 1, false)
                } else {
                    render_from(ls, i + 1, false)
                }
            } else {
                seq![code_line(raw)] + render_from(ls, i + 1, true)
            }
        } else if fenced {
            render_from(ls, i + 1, true)
        } else {
            seq![block_line(raw)] + render_from(ls, i + 1, false)
        }
    }
}

/// The rendering of a Markdown document.
pub open spec fn render_spec(text: Seq<char>) -> Seq<Seq<SpanV>> {
    render_from(lines_of(text), 0, false)
}

/// Whether no line is a code fence.
pub open spec fn no_fences(ls: Seq<Seq<char>>) -> bool {
    forall|k: int| 0 <= k < ls.len() ==> !(trim(#[trigger] ls[k]).len() >= 3 && trim(ls[k]).take(3) == fence())
}

proof fn lemma_render_from_len(ls: Seq<Seq<char>>, i: int)
    requires
        no_fences(ls),
        0 <= i <= ls.len(),
    ensures
        render_from(ls, i, false).len() == ls.len() - i,
    decreases ls.len() - i,
{
    if i < ls.len() {
        let raw = ls[i];
        assert(!(trim(raw).len() >= 3 && trim(raw).take(3) == fence()));
        lemma_render_from_len(ls, i + 1);
    }
}

/// A text without code fences renders line for line: one styled line for
/// each line of the text.
pub proof fn law_render_line_for_line(text: Seq<char>)
    requires
        no_fences(lines_of(text)),
    ensures
        render_spec(text).len() == lines_of(text).len(),
{
    lemma_render_from_len(lines_of(text), 0);
}

/// A run of exactly `k` leading copies of `c` is what `run_of` counts.
proof fn lemma_run_of_exact(t: Seq<char>, c: char, k: int)
    requires
        0 <= k <= t.len(),
        forall|j: int| 0 <= j < k ==> t[j] == c,
        k == t.len() || t[k] != c,
    ensures
        run_of(t, c) == k,
{
    if k < t.len() {
        assert(0 <= k < t.len() && t[k] != c && forall|j: int| 0 <= j < k ==> t[j] == c);
        let w = choose|i: int| 0 <= i < t.len() && t[i] != c && forall|j: int| 0 <= j < i ==> t[j] == c;
        if w < k {
            assert(t[w] == c);
        } else if w > k {
            assert(t[k] == c);
        }
    } else {
        assert forall|i: int| 0 <= i < t.len() && t[i] != c implies !(forall|j: int| 0 <= j < i ==> t[j] == c) by {
            assert(t[i] == c);
        }
    }
}

/// The text of a heading line after its hashes and one optional space.
pub open spec fn after_hashes(t: Seq<char>, k: int) -> Seq<char> {
    let r = t.skip(k);
    if r.len() > 0 && r[0] == ' ' { r.skip(1) } else { r }
}

/// A line whose trimmed text starts with one to six `#` (and no more) is a
/// heading at any of those six levels: every span it renders to is bold in
/// the heading colour, and the spans are those of the text after the hashes
/// and one optional space, so the hashes themselves do not show.
pub proof fn law_headings_one_to_six(raw: Seq<char>, k: int)
    requires
        1 <= k <= 6,
        k <= trim(raw).len(),
        forall|j: int| 0 <= j < k ==> trim(raw)[j] == '#',
        k == trim(raw).len() || trim(raw)[k] != '#',
    ensures
        block_line(raw) == patch_all(inline_spans(after_hashes(trim(raw), k)), heading_style()),
        forall|i: int| 0 <= i < block_line(raw).len() ==> (#[trigger] block_line(raw)[i]).1.bold
            && block_line(raw)[i].1.fg == Some(heading_color()),
{
    let t = trim(raw);
    lemma_run_of_exact(t, '#', k);
    assert(t.len() > 0 && t[0] == '#');
    assert(!is_rule(t)) by {
        if t.len() >= 3 {
            assert(t[0] != '-' && t[0] != '_' && t[0] != '*');
        }
    }
    assert(block_line(raw) == heading_line(t));
}

/// Seven or more `#` do not make a heading: such a line (not indented as
/// code) renders as plain inline text, hashes and all.
pub proof fn law_seven_hashes_are_text(raw: Seq<char>, k: int)
    requires
        k >= 7,
        k <= trim(raw).len(),
        forall|j: int| 0 <= j < k ==> trim(raw)[j] == '#',
        !is_indented(raw),
    ensures
        block_line(raw) == inline_spans(raw),
{
    let t = trim(raw);
    let n = run_of(t, '#');
    assert(n >= 7) by {
        if exists|i: int| 0 <= i < t.len() && t[i] != '#' && forall|j: int| 0 <= j < i ==> t[j] == '#' {
            let w = choose|i: int| 0 <= i < t.len() && t[i] != '#' && forall|j: int| 0 <= j < i ==> t[j] == '#';
            if w < k {
                assert(t[w] == '#');
            }
        }
    }
    assert(!is_rule(t)) by {
        assert(t[0] != '-' && t[0] != '_' && t[0] != '*');
    }
    assert(!is_bullet(t));
    assert(!is_ordered(t)) by {
        if digit_run(t) > 0 {
            if exists|i: int| 0 <= i < t.len() && !is_digit(t[i]) && forall|j: int| 0 <= j < i ==> is_digit(t[j]) {
                let w = choose|i: int| 0 <= i < t.len() && !is_digit(t[i]) && forall|j: int| 0 <= j < i ==> is_digit(t[j]);
                assert(w == 0) by {
                    if w > 0 {
                        assert(is_digit(t[0]));
                    }
                }
            } else {
                assert(!is_digit(t[0]));
            }
        }
    }
}

/// A one-line document that is not a code fence renders as that line's
/// block: `render` gives exactly one styled line.
pub proof fn law_render_single_line(text: Seq<char>)
    requires
        lines_of(text).len() == 1,
        !(trim(lines_of(text)[0]).len() >= 3 && trim(lines_of(text)[0]).take(3) == fence()),
    ensures
        render_spec(text) == seq![block_line(lines_of(text)[0])],
{
    let ls = lines_of(text);
    assert(render_from(ls, 1, false) == Seq::<Seq<SpanV>>::empty());
    assert(render_spec(text) =~= seq![block_line(ls[0])] + render_from(ls, 1, false));
}

/// Every span overlaid with `st`.
fn patch_line(l: MdLine, st: MdStyle) -> (r: MdLine)
    ensures
        r@ == patch_all(l@, st),
{
    let mut out: Vec<MdSpan> = Vec::new();
    let mut i: usize = 0;
    while i < l.spans.len()
        invariant
            0 <= i <= l.spans@.len(),
            span_views(out@) == patch_all(l@, st).take(i as int),
        decreases l.spans@.len() - i,
    {
        let sp = &l.spans[i];
        let ns = MdSpan { content: copy_string(&sp.content), style: patch_style(sp.style, st) };
        proof {
            assert(l@[i as int] == l.spans@[i as int]@);
            assert(ns@ == patch_all(l@, st)[i as int]);
            lemma_span_views_push(out@, ns);
            assert(patch_all(l@, st).take(i + 1) =~= patch_all(l@, st).take(i as int).push(patch_all(l@, st)[i as int]));
        }
        out.push(ns);
        i = i + 1;
    }
    assert(patch_all(l@, st).take(l.spans@.len() as int) =~= patch_all(l@, st));
    MdLine { spans: out }
}

proof fn lemma_span_views_push(v: Seq<MdSpan>, x: MdSpan)
    ensures
        span_views(v.push(x)) == span_views(v).push(x@),
{
    assert(span_views(v.push(x)) =~= span_views(v).push(x@));
}

/// A copy of a string.
fn copy_string(s: &String) -> (r: String)
    ensures
        r@ == s@,
{
    s.clone()
}

/// A line made of one span followed by the spans of `rest`.
fn prepend_span(first: MdSpan, rest: MdLine) -> (r: MdLine)
    ensures
        r@ == seq![first@] + rest@,
{
    let mut out: Vec<MdSpan> = Vec::new();
    out.push(first);
    let mut i: usize = 0;
    let ghost f = first@;
    while i < rest.spans.len()
        invariant
            0 <= i <= rest.spans@.len(),
            span_views(out@) == seq![f] + rest@.take(i as int),
        decreases rest.spans@.len() - i,
    {
        let sp = &rest.spans[i];
        let ns = MdSpan { content: copy_string(&sp.content), style: sp.style };
        proof {
            assert(rest@[i as int] == rest.spans@[i as int]@);
            assert(ns@ == rest@[i as int]);
            lemma_span_views_push(out@, ns);
            assert(seq![f] + rest@.take(i + 1) =~= (seq![f] + rest@.take(i as int)).push(rest@[i as int]));
        }
        out.push(ns);
        i = i + 1;
    }
    assert(rest@.take(rest.spans@.len() as int) =~= rest@);
    MdLine { spans: out }
}

/// A line of one span.
pub fn single_span_line(cs: &[char], st: MdStyle) -> (r: MdLine)
    ensures
        r@ == seq![(cs@, st)],
{
    let mut out: Vec<MdSpan> = Vec::new();
    out.push(make_span(cs, st));
    assert(span_views(out@) =~= seq![(cs@, st)]);
    MdLine { spans: out }
}

/// The number of leading copies of `c`.
fn count_run(t: &[char], c: char) -> (k: usize)
    ensures
        k == run_of(t@, c),
{
    let mut k: usize = 0;
    while k < t.len() && t[k] == c
        invariant
            k <= t@.len(),
            forall|j: int| 0 <= j < k ==> t@[j] == c,
        decreases t@.len() - k,
    {
        k = k + 1;
    }
    proof {
        if exists|i: int| 0 <= i < t@.len() && t@[i] != c && forall|j: int| 0 <= j < i ==> t@[j] == c {
            let w = choose|i: int| 0 <= i < t@.len() && t@[i] != c && forall|j: int| 0 <= j < i ==> t@[j] == c;
            if w < k {
                assert(t@[w] == c);
            }
            if w > k {
                assert(t@[k as int] == c);
            }
        } else if k < t@.len() {
            assert(0 <= k < t@.len() && t@[k as int] != c && forall|j: int| 0 <= j < k ==> t@[j] == c);
        }
    }
    k
}

/// The number of leading ASCII digits.
fn count_digits(t: &[char]) -> (k: usize)
    ensures
        k == digit_run(t@),
{
    let mut k: usize = 0;
    while k < t.len() && '0' <= t[k] && t[k] <= '9'
        invariant
            k <= t@.len(),
            forall|j: int| 0 <= j < k ==> is_digit(t@[j]),
        decreases t@.len() - k,
    {
        k = k + 1;
    }
    proof {
        if exists|i: int| 0 <= i < t@.len() && !is_digit(t@[i]) && forall|j: int| 0 <= j < i ==> is_digit(t@[j]) {
            let w = choose|i: int| 0 <= i < t@.len() && !is_digit(t@[i]) && forall|j: int| 0 <= j < i ==> is_digit(t@[j]);
            if w < k {
                assert(is_digit(t@[w]));
            }
            if w > k {
                assert(is_digit(t@[k as int]));
            }
        } else if k < t@.len() {
            assert(0 <= k < t@.len() && !is_digit(t@[k as int]) && forall|j: int| 0 <= j < k ==> is_digit(t@[j]));
        }
    }
    k
}

/// A heading line, if `t` starts with one to six `#`.
fn try_heading(t: &[char]) -> (r: Option<MdLine>)
    ensures
        r is Some <==> is_heading(t@),
        r matches Some(l) ==> l@ == heading_line(t@),
{
    let h = count_run(t, '#');
    if h == 0 || h > 6 {
        return None;
    }
    let r = copy_range(t, h, t.len());
    assert(r@ == t@.skip(h as int));
    let rest = if r.len() > 0 && r[0] == ' ' {
        copy_range(&r, 1, r.len())
    } else {
        r
    };
    proof {
        let rr = t@.skip(h as int);
        if rr.len() > 0 && rr[0] == ' ' {
            assert(rest@ == rr.skip(1));
        }
    }
    Some(patch_line(parse_inline(&rest), heading_style()))
}

/// An ordered-list line, if `t` starts with digits, a dot and a space.
fn try_ordered(t: &[char]) -> (r: Option<MdLine>)
    ensures
        r is Some <==> is_ordered(t@),
        r matches Some(l) ==> l@ == ordered_line(t@),
{
    let d = count_digits(t);
    if d > 0 && d < t.len() && t[d] == '.' && d + 1 < t.len() && t[d + 1] == ' ' {
        let num = copy_range(t, 0, d);
        let a = concat_chars(&vec![' ', ' '], &num);
        let label = concat_chars(&a, &vec!['.', ' ']);
        let rest = copy_range(t, d + 2, t.len());
        assert(rest@ == t@.skip(d + 2));
        assert(num@ == t@.take(d as int));
        Some(prepend_span(make_span(&label, plain_style()), parse_inline(&rest)))
    } else {
        None
    }
}

/// Whether `t` is a horizontal rule.
fn rule_check(t: &[char]) -> (b: bool)
    ensures
        b == is_rule(t@),
{
    if t.len() < 3 {
        return false;
    }
    let mut i: usize = 0;
    while i < t.len()
        invariant
            0 <= i <= t@.len(),
            forall|j: int| 0 <= j < i ==> (t@[j] == '-' || t@[j] == '_' || t@[j] == '*'),
        decreases t@.len() - i,
    {
        if !(t[i] == '-' || t[i] == '_' || t[i] == '*') {
            return false;
        }
        i = i + 1;
    }
    true
}

/// Render one line outside a code block.
#[verifier::rlimit(30)]
fn render_block_line(raw: &[char]) -> (l: MdLine)
    ensures
        l@ == block_line(raw@),
{
    let t = trim_chars(raw);
    if t.len() == 0 {
        let sp = vec![' '];
        assert(sp@ == seq![' ']);
        return single_span_line(&sp, plain_style());
    }
    if rule_check(&t) {
        let mut dashes: Vec<char> = Vec::new();
        let mut i: usize = 0;
        while i < 80
            invariant
                0 <= i <= 80,
                dashes@ == Seq::new(i as nat, |k: int| '\u{2500}'),
            decreases 80 - i,
        {
            dashes.push('\u{2500}');
            i = i + 1;
            assert(dashes@ =~= Seq::new(i as nat, |k: int| '\u{2500}'));
        }
        return single_span_line(&dashes, fg_style(dim_color()));
    }
    if t[0] == '>' {
        let after = copy_range(&t, 1, t.len());
        assert(after@ == t@.skip(1));
        let content = trim_start_chars(&after);
        let quoted = patch_line(parse_inline(&content), fg_style(quote_color()));
        return prepend_span(make_span(&vec!['\u{2502}', ' '], fg_style(quote_color())), quoted);
    }
    if let Some(h) = try_heading(&t) {
        return h;
    }
    if t.len() >= 2 && t[1] == ' ' && (t[0] == '-' || t[0] == '*' || t[0] == '\u{2022}') {
        let rest = copy_range(&t, 2, t.len());
        assert(rest@ == t@.skip(2));
        return prepend_span(make_span(&vec![' ', ' ', '\u{2022}', ' '], plain_style()), parse_inline(&rest));
    }
    if let Some(o) = try_ordered(&t) {
        return o;
    }
    if raw.len() >= 4 && raw[0] == ' ' && raw[1] == ' ' && raw[2] == ' ' && raw[3] == ' ' {
        return single_span_line(raw, code_style());
    }
    parse_inline(raw)
}

/// Whether the trimmed line opens or closes a fenced block.
fn is_fence(t: &[char]) -> (b: bool)
    ensures
        b == (t@.len() >= 3 && t@.take(3) == fence()),
{
    if t.len() >= 3 && t[0] == '`' && t[1] == '`' && t[2] == '`' {
        assert(t@.take(3) =~= fence());
        true
    } else {
        proof {
            if t@.len() >= 3 && t@.take(3) == fence() {
                assert(t@.take(3)[0] == '`');
                assert(t@.take(3)[1] == '`');
                assert(t@.take(3)[2] == '`');
            }
        }
        false
    }
}

/// Render Markdown text into styled lines.
pub fn render(text: &str) -> (r: MdText)
    ensures
        r@ == render_spec(text@),
{
    let cs = chars_of(text);
    let ls = split_lines(&cs);
    let ghost lv = views(ls@);
    let mut lines: Vec<MdLine> = Vec::new();
    let mut in_code = false;
    let mut i: usize = 0;
    while i < ls.len()
        invariant
            0 <= i <= ls@.len(),
            lv == views(ls@),
            lv == lines_of(cs@),
            line_views(lines@) + render_from(lv, i as int, in_code) == render_from(lv, 0, false),
        decreases ls@.len() - i,
    {
        let raw = &ls[i];
        assert(raw@ == lv[i as int]);
        let t = trim_chars(raw);
        let fenced = is_fence(&t);
        let ghost before = line_views(lines@);
        if in_code {
            if fenced {
                in_code = false;
                if i + 1 < ls.len() {
                    let sp: Vec<char> = vec![' '];
                    assert(sp@ =~= seq![' ']);
                    let l = single_span_line(sp.as_slice(), plain_style());
                    assert(l@ =~= blank_line());
                    assert(line_views(lines@.push(l)) =~= before.push(l@));
                    lines.push(l);
                    assert(before + render_from(lv, i as int, true) =~= line_views(lines@) + render_from(lv, i + 1, false));
                }
            } else {
                let l = single_span_line(raw, code_style());
                assert(line_views(lines@.push(l)) =~= before.push(l@));
                lines.push(l);
                assert(before + render_from(lv, i as int, true) =~= line_views(lines@) + render_from(lv, i + 1, true));
            }
        } else if fenced {
            in_code = true;
        } else {
            let l = render_block_line(raw);
            assert(line_views(lines@.push(l)) =~= before.push(l@));
            lines.push(l);
            assert(before + render_from(lv, i as int, false) =~= line_views(lines@) + render_from(lv, i + 1, false));
        }
        i = i + 1;
    }
    MdText { lines }
}

} // verus!
