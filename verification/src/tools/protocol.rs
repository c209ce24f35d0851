//! The text protocol by which the assistant invokes tools.
//!
//! A tool invocation is a block
//!
//! ```text
//! <tool>
//! script_name --arg1 value1 --arg2 "value with spaces"
//! </tool>
//! ```
//!
//! Blocks are found left to right without overlap: each starts at the next
//! `<tool>` and ends at the first `</tool>` after it.

use vstd::prelude::*;
use crate::text::{
    chars_of, copy_range, find_char, find_char_spec, find_str, find_str_spec, is_whitespace,
    is_ws, lines_of, push_chars, split_lines, string_from, trim, trim_chars, views, contains_chars,
    contains_seq, lemma_first_occurrence, occurs_at, trim_start, trim_end, starts_with_spec,
};

verus! {

/// One tool invocation: the script's name and its argument string.
#[derive(Clone, Debug)]
pub struct ToolCall {
    pub name: String,
    pub args: String,
}

impl View for ToolCall {
    type V = (Seq<char>, Seq<char>);

    open spec fn view(&self) -> (Seq<char>, Seq<char>) {
        (self.name@, self.args@)
    }
}

/// The values of a sequence of tool calls.
pub open spec fn call_views(v: Seq<ToolCall>) -> Seq<(Seq<char>, Seq<char>)> {
    v.map_values(|c: ToolCall| c@)
}

/// `<tool>`
pub open spec fn open_tag() -> Seq<char> {
    seq!['<', 't', 'o', 'o', 'l', '>']
}

/// `</tool>`
pub open spec fn close_tag() -> Seq<char> {
    seq!['<', '/', 't', 'o', 'o', 'l', '>']
}

/// Where the block that begins at or after `pos` opens and closes, if one does.
#[verifier::opaque]
pub open spec fn next_block(s: Seq<char>, pos: int) -> Option<(int, int)> {
    match find_str_spec(s, pos, open_tag()) {
        Some(o) => match find_str_spec(s, o + 6, close_tag()) {
            Some(c) => Some((o, c)),
            None => None,
        },
        None => None,
    }
}

/// The text inside each tool block from `pos` on.
pub open spec fn blocks_from(s: Seq<char>, pos: int) -> Seq<Seq<char>>
    decreases s.len() + 1 - pos,
{
    match next_block(s, pos) {
        Some((o, c)) => if c + 7 <= pos || pos < 0 || c + 7 > s.len() + 1 {
            seq![]
        } else {
            seq![s.subrange(o + 6, c)] + blocks_from(s, c + 7)
        },
        None => seq![],
    }
}

/// The argument string: the rest of the first line, then each further line
/// trimmed, separated by single spaces once something has been collected.
pub open spec fn join_args(acc: Seq<char>, ls: Seq<Seq<char>>) -> Seq<char>
    decreases ls.len(),
{
    if ls.len() == 0 {
        acc
    } else {
        let next = if acc.len() > 0 { acc.push(' ') + trim(ls[0]) } else { acc + trim(ls[0]) };
        join_args(next, ls.skip(1))
    }
}

/// The call written in a block whose trimmed text is not empty: the name is the
/// first line up to its first space, the arguments are the rest.
pub open spec fn call_of(inner: Seq<char>) -> (Seq<char>, Seq<char>) {
    let ls = lines_of(trim(inner));
    let first = trim(ls[0]);
    match find_char_spec(first, 0, ' ') {
        Some(k) => (trim(first.take(k)), join_args(trim(first.skip(k)), ls.skip(1))),
        None => (first, join_args(seq![], ls.skip(1))),
    }
}

/// What has been collected stays at the front of the arguments.
proof fn lemma_join_keeps_prefix(acc: Seq<char>, ls: Seq<Seq<char>>)
    ensures
        acc.len() <= join_args(acc, ls).len(),
        join_args(acc, ls).take(acc.len() as int) == acc,
    decreases ls.len(),
{
    if ls.len() == 0 {
        assert(acc.take(acc.len() as int) =~= acc);
    } else {
        let next = if acc.len() > 0 { acc.push(' ') + trim(ls[0]) } else { acc + trim(ls[0]) };
        lemma_join_keeps_prefix(next, ls.skip(1));
        let r = join_args(next, ls.skip(1));
        assert(r.take(acc.len() as int) =~= next.take(next.len() as int).take(acc.len() as int));
        assert(next.take(acc.len() as int) =~= acc);
    }
}

/// Every further line, trimmed, ends up in the arguments.
proof fn lemma_join_holds_lines(acc: Seq<char>, ls: Seq<Seq<char>>, j: int)
    requires
        0 <= j < ls.len(),
    ensures
        contains_seq(join_args(acc, ls), trim(ls[j])),
    decreases ls.len(),
{
    let next = if acc.len() > 0 { acc.push(' ') + trim(ls[0]) } else { acc + trim(ls[0]) };
    let r = join_args(next, ls.skip(1));
    if j == 0 {
        let w = trim(ls[0]);
        lemma_join_keeps_prefix(next, ls.skip(1));
        let at = next.len() - w.len();
        assert(r.subrange(at, at + w.len()) =~= next.subrange(at, next.len() as int)) by {
            assert(r.take(next.len() as int) == next);
            assert forall|x: int| 0 <= x < w.len() implies r.subrange(at, at + w.len())[x] == next.subrange(at, next.len() as int)[x] by {
                assert(r.take(next.len() as int)[at + x] == r[at + x]);
            }
        }
        assert(next.subrange(at, next.len() as int) =~= w);
        assert(occurs_at(r, w, at));
    } else {
        assert(ls.skip(1)[j - 1] == ls[j]);
        lemma_join_holds_lines(next, ls.skip(1), j - 1);
    }
}

/// Trimming adds no character: a text without `c` trims to one without `c`.
proof fn lemma_trim_keeps_out(s: Seq<char>, c: char)
    requires
        forall|i: int| 0 <= i < s.len() ==> s[i] != c,
    ensures
        forall|i: int| 0 <= i < trim(s).len() ==> #[trigger] trim(s)[i] != c,
{
    lemma_trim_start_keeps_out(s, c);
    lemma_trim_end_keeps_out(trim_start(s), c);
}

proof fn lemma_trim_start_keeps_out(s: Seq<char>, c: char)
    requires
        forall|i: int| 0 <= i < s.len() ==> s[i] != c,
    ensures
        forall|i: int| 0 <= i < trim_start(s).len() ==> #[trigger] trim_start(s)[i] != c,
    decreases s.len(),
{
    if s.len() > 0 && is_ws(s[0]) {
        assert forall|i: int| 0 <= i < s.drop_first().len() implies s.drop_first()[i] != c by {
            assert(s.drop_first()[i] == s[i + 1]);
        }
        lemma_trim_start_keeps_out(s.drop_first(), c);
        assert(trim_start(s) == trim_start(s.drop_first()));
    } else {
        assert(trim_start(s) == s);
    }
}

proof fn lemma_trim_end_keeps_out(s: Seq<char>, c: char)
    requires
        forall|i: int| 0 <= i < s.len() ==> s[i] != c,
    ensures
        forall|i: int| 0 <= i < trim_end(s).len() ==> #[trigger] trim_end(s)[i] != c,
    decreases s.len(),
{
    if s.len() > 0 && is_ws(s.last()) {
        assert forall|i: int| 0 <= i < s.drop_last().len() implies s.drop_last()[i] != c by {
            assert(s.drop_last()[i] == s[i]);
        }
        lemma_trim_end_keeps_out(s.drop_last(), c);
        assert(trim_end(s) == trim_end(s.drop_last()));
    } else {
        assert(trim_end(s) == s);
    }
}

/// Before the first space of a text there is no space.
proof fn lemma_no_space_before(s: Seq<char>, k: int)
    requires
        find_char_spec(s, 0, ' ') == Some(k),
    ensures
        0 <= k <= s.len(),
        forall|i: int| 0 <= i < s.take(k).len() ==> s.take(k)[i] != ' ',
{
}

/// A text in which no first space is found holds no space.
proof fn lemma_no_space_anywhere(s: Seq<char>)
    requires
        find_char_spec(s, 0, ' ') is None,
    ensures
        forall|i: int| 0 <= i < s.len() ==> s[i] != ' ',
{
    assert forall|i: int| 0 <= i < s.len() implies s[i] != ' ' by {
        if s[i] == ' ' {
            lemma_first_space(s, i);
        }
    }
}

proof fn lemma_first_space(s: Seq<char>, i: int)
    requires
        0 <= i < s.len(),
        s[i] == ' ',
    ensures
        find_char_spec(s, 0, ' ') is Some,
    decreases i,
{
    if !(forall|j: int| 0 <= j < i ==> s[j] != ' ') {
        let j = choose|j: int| 0 <= j < i && s[j] == ' ';
        lemma_first_space(s, j);
    }
}

/// Each line trimmed and preceded by one space, all run together.
pub open spec fn spaced_lines(ls: Seq<Seq<char>>) -> Seq<char> {
    ls.map_values(|l: Seq<char>| seq![' '] + trim(l)).flatten()
}

/// Once something has been collected, each further line is added trimmed
/// after a single space.
proof fn lemma_join_spaced(acc: Seq<char>, ls: Seq<Seq<char>>)
    requires
        acc.len() > 0,
    ensures
        join_args(acc, ls) == acc + spaced_lines(ls),
    decreases ls.len(),
{
    let m = ls.map_values(|l: Seq<char>| seq![' '] + trim(l));
    if ls.len() == 0 {
        assert(m.len() == 0);
        assert(acc + spaced_lines(ls) =~= acc);
    } else {
        let next = acc.push(' ') + trim(ls[0]);
        lemma_join_spaced(next, ls.skip(1));
        assert(m.drop_first() =~= ls.skip(1).map_values(|l: Seq<char>| seq![' '] + trim(l)));
        assert(m.first() == seq![' '] + trim(ls[0]));
        assert(spaced_lines(ls) == m.first() + spaced_lines(ls.skip(1)));
        assert(next + spaced_lines(ls.skip(1)) =~= acc + (seq![' '] + trim(ls[0]) + spaced_lines(ls.skip(1))));
    }
}

/// Every line of a tool block after the first counts: each one, trimmed, is
/// part of the call's arguments, whether or not the first line has arguments
/// of its own; and the first line's own arguments come first.
pub proof fn law_every_argument_line_counts(inner: Seq<char>)
    requires
        trim(inner).len() > 0,
    ensures
        forall|j: int| 1 <= j < lines_of(trim(inner)).len()
            ==> contains_seq(call_of(inner).1, #[trigger] trim(lines_of(trim(inner))[j])),
        ({
            let first = trim(lines_of(trim(inner))[0]);
            find_char_spec(first, 0, ' ') matches Some(k) ==> starts_with_spec(call_of(inner).1, trim(first.skip(k)))
        }),
        forall|i: int| 0 <= i < call_of(inner).0.len() ==> #[trigger] call_of(inner).0[i] != ' ',
        ({
            let ls = lines_of(trim(inner));
            let first = trim(ls[0]);
            find_char_spec(first, 0, ' ') matches Some(k) ==> (trim(first.skip(k)).len() > 0
                ==> call_of(inner).1 == trim(first.skip(k)) + spaced_lines(ls.skip(1)))
        }),
{
    let ls = lines_of(trim(inner));
    let first = trim(ls[0]);
    assert forall|j: int| 1 <= j < ls.len() implies contains_seq(call_of(inner).1, #[trigger] trim(ls[j])) by {
        assert(ls.skip(1)[j - 1] == ls[j]);
        match find_char_spec(first, 0, ' ') {
            Some(k) => lemma_join_holds_lines(trim(first.skip(k)), ls.skip(1), j - 1),
            None => lemma_join_holds_lines(seq![], ls.skip(1), j - 1),
        }
    }
    match find_char_spec(first, 0, ' ') {
        Some(k) => {
            lemma_join_keeps_prefix(trim(first.skip(k)), ls.skip(1));
            if trim(first.skip(k)).len() > 0 {
                lemma_join_spaced(trim(first.skip(k)), ls.skip(1));
            }
            lemma_no_space_before(first, k);
            lemma_trim_keeps_out(first.take(k), ' ');
        },
        None => {
            lemma_no_space_anywhere(first);
        },
    }
}

/// The calls of a sequence of blocks; blocks holding only white space are skipped.
pub open spec fn calls_of(blocks: Seq<Seq<char>>) -> Seq<(Seq<char>, Seq<char>)>
    decreases blocks.len(),
{
    if blocks.len() == 0 {
        seq![]
    } else {
        let head = if trim(blocks[0]).len() == 0 { seq![] } else { seq![call_of(blocks[0])] };
        head + calls_of(blocks.skip(1))
    }
}

/// The tool calls in a response.
pub open spec fn tool_calls_spec(text: Seq<char>) -> Seq<(Seq<char>, Seq<char>)> {
    calls_of(blocks_from(text, 0))
}

/// `s` from `pos` with its leading white space skipped: the position.
pub open spec fn skip_ws(s: Seq<char>, pos: int) -> int {
    pos + (s.skip(pos).len() - trim_start(s.skip(pos)).len())
}

/// The text from `pos` on with each tool block, and the white space after it, removed.
pub open spec fn strip_from(s: Seq<char>, pos: int) -> Seq<char>
    decreases s.len() + 1 - pos,
{
    match next_block(s, pos) {
        Some((o, c)) => {
            let np = skip_ws(s, c + 7);
            if np <= pos || pos < 0 || np > s.len() || o < pos {
                s.skip(pos)
            } else {
                s.subrange(pos, o) + strip_from(s, np)
            }
        },
        None => s.skip(pos),
    }
}

/// A response with its tool blocks removed, trimmed.
pub open spec fn strip_spec(text: Seq<char>) -> Seq<char> {
    trim(strip_from(text, 0))
}

/// Whether a response holds both an opening and a closing tool tag.
pub open spec fn has_calls_spec(text: Seq<char>) -> bool {
    contains_seq(text, open_tag()) && contains_seq(text, close_tag())
}

fn open_tag_chars() -> (v: Vec<char>)
    ensures
        v@ == open_tag(),
{
    let v = vec!['<', 't', 'o', 'o', 'l', '>'];
    assert(v@ == open_tag());
    v
}

fn close_tag_chars() -> (v: Vec<char>)
    ensures
        v@ == close_tag(),
{
    let v = vec!['<', '/', 't', 'o', 'o', 'l', '>'];
    assert(v@ == close_tag());
    v
}

/// The next block from `pos`: where it opens and closes.
fn find_block(cs: &[char], pos: usize) -> (r: Option<(usize, usize)>)
    ensures
        r matches Some((o, c)) ==> next_block(cs@, pos as int) == Some((o as int, c as int)) && pos <= o
            && o + 6 <= c && c + 7 <= cs@.len(),
        r is None ==> next_block(cs@, pos as int) is None,
{
    reveal(next_block);
    let open = open_tag_chars();
    let close = close_tag_chars();
    assert(open@.len() == 6);
    let n = cs.len();
    assert(n == cs@.len());
    match find_str(cs, pos, open.as_slice()) {
        Some(o) => {
            match find_str(cs, o + 6, close.as_slice()) {
                Some(c) => Some((o, c)),
                None => None,
            }
        },
        None => None,
    }
}

/// Whether a response contains tool invocations.
pub fn has_tool_calls(text: &str) -> (b: bool)
    ensures
        b == has_calls_spec(text@),
{
    let cs = chars_of(text);
    let open = open_tag_chars();
    let close = close_tag_chars();
    contains_chars(&cs, &open) && contains_chars(&cs, &close)
}

proof fn lemma_blocks_step(s: Seq<char>, out: Seq<Vec<char>>, inner: Vec<char>, pos: int, o: int, c: int)
    requires
        0 <= pos <= o,
        o + 6 <= c,
        c + 7 <= s.len(),
        next_block(s, pos) == Some((o, c)),
        inner@ == s.subrange(o + 6, c),
    ensures
        views(out) + blocks_from(s, pos) == views(out.push(inner)) + blocks_from(s, c + 7),
{
    assert(views(out.push(inner)) =~= views(out).push(inner@));
    assert(blocks_from(s, pos) == seq![inner@] + blocks_from(s, c + 7));
    assert(views(out) + blocks_from(s, pos) =~= views(out.push(inner)) + blocks_from(s, c + 7));
}

/// The text inside every tool block, in order.
fn tool_blocks(cs: &[char]) -> (out: Vec<Vec<char>>)
    ensures
        views(out@) == blocks_from(cs@, 0),
{
    let mut out: Vec<Vec<char>> = Vec::new();
    let mut pos: usize = 0;
    let n = cs.len();
    loop
        invariant
            n == cs@.len(),
            pos <= cs@.len() + 1,
            views(out@) + blocks_from(cs@, pos as int) == blocks_from(cs@, 0),
        decreases cs@.len() + 1 - pos,
    {
        match find_block(cs, pos) {
            Some((o, c)) => {
                let inner = copy_range(cs, o + 6, c);
                proof {
                    lemma_blocks_step(cs@, out@, inner, pos as int, o as int, c as int);
                }
                out.push(inner);
                pos = c + 7;
            },
            None => {
                assert(views(out@) + seq![] =~= views(out@));
                return out;
            },
        }
    }
}

/// `join_args` takes one line at a time.
proof fn lemma_join_step(acc: Seq<char>, ls: Seq<Seq<char>>, i: int)
    requires
        0 <= i < ls.len(),
    ensures
        join_args(acc, ls.skip(i)) == join_args(
            if acc.len() > 0 { acc.push(' ') + trim(ls[i]) } else { acc + trim(ls[i]) },
            ls.skip(i + 1),
        ),
{
    assert(ls.skip(i)[0] == ls[i]);
    assert(ls.skip(i).skip(1) =~= ls.skip(i + 1));
}

/// The call written in one block, whose trimmed text is not empty.
fn call_from_block(inner: &[char]) -> (c: ToolCall)
    requires
        trim(inner@).len() > 0,
    ensures
        c@ == call_of(inner@),
{
    let t = trim_chars(inner);
    let ls = split_lines(&t);
    let ghost lv = views(ls@);
    assert(lv.len() > 0);
    let first = trim_chars(&ls[0]);
    let (name, mut acc) = match find_char(&first, 0, ' ') {
        Some(k) => {
            let n = copy_range(&first, 0, k);
            let a = copy_range(&first, k, first.len());
            assert(n@ == first@.take(k as int));
            assert(a@ == first@.skip(k as int));
            (trim_chars(&n), trim_chars(&a))
        },
        None => (first, Vec::new()),
    };
    let ghost a0 = acc@;
    let mut i: usize = 1;
    assert(lv.skip(1) == lv.skip(i as int));
    while i < ls.len()
        invariant
            1 <= i <= ls@.len(),
            lv == views(ls@),
            join_args(acc@, lv.skip(i as int)) == join_args(a0, lv.skip(1)),
        decreases ls@.len() - i,
    {
        proof {
            lemma_join_step(acc@, lv, i as int);
        }
        if acc.len() > 0 {
            acc.push(' ');
        }
        let line = trim_chars(&ls[i]);
        acc = crate::text::concat_chars(&acc, &line);
        i = i + 1;
    }
    assert(lv.skip(i as int).len() == 0);
    ToolCall { name: string_from(&name), args: string_from(&acc) }
}

/// Parse the tool invocations out of a response.
pub fn parse_tool_calls(text: &str) -> (calls: Vec<ToolCall>)
    ensures
        call_views(calls@) == tool_calls_spec(text@),
{
    let cs = chars_of(text);
    let blocks = tool_blocks(&cs);
    let ghost bv = views(blocks@);
    let mut calls: Vec<ToolCall> = Vec::new();
    let mut i: usize = 0;
    assert(bv.skip(0) == bv);
    while i < blocks.len()
        invariant
            0 <= i <= blocks@.len(),
            bv == views(blocks@),
            call_views(calls@) + calls_of(bv.skip(i as int)) == calls_of(bv),
        decreases blocks@.len() - i,
    {
        let inner = &blocks[i];
        assert(bv.skip(i as int)[0] == inner@);
        assert(bv.skip(i as int).skip(1) =~= bv.skip(i + 1));
        let t = trim_chars(inner);
        if t.len() > 0 {
            let c = call_from_block(inner);
            proof {
                assert(call_views(calls@.push(c)) =~= call_views(calls@).push(c@));
                assert(call_views(calls@) + calls_of(bv.skip(i as int)) =~= call_views(calls@.push(c)) + calls_of(bv.skip(i + 1)));
            }
            calls.push(c);
        } else {
            assert(call_views(calls@) + calls_of(bv.skip(i as int)) =~= call_views(calls@) + calls_of(bv.skip(i + 1)));
        }
        i = i + 1;
    }
    assert(bv.skip(i as int).len() == 0);
    assert(call_views(calls@) + seq![] =~= call_views(calls@));
    calls
}

/// The position after the white space that starts at `pos`.
fn skip_white(cs: &[char], pos: usize) -> (r: usize)
    requires
        pos <= cs@.len(),
    ensures
        r == skip_ws(cs@, pos as int),
        pos <= r <= cs@.len(),
{
    let rest = copy_range(cs, pos, cs.len());
    assert(rest@ == cs@.skip(pos as int));
    let k = crate::text::leading_ws(&rest);
    pos + k
}

proof fn lemma_strip_step(s: Seq<char>, out: Seq<char>, pos: int, o: int, c: int, np: int)
    requires
        0 <= pos <= o,
        o + 6 <= c,
        c + 7 <= np <= s.len(),
        np == skip_ws(s, c + 7),
        next_block(s, pos) == Some((o, c)),
        out + strip_from(s, pos) == strip_from(s, 0),
    ensures
        (out + s.subrange(pos, o)) + strip_from(s, np) == strip_from(s, 0),
{
    assert(strip_from(s, pos) == s.subrange(pos, o) + strip_from(s, np));
    assert(out + strip_from(s, pos) =~= (out + s.subrange(pos, o)) + strip_from(s, np));
}

/// Remove tool blocks from a response, leaving its plain text.
pub fn strip_tool_blocks(text: &str) -> (r: String)
    ensures
        r@ == strip_spec(text@),
{
    let cs = chars_of(text);
    let mut out: Vec<char> = Vec::new();
    let mut pos: usize = 0;
    let n = cs.len();
    loop
        invariant_except_break
            n == cs@.len(),
            pos <= cs@.len(),
            out@ + strip_from(cs@, pos as int) == strip_from(cs@, 0),
        ensures
            out@ == strip_from(cs@, 0),
        decreases cs@.len() + 1 - pos,
    {
        match find_block(cs.as_slice(), pos) {
            Some((o, c)) => {
                let before = copy_range(&cs, pos, o);
                let next = skip_white(&cs, c + 7);
                let ghost old_out = out@;
                out = crate::text::concat_chars(&out, &before);
                proof {
                    lemma_strip_step(cs@, old_out, pos as int, o as int, c as int, next as int);
                }
                pos = next;
            },
            None => {
                let rest = copy_range(&cs, pos, cs.len());
                out = crate::text::concat_chars(&out, &rest);
                assert(rest@ == cs@.skip(pos as int));
                break;
            },
        }
    }
    let t = trim_chars(&out);
    string_from(&t)
}

/// A response from which a tool call is parsed is one that is detected as
/// holding tool calls.
pub proof fn law_parsed_calls_are_detected(text: Seq<char>)
    ensures
        tool_calls_spec(text).len() > 0 ==> has_calls_spec(text),
{
    let b = blocks_from(text, 0);
    if tool_calls_spec(text).len() > 0 {
        if b.len() == 0 {
            assert(calls_of(b).len() == 0);
        }
        reveal(next_block);
        match find_str_spec(text, 0, open_tag()) {
            Some(o) => {
                assert(occurs_at(text, open_tag(), o));
                match find_str_spec(text, o + 6, close_tag()) {
                    Some(c) => {
                        assert(occurs_at(text, close_tag(), c));
                    },
                    None => {
                        assert(next_block(text, 0) is None);
                        assert(b.len() == 0);
                    },
                }
            },
            None => {
                assert(next_block(text, 0) is None);
                assert(b.len() == 0);
            },
        }
    }
}

} // verus!
