//! Character-level text utilities with specifications over `Seq<char>`.
//!
//! Strings are handled as sequences of Unicode scalar values; the specs here
//! state what std's `trim`, `lines`, `find` and friends compute, and the
//! executable functions are proved against them.

use vstd::prelude::*;

verus! {

/// Unicode `White_Space`: the characters for which `char::is_whitespace` holds.
pub open spec fn is_ws(c: char) -> bool {
    let u = c as u32;
    ||| 0x09 <= u <= 0x0D
    ||| u == 0x20
    ||| u == 0x85
    ||| u == 0xA0
    ||| u == 0x1680
    ||| 0x2000 <= u <= 0x200A
    ||| u == 0x2028
    ||| u == 0x2029
    ||| u == 0x202F
    ||| u == 0x205F
    ||| u == 0x3000
}

/// Whether `c` is white space in the sense of [`is_ws`].
pub fn is_whitespace(c: char) -> (b: bool)
    ensures
        b == is_ws(c),
{
    let u = c as u32;
    (0x09 <= u && u <= 0x0D) || u == 0x20 || u == 0x85 || u == 0xA0 || u == 0x1680 || (0x2000
        <= u && u <= 0x200A) || u == 0x2028 || u == 0x2029 || u == 0x202F || u == 0x205F || u
        == 0x3000
}

/// The first index `i >= start` with `s[i] == t`, if there is one.
pub open spec fn find_char_spec(s: Seq<char>, start: int, t: char) -> Option<int> {
    if exists|i: int| start <= i < s.len() && s[i] == t && forall|j: int| start <= j < i ==> s[j] != t {
        Some(choose|i: int| start <= i < s.len() && s[i] == t && forall|j: int| start <= j < i ==> s[j] != t)
    } else {
        None
    }
}

/// Whether `t` occurs in `s` at position `i`.
pub open spec fn occurs_at(s: Seq<char>, t: Seq<char>, i: int) -> bool {
    0 <= i && i + t.len() <= s.len() && s.subrange(i, i + t.len()) == t
}

/// The first position `i >= start` at which a non-empty `t` occurs in `s`, if there is
/// one; an empty `t` is never found.
pub open spec fn find_str_spec(s: Seq<char>, start: int, t: Seq<char>) -> Option<int> {
    if t.len() == 0 {
        None
    } else if exists|i: int| start <= i && occurs_at(s, t, i) && forall|j: int| start <= j < i ==> !occurs_at(s, t, j) {
        Some(choose|i: int| start <= i && occurs_at(s, t, i) && forall|j: int| start <= j < i ==> !occurs_at(s, t, j))
    } else {
        None
    }
}

/// Whether `t` occurs anywhere in `s` (std's `str::contains`).
pub open spec fn contains_seq(s: Seq<char>, t: Seq<char>) -> bool {
    exists|i: int| occurs_at(s, t, i)
}

/// Whether `s` begins with `p` (std's `str::starts_with`).
pub open spec fn starts_with_spec(s: Seq<char>, p: Seq<char>) -> bool {
    p.len() <= s.len() && s.take(p.len() as int) == p
}

/// `s` without its leading white space (std's `str::trim_start`).
pub open spec fn trim_start(s: Seq<char>) -> Seq<char>
    decreases s.len(),
{
    if s.len() > 0 && is_ws(s[0]) {
        trim_start(s.drop_first())
    } else {
        s
    }
}

/// `s` without its trailing white space (std's `str::trim_end`).
pub open spec fn trim_end(s: Seq<char>) -> Seq<char>
    decreases s.len(),
{
    if s.len() > 0 && is_ws(s.last()) {
        trim_end(s.drop_last())
    } else {
        s
    }
}

/// `s` without leading and trailing white space (std's `str::trim`).
pub open spec fn trim(s: Seq<char>) -> Seq<char> {
    trim_end(trim_start(s))
}

/// A line without the carriage return of a `\r\n` terminator.
pub open spec fn strip_cr(line: Seq<char>) -> Seq<char> {
    if line.len() > 0 && line.last() == '\r' {
        line.drop_last()
    } else {
        line
    }
}

/// The lines of `s` (std's `str::lines`): split at `\n`, a `\r` before the
/// `\n` is dropped, and a final line terminator does not start an empty line.
pub open spec fn lines_of(s: Seq<char>) -> Seq<Seq<char>>
    decreases s.len(),
{
    if s.len() == 0 {
        seq![]
    } else {
        match find_char_spec(s, 0, '\n') {
            Some(i) => seq![strip_cr(s.take(i))] + lines_of(s.skip(i + 1)),
            None => seq![s],
        }
    }
}

/// The views of a sequence of character vectors.
pub open spec fn views(v: Seq<Vec<char>>) -> Seq<Seq<char>> {
    v.map_values(|l: Vec<char>| l@)
}

/// The views of a sequence of strings.
pub open spec fn string_views(v: Seq<String>) -> Seq<Seq<char>> {
    v.map_values(|l: String| l@)
}

/// Append one character to a string (std's `String::push`).
#[verifier::external_body]
pub(crate) fn push_char(s: &mut String, c: char)
    ensures
        final(s)@ == old(s)@.push(c),
{
    s.push(c);
}

/// The characters of a string slice, in order.
pub fn chars_of(s: &str) -> (v: Vec<char>)
    ensures
        v@ == s@,
{
    let mut v: Vec<char> = Vec::new();
    for c in it: s.chars()
        invariant
            v@ == it.seq().take(it.index() as int),
    {
        v.push(c);
    }
    v
}

/// Append characters to a string.
pub fn push_chars(s: &mut String, cs: &[char])
    ensures
        final(s)@ == old(s)@ + cs@,
{
    let mut i: usize = 0;
    while i < cs.len()
        invariant
            0 <= i <= cs@.len(),
            s@ == old(s)@ + cs@.take(i as int),
        decreases cs@.len() - i,
    {
        push_char(s, cs[i]);
        i = i + 1;
        assert(cs@.take(i as int) == cs@.take(i - 1).push(cs@[i - 1]));
    }
    assert(cs@.take(cs@.len() as int) == cs@);
}

/// A string made of the given characters.
pub fn string_from(cs: &[char]) -> (s: String)
    ensures
        s@ == cs@,
{
    let mut s = String::new();
    push_chars(&mut s, cs);
    s
}

/// A copy of `cs[lo..hi]`.
pub fn copy_range(cs: &[char], lo: usize, hi: usize) -> (v: Vec<char>)
    requires
        lo <= hi <= cs@.len(),
    ensures
        v@ == cs@.subrange(lo as int, hi as int),
{
    let mut v: Vec<char> = Vec::new();
    let mut i = lo;
    while i < hi
        invariant
            lo <= i <= hi <= cs@.len(),
            v@ == cs@.subrange(lo as int, i as int),
        decreases hi - i,
    {
        v.push(cs[i]);
        i = i + 1;
    }
    v
}

/// Concatenate two character vectors.
pub fn concat_chars(a: &[char], b: &[char]) -> (v: Vec<char>)
    ensures
        v@ == a@ + b@,
{
    let mut v = copy_range(a, 0, a.len());
    let mut i: usize = 0;
    while i < b.len()
        invariant
            0 <= i <= b@.len(),
            v@ == a@ + b@.take(i as int),
        decreases b@.len() - i,
    {
        v.push(b[i]);
        i = i + 1;
        assert(b@.take(i as int) == b@.take(i - 1).push(b@[i - 1]));
    }
    assert(b@.take(b@.len() as int) == b@);
    v
}

/// The first index `i >= start` with `cs[i] == t`.
pub fn find_char(cs: &[char], start: usize, t: char) -> (r: Option<usize>)
    ensures
        r matches Some(i) ==> find_char_spec(cs@, start as int, t) == Some(i as int),
        r matches Some(i) ==> start <= i < cs@.len() && cs@[i as int] == t,
        r is None ==> find_char_spec(cs@, start as int, t) is None,
{
    let mut i = start;
    while i < cs.len()
        invariant
            start <= i,
            forall|j: int| start <= j < i && j < cs@.len() ==> cs@[j] != t,
        decreases cs@.len() - i,
    {
        if cs[i] == t {
            let ghost w = i as int;
            assert(start <= w < cs@.len() && cs@[w] == t && forall|j: int| start <= j < w ==> cs@[j] != t);
            let ghost k = choose|k: int| start <= k < cs@.len() && cs@[k] == t && forall|j: int| start <= j < k ==> cs@[j] != t;
            assert(k == w) by {
                if k < w {
                    assert(cs@[k] != t);
                } else if k > w {
                    assert(cs@[w] != t);
                }
            }
            return Some(i);
        }
        i = i + 1;
    }
    assert(!exists|k: int| start <= k < cs@.len() && cs@[k] == t && forall|j: int| start <= j < k ==> cs@[j] != t);
    None
}

/// Whether `t` occurs in `cs` at position `i`.
pub fn occurs_at_exec(cs: &[char], t: &[char], i: usize) -> (b: bool)
    ensures
        b == occurs_at(cs@, t@, i as int),
{
    if i > cs.len() || t.len() > cs.len() - i {
        return false;
    }
    let n = cs.len();
    let mut k: usize = 0;
    while k < t.len()
        invariant
            n == cs@.len(),
            i + t@.len() <= cs@.len(),
            0 <= k <= t@.len(),
            forall|j: int| 0 <= j < k ==> cs@[i + j] == t@[j],
        decreases t@.len() - k,
    {
        assert(i + k < cs@.len());
        if cs[i + k] != t[k] {
            assert(cs@.subrange(i as int, i + t@.len())[k as int] != t@[k as int]);
            return false;
        }
        k = k + 1;
    }
    assert(cs@.subrange(i as int, i + t@.len()) =~= t@);
    true
}

/// The first position `i >= start` at which `t` occurs in `cs`; `None` for an empty `t`.
pub fn find_str(cs: &[char], start: usize, t: &[char]) -> (r: Option<usize>)
    ensures
        t@.len() == 0 ==> r is None,
        r matches Some(i) ==> find_str_spec(cs@, start as int, t@) == Some(i as int),
        r matches Some(i) ==> start <= i && occurs_at(cs@, t@, i as int),
        r is None ==> find_str_spec(cs@, start as int, t@) is None,
{
    if t.len() == 0 {
        return None;
    }
    let mut i = start;
    loop
        invariant
            start <= i,
            t@.len() > 0,
            forall|j: int| start <= j < i ==> !occurs_at(cs@, t@, j),
        ensures
            start <= i,
            cs@.len() <= i,
            forall|j: int| start <= j <= i ==> !occurs_at(cs@, t@, j),
        decreases cs@.len() + 1 - i,
    {
        if occurs_at_exec(cs, t, i) {
            let ghost w = i as int;
            let ghost k = choose|k: int| start <= k && occurs_at(cs@, t@, k) && forall|j: int| start <= j < k ==> !occurs_at(cs@, t@, j);
            assert(start <= w && occurs_at(cs@, t@, w) && forall|j: int| start <= j < w ==> !occurs_at(cs@, t@, j));
            assert(k == w) by {
                if k < w {
                    assert(!occurs_at(cs@, t@, k));
                } else if k > w {
                    assert(!occurs_at(cs@, t@, w));
                }
            }
            return Some(i);
        }
        if i >= cs.len() {
            break;
        }
        i = i + 1;
    }
    assert forall|k: int| start <= k && occurs_at(cs@, t@, k) implies exists|j: int| start <= j < k && occurs_at(cs@, t@, j) by {
        assert(k <= i);
    }
    None
}

/// Whether `t` occurs anywhere in `cs`.
pub fn contains_chars(cs: &[char], t: &[char]) -> (b: bool)
    ensures
        b == contains_seq(cs@, t@),
{
    if t.len() == 0 {
        assert(occurs_at(cs@, t@, 0)) by {
            assert(cs@.subrange(0, 0) =~= t@);
        }
        return true;
    }
    match find_str(cs, 0, t) {
        Some(i) => {
            assert(occurs_at(cs@, t@, i as int));
            true
        },
        None => {
            assert forall|k: int| !occurs_at(cs@, t@, k) by {
                if occurs_at(cs@, t@, k) {
                    lemma_first_occurrence(cs@, t@, 0, k);
                }
            }
            false
        },
    }
}

/// Whether `cs` begins with `p`.
pub fn starts_with(cs: &[char], p: &[char]) -> (b: bool)
    ensures
        b == starts_with_spec(cs@, p@),
{
    if p.len() > cs.len() {
        return false;
    }
    let r = occurs_at_exec(cs, p, 0);
    assert(cs@.subrange(0, p@.len() as int) == cs@.take(p@.len() as int));
    r
}

/// If `t` occurs at some `k >= start`, a first such position exists.
pub proof fn lemma_first_occurrence(s: Seq<char>, t: Seq<char>, start: int, k: int)
    requires
        start <= k,
        t.len() > 0,
        occurs_at(s, t, k),
    ensures
        find_str_spec(s, start, t) is Some,
    decreases k - start,
{
    if forall|j: int| start <= j < k ==> !occurs_at(s, t, j) {
        assert(start <= k && occurs_at(s, t, k) && forall|j: int| start <= j < k ==> !occurs_at(s, t, j));
    } else {
        let j = choose|j: int| start <= j < k && occurs_at(s, t, j);
        lemma_first_occurrence(s, t, start, j);
    }
}

/// Leading white space of length `k` is what `trim_start` removes.
pub proof fn lemma_trim_start_skip(s: Seq<char>, k: int)
    requires
        0 <= k <= s.len(),
        forall|j: int| 0 <= j < k ==> is_ws(s[j]),
        k == s.len() || !is_ws(s[k]),
    ensures
        trim_start(s) == s.skip(k),
    decreases k,
{
    if k == 0 {
        assert(s.skip(0) == s);
    } else {
        lemma_trim_start_skip(s.drop_first(), k - 1);
        assert(s.drop_first().skip(k - 1) == s.skip(k));
    }
}

/// Trailing white space from `k` on is what `trim_end` removes.
pub proof fn lemma_trim_end_take(s: Seq<char>, k: int)
    requires
        0 <= k <= s.len(),
        forall|j: int| k <= j < s.len() ==> is_ws(s[j]),
        k == 0 || !is_ws(s[k - 1]),
    ensures
        trim_end(s) == s.take(k),
    decreases s.len() - k,
{
    if k == s.len() {
        assert(s.take(k) == s);
    } else {
        lemma_trim_end_take(s.drop_last(), k);
        assert(s.drop_last().take(k) == s.take(k));
    }
}

/// The number of leading white-space characters of `cs`.
pub fn leading_ws(cs: &[char]) -> (k: usize)
    ensures
        k <= cs@.len(),
        trim_start(cs@) == cs@.skip(k as int),
        forall|j: int| 0 <= j < k ==> is_ws(cs@[j]),
        k == cs@.len() || !is_ws(cs@[k as int]),
{
    let mut k: usize = 0;
    while k < cs.len() && is_whitespace(cs[k])
        invariant
            k <= cs@.len(),
            forall|j: int| 0 <= j < k ==> is_ws(cs@[j]),
        decreases cs@.len() - k,
    {
        k = k + 1;
    }
    proof {
        lemma_trim_start_skip(cs@, k as int);
    }
    k
}

/// `cs` without leading white space.
pub fn trim_start_chars(cs: &[char]) -> (v: Vec<char>)
    ensures
        v@ == trim_start(cs@),
{
    let k = leading_ws(cs);
    copy_range(cs, k, cs.len())
}

/// `cs` without trailing white space.
pub fn trim_end_chars(cs: &[char]) -> (v: Vec<char>)
    ensures
        v@ == trim_end(cs@),
{
    let mut k = cs.len();
    while k > 0 && is_whitespace(cs[k - 1])
        invariant
            k <= cs@.len(),
            forall|j: int| k <= j < cs@.len() ==> is_ws(cs@[j]),
        decreases k,
    {
        k = k - 1;
    }
    proof {
        lemma_trim_end_take(cs@, k as int);
    }
    copy_range(cs, 0, k)
}

/// `cs` without leading and trailing white space.
pub fn trim_chars(cs: &[char]) -> (v: Vec<char>)
    ensures
        v@ == trim(cs@),
{
    let a = trim_start_chars(cs);
    trim_end_chars(&a)
}

/// `s` with leading and trailing white space removed, as a new string.
pub fn trim_str(s: &str) -> (r: String)
    ensures
        r@ == trim(s@),
{
    let cs = chars_of(s);
    let t = trim_chars(&cs);
    string_from(&t)
}

/// Lines of `s.skip(start)` when `s[start..i]` holds no line feed and `i` is one.
proof fn lemma_lines_step(s: Seq<char>, start: int, i: int)
    requires
        0 <= start <= i < s.len(),
        s[i] == '\n',
        forall|j: int| start <= j < i ==> s[j] != '\n',
    ensures
        lines_of(s.skip(start)) == seq![strip_cr(s.subrange(start, i))] + lines_of(s.skip(i + 1)),
{
    let r = s.skip(start);
    let w = i - start;
    assert(0 <= w < r.len() && r[w] == '\n' && forall|j: int| 0 <= j < w ==> r[j] != '\n');
    let k = choose|k: int| 0 <= k < r.len() && r[k] == '\n' && forall|j: int| 0 <= j < k ==> r[j] != '\n';
    assert(k == w) by {
        if k < w {
            assert(r[k] != '\n');
        } else if k > w {
            assert(r[w] != '\n');
        }
    }
    assert(r.take(w) == s.subrange(start, i));
    assert(r.skip(w + 1) == s.skip(i + 1));
}

proof fn lemma_views_push(v: Seq<Vec<char>>, x: Vec<char>)
    ensures
        views(v.push(x)) == views(v).push(x@),
{
    assert(views(v.push(x)) =~= views(v).push(x@));
}

/// The last line: `s.skip(start)` holds no line feed.
proof fn lemma_lines_last(s: Seq<char>, start: int)
    requires
        0 <= start < s.len(),
        forall|j: int| start <= j < s.len() ==> s[j] != '\n',
    ensures
        lines_of(s.skip(start)) == seq![s.skip(start)],
{
    let r = s.skip(start);
    if exists|k: int| 0 <= k < r.len() && r[k] == '\n' && forall|j: int| 0 <= j < k ==> r[j] != '\n' {
        let k = choose|k: int| 0 <= k < r.len() && r[k] == '\n' && forall|j: int| 0 <= j < k ==> r[j] != '\n';
        assert(s[start + k] == '\n');
    }
}

proof fn lemma_split_step(s: Seq<char>, out: Seq<Vec<char>>, line: Vec<char>, start: int, i: int)
    requires
        0 <= start <= i < s.len(),
        s[i] == '\n',
        forall|j: int| start <= j < i ==> s[j] != '\n',
        views(out) + lines_of(s.skip(start)) == lines_of(s),
        line@ == strip_cr(s.subrange(start, i)),
    ensures
        views(out.push(line)) + lines_of(s.skip(i + 1)) == lines_of(s),
{
    lemma_lines_step(s, start, i);
    lemma_views_push(out, line);
    assert(views(out) + lines_of(s.skip(start)) =~= views(out).push(line@) + lines_of(s.skip(i + 1)));
}

/// The lines of `cs` (std's `str::lines`).
pub fn split_lines(cs: &[char]) -> (out: Vec<Vec<char>>)
    ensures
        views(out@) == lines_of(cs@),
{
    let mut out: Vec<Vec<char>> = Vec::new();
    let mut start: usize = 0;
    let mut i: usize = 0;
    assert(cs@.skip(0) == cs@);
    while i < cs.len()
        invariant
            start <= i <= cs@.len(),
            forall|j: int| start <= j < i ==> cs@[j] != '\n',
            views(out@) + lines_of(cs@.skip(start as int)) == lines_of(cs@),
        decreases cs@.len() - i,
    {
        if cs[i] == '\n' {
            let mut line = copy_range(cs, start, i);
            if line.len() > 0 && line[line.len() - 1] == '\r' {
                line.pop();
            }
            proof {
                lemma_split_step(cs@, out@, line, start as int, i as int);
            }
            out.push(line);
            start = i + 1;
        }
        i = i + 1;
    }
    if start < cs.len() {
        let rest = copy_range(cs, start, cs.len());
        proof {
            lemma_lines_last(cs@, start as int);
            lemma_views_push(out@, rest);
            assert(rest@ == cs@.skip(start as int));
        }
        out.push(rest);
    } else {
        assert(cs@.skip(start as int).len() == 0);
        assert(views(out@) + seq![] == views(out@));
    }
    out
}

/// Lexicographic order on character sequences, by code point.  For strings
/// this is the order of std's `String` comparison, since UTF-8 encoding keeps
/// the order of code points.
pub open spec fn lex_lt(a: Seq<char>, b: Seq<char>) -> bool
    decreases a.len(),
{
    if a.len() == 0 {
        b.len() > 0
    } else if b.len() == 0 {
        false
    } else if a[0] != b[0] {
        a[0] < b[0]
    } else {
        lex_lt(a.drop_first(), b.drop_first())
    }
}

/// No sequence precedes itself.
pub proof fn lemma_lex_irreflexive(a: Seq<char>)
    ensures
        !lex_lt(a, a),
    decreases a.len(),
{
    if a.len() > 0 {
        lemma_lex_irreflexive(a.drop_first());
    }
}

/// Lexicographic order is transitive.
pub proof fn lemma_lex_transitive(a: Seq<char>, b: Seq<char>, c: Seq<char>)
    requires
        lex_lt(a, b),
        lex_lt(b, c),
    ensures
        lex_lt(a, c),
    decreases a.len(),
{
    if a.len() > 0 && b.len() > 0 && c.len() > 0 && a[0] == b[0] && b[0] == c[0] {
        lemma_lex_transitive(a.drop_first(), b.drop_first(), c.drop_first());
    }
}

/// Of two different sequences, one precedes the other.
pub proof fn lemma_lex_total(a: Seq<char>, b: Seq<char>)
    requires
        a != b,
    ensures
        lex_lt(a, b) || lex_lt(b, a),
    decreases a.len(),
{
    if a.len() > 0 && b.len() > 0 && a[0] == b[0] {
        if a.drop_first() == b.drop_first() {
            assert(a =~= seq![a[0]] + a.drop_first());
            assert(b =~= seq![b[0]] + b.drop_first());
        }
        lemma_lex_total(a.drop_first(), b.drop_first());
    } else if a.len() == 0 && b.len() == 0 {
        assert(a =~= b);
    }
}

/// Whether `a` precedes `b` lexicographically.
pub fn lex_less(a: &[char], b: &[char]) -> (r: bool)
    ensures
        r == lex_lt(a@, b@),
{
    let mut i: usize = 0;
    assert(a@.skip(0) == a@ && b@.skip(0) == b@);
    while i < a.len() && i < b.len() && a[i] == b[i]
        invariant
            i <= a@.len(),
            i <= b@.len(),
            a@.take(i as int) == b@.take(i as int),
            lex_lt(a@, b@) == lex_lt(a@.skip(i as int), b@.skip(i as int)),
        decreases a@.len() - i,
    {
        proof {
            let sa = a@.skip(i as int);
            let sb = b@.skip(i as int);
            assert(sa.drop_first() =~= a@.skip(i + 1));
            assert(sb.drop_first() =~= b@.skip(i + 1));
            assert(a@.take(i + 1) =~= a@.take(i as int).push(a@[i as int]));
            assert(b@.take(i + 1) =~= b@.take(i as int).push(b@[i as int]));
        }
        i = i + 1;
    }
    let ghost sa = a@.skip(i as int);
    let ghost sb = b@.skip(i as int);
    if i == a.len() {
        i < b.len()
    } else if i == b.len() {
        false
    } else {
        assert(sa[0] == a@[i as int] && sb[0] == b@[i as int]);
        a[i] < b[i]
    }
}

/// Pieces of `s` between occurrences of `c` (std's `str::split` on a character).
pub open spec fn split_on(s: Seq<char>, c: char) -> Seq<Seq<char>>
    decreases s.len(),
{
    match find_char_spec(s, 0, c) {
        Some(i) => if 0 <= i < s.len() {
            seq![s.take(i)] + split_on(s.skip(i + 1), c)
        } else {
            seq![s]
        },
        None => seq![s],
    }
}

/// Every piece trimmed.
pub open spec fn trim_all(v: Seq<Seq<char>>) -> Seq<Seq<char>> {
    v.map_values(|x: Seq<char>| trim(x))
}

/// The pieces of `cs` between occurrences of `c`.
pub fn split_chars(cs: &[char], c: char) -> (out: Vec<Vec<char>>)
    ensures
        views(out@) == split_on(cs@, c),
{
    let mut out: Vec<Vec<char>> = Vec::new();
    let mut start: usize = 0;
    let n = cs.len();
    assert(cs@.skip(0) == cs@);
    loop
        invariant
            n == cs@.len(),
            start <= n,
            views(out@) + split_on(cs@.skip(start as int), c) == split_on(cs@, c),
        decreases n - start,
    {
        let rest = copy_range(cs, start, n);
        assert(rest@ == cs@.skip(start as int));
        match find_char(&rest, 0, c) {
            Some(i) => {
                let piece = copy_range(&rest, 0, i);
                proof {
                    assert(piece@ == rest@.take(i as int));
                    assert(rest@.skip(i + 1) =~= cs@.skip(start + i + 1));
                    assert(views(out@.push(piece)) =~= views(out@).push(piece@));
                    assert(views(out@) + split_on(cs@.skip(start as int), c) =~= views(out@.push(piece)) + split_on(cs@.skip(start + i + 1), c));
                }
                out.push(piece);
                start = start + i + 1;
            },
            None => {
                proof {
                    assert(views(out@.push(rest)) =~= views(out@).push(rest@));
                }
                out.push(rest);
                return out;
            },
        }
    }
}

/// Trim every piece.
pub fn trim_each(v: &Vec<Vec<char>>) -> (out: Vec<String>)
    ensures
        string_views(out@) == trim_all(views(v@)),
{
    let mut out: Vec<String> = Vec::new();
    let mut i: usize = 0;
    while i < v.len()
        invariant
            0 <= i <= v@.len(),
            string_views(out@) == trim_all(views(v@)).take(i as int),
        decreases v@.len() - i,
    {
        let t = trim_chars(&v[i]);
        let st = string_from(&t);
        proof {
            assert(views(v@)[i as int] == v@[i as int]@);
            assert(string_views(out@.push(st)) =~= string_views(out@).push(st@));
            assert(trim_all(views(v@)).take(i + 1) =~= trim_all(views(v@)).take(i as int).push(trim(views(v@)[i as int])));
        }
        out.push(st);
        i = i + 1;
    }
    assert(trim_all(views(v@)).take(v@.len() as int) =~= trim_all(views(v@)));
    out
}

/// Whether two character sequences are equal.
pub fn eq_chars(a: &[char], b: &[char]) -> (r: bool)
    ensures
        r == (a@ == b@),
{
    if a.len() != b.len() {
        return false;
    }
    let mut i: usize = 0;
    while i < a.len()
        invariant
            a@.len() == b@.len(),
            0 <= i <= a@.len(),
            forall|j: int| 0 <= j < i ==> a@[j] == b@[j],
        decreases a@.len() - i,
    {
        if a[i] != b[i] {
            return false;
        }
        i = i + 1;
    }
    assert(a@ =~= b@);
    true
}

/// Whether two strings are equal.
pub fn eq_str(a: &str, b: &str) -> (r: bool)
    ensures
        r == (a@ == b@),
{
    let x = chars_of(a);
    let y = chars_of(b);
    eq_chars(&x, &y)
}

/// The decimal digit for `d < 10`.
pub open spec fn digit_char(d: nat) -> char {
    seq!['0', '1', '2', '3', '4', '5', '6', '7', '8', '9'][d as int]
}

/// The decimal representation of `n` (std's `Display` for integers).
pub open spec fn decimal(n: nat) -> Seq<char>
    decreases n,
{
    if n < 10 {
        seq![digit_char(n)]
    } else {
        decimal(n / 10).push(digit_char(n % 10))
    }
}

/// The decimal representation of a signed number.
pub open spec fn decimal_signed(n: int) -> Seq<char> {
    if n < 0 {
        seq!['-'] + decimal((-n) as nat)
    } else {
        decimal(n as nat)
    }
}

fn digit(d: u64) -> (c: char)
    requires
        d < 10,
    ensures
        c == digit_char(d as nat),
{
    let ds = ['0', '1', '2', '3', '4', '5', '6', '7', '8', '9'];
    assert(ds@ == seq!['0', '1', '2', '3', '4', '5', '6', '7', '8', '9']);
    ds[d as usize]
}

/// Append the decimal representation of `n`.
pub fn push_decimal(s: &mut String, n: u64)
    ensures
        final(s)@ == old(s)@ + decimal(n as nat),
    decreases n,
{
    if n >= 10 {
        push_decimal(s, n / 10);
    }
    push_char(s, digit(n % 10));
}

/// Append the decimal representation of a signed number.
pub fn push_decimal_signed(s: &mut String, n: i64)
    ensures
        final(s)@ == old(s)@ + decimal_signed(n as int),
{
    if n < 0 {
        push_char(s, '-');
        let m: u64 = if n == i64::MIN { 9223372036854775808u64 } else { (-n) as u64 };
        push_decimal(s, m);
    } else {
        push_decimal(s, n as u64);
    }
}

/// The first white-space position in `t`, or its length.
pub open spec fn first_ws(t: Seq<char>) -> int {
    if exists|i: int| 0 <= i < t.len() && is_ws(t[i]) && forall|j: int| 0 <= j < i ==> !is_ws(t[j]) {
        choose|i: int| 0 <= i < t.len() && is_ws(t[i]) && forall|j: int| 0 <= j < i ==> !is_ws(t[j])
    } else {
        t.len() as int
    }
}

/// The words of `s`: its maximal runs of characters other than white space
/// (std's `str::split_whitespace`).
pub open spec fn words(s: Seq<char>) -> Seq<Seq<char>>
    decreases s.len(),
{
    let t = trim_start(s);
    let k = first_ws(t);
    if t.len() == 0 || t.len() > s.len() || k <= 0 || k > t.len() {
        seq![]
    } else {
        seq![t.take(k)] + words(t.skip(k))
    }
}

/// The words of `cs`.
pub fn split_words(cs: &[char]) -> (out: Vec<Vec<char>>)
    ensures
        views(out@) == words(cs@),
{
    let n = cs.len();
    let mut out: Vec<Vec<char>> = Vec::new();
    let mut pos: usize = 0;
    assert(cs@.skip(0) == cs@);
    loop
        invariant
            n == cs@.len(),
            pos <= n,
            views(out@) + words(cs@.skip(pos as int)) == words(cs@),
        decreases n - pos,
    {
        let rest = copy_range(cs, pos, n);
        assert(rest@ == cs@.skip(pos as int));
        let k = leading_ws(&rest);
        let start = pos + k;
        if start == n {
            proof {
                assert(trim_start(rest@).len() == 0);
                assert(views(out@) + seq![] =~= views(out@));
            }
            return out;
        }
        let mut e = start;
        while e < n && !is_whitespace(cs[e])
            invariant
                n == cs@.len(),
                start <= e <= n,
                forall|j: int| start <= j < e ==> !is_ws(cs@[j]),
            decreases n - e,
        {
            e = e + 1;
        }
        let word = copy_range(cs, start, e);
        proof {
            let t = trim_start(rest@);
            assert(t =~= cs@.skip(start as int));
            assert(!is_ws(cs@[start as int]));
            let w = e - start;
            assert(first_ws(t) == w) by {
                if exists|i: int| 0 <= i < t.len() && is_ws(t[i]) && forall|j: int| 0 <= j < i ==> !is_ws(t[j]) {
                    let c = choose|i: int| 0 <= i < t.len() && is_ws(t[i]) && forall|j: int| 0 <= j < i ==> !is_ws(t[j]);
                    if c < w {
                        assert(!is_ws(cs@[start + c]));
                    }
                    if c > w {
                        assert(is_ws(t[w]));
                    }
                } else if e < n {
                    assert(0 <= w < t.len() && is_ws(t[w]) && forall|j: int| 0 <= j < w ==> !is_ws(t[j]));
                }
            }
            assert(t.take(w) =~= word@);
            assert(t.skip(w) =~= cs@.skip(e as int));
            assert(words(rest@) == seq![word@] + words(cs@.skip(e as int)));
            assert(views(out@.push(word)) =~= views(out@).push(word@));
            assert(views(out@) + words(cs@.skip(pos as int)) =~= views(out@.push(word)) + words(cs@.skip(e as int)));
        }
        out.push(word);
        pos = e;
    }
}

/// What std's `str::to_lowercase` gives.
pub uninterp spec fn lowercase(s: Seq<char>) -> Seq<char>;

/// The lower-case form of `s` (std's `str::to_lowercase`); the contract
/// claims only that it is a function of `s`.
#[verifier::external_body]
pub(crate) fn to_lowercase(s: &str) -> (r: String)
    ensures
        r@ == lowercase(s@),
{
    s.to_lowercase()
}

/// The text of an optional string, empty when absent.
pub open spec fn opt_text(o: Option<String>) -> Seq<char> {
    match o {
        Some(s) => s@,
        None => seq![],
    }
}

/// The text of an optional string, or `d` when absent.
pub open spec fn opt_or(o: Option<String>, d: Seq<char>) -> Seq<char> {
    match o {
        Some(s) => s@,
        None => d,
    }
}

/// Append an optional string, or `d` when it is absent.
pub fn push_opt_or(s: &mut String, o: &Option<String>, d: &str)
    ensures
        final(s)@ == old(s)@ + opt_or(*o, d@),
{
    match o {
        Some(x) => s.append(x.as_str()),
        None => s.append(d),
    }
}

} // verus!
