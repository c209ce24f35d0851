//! The `search_news` tool: keyword search over the reader's entries, and the
//! text the assistant is given for its results.

use vstd::prelude::*;
use crate::text::{
    occurs_at, chars_of, contains_chars, contains_seq, decimal, lowercase, opt_or, opt_text, push_decimal,
    push_opt_or, split_words, string_from, to_lowercase, views, words,
};
use crate::types::Entry;

verus! {

/// The text searched in an entry: its title, summary and content, each
/// lower-cased, separated by spaces. This is the lower-case form of the three
/// joined by spaces: std's `to_lowercase` maps each character alone but for a
/// capital sigma, whose form depends on whether a cased letter is next to it
/// (reached over case-ignorable characters only), and a space is neither.
pub open spec fn haystack(e: Entry) -> Seq<char> {
    lowercase(opt_text(e.title)) + seq![' '] + lowercase(opt_text(e.summary)) + seq![' '] + lowercase(opt_text(e.content))
}

/// How many of the terms (counted with repetition) occur in `h`.
pub open spec fn hits(terms: Seq<Seq<char>>, h: Seq<char>) -> nat
    decreases terms.len(),
{
    if terms.len() == 0 {
        0
    } else {
        (if contains_seq(h, terms[0]) { 1nat } else { 0nat }) + hits(terms.skip(1), h)
    }
}

/// The search terms of a query: the words of its lower-case form.
pub open spec fn query_terms(query: Seq<char>) -> Seq<Seq<char>> {
    words(lowercase(query))
}

/// The score of entry `i`.
pub open spec fn score_of(es: Seq<Entry>, terms: Seq<Seq<char>>, i: int) -> nat {
    hits(terms, haystack(es[i]))
}

/// Entry `i` ranks before entry `j`: a higher score, or the same score and
/// an earlier position.
pub open spec fn ranks_before(es: Seq<Entry>, terms: Seq<Seq<char>>, i: int, j: int) -> bool {
    score_of(es, terms, i) > score_of(es, terms, j) || (score_of(es, terms, i) == score_of(es, terms, j) && i < j)
}

/// `r` lists the positions of all entries that score above zero, best first,
/// ties in their given order.
pub open spec fn is_ranking(es: Seq<Entry>, terms: Seq<Seq<char>>, r: Seq<int>) -> bool {
    &&& forall|a: int, b: int| 0 <= a < b < r.len() ==> ranks_before(es, terms, r[a], r[b])
    &&& forall|a: int| 0 <= a < r.len() ==> 0 <= r[a] < es.len() && score_of(es, terms, r[a]) > 0
    &&& forall|i: int| 0 <= i < es.len() && score_of(es, terms, i) > 0 ==> r.contains(i)
}

/// The entries at the first `k` positions of `r`.
pub open spec fn pick(es: Seq<Entry>, r: Seq<int>, k: int) -> Seq<Entry> {
    Seq::new(if k < r.len() { k as nat } else { r.len() }, |a: int| es[r[a]])
}

/// How many terms occur in `h`.
fn count_hits(terms: &Vec<Vec<char>>, h: &Vec<char>) -> (n: usize)
    ensures
        n == hits(views(terms@), h@),
{
    let ghost tv = views(terms@);
    let mut n: usize = 0;
    let len = terms.len();
    let mut i: usize = len;
    while i > 0
        invariant
            len == terms@.len(),
            i <= terms@.len(),
            tv == views(terms@),
            n == hits(tv.skip(i as int), h@),
            n <= terms@.len() - i,
        decreases i,
    {
        i = i - 1;
        proof {
            assert(tv.skip(i as int)[0] == terms@[i as int]@);
            assert(tv.skip(i as int).skip(1) =~= tv.skip(i + 1));
        }
        if contains_chars(h, &terms[i]) {
            n = n + 1;
        }
    }
    assert(tv.skip(0) =~= tv);
    n
}

/// The lower-case form of an optional text, empty when there is none.
fn lower_field(o: &Option<String>) -> (r: String)
    ensures
        r@ == lowercase(opt_text(*o)),
{
    let mut s = String::new();
    push_opt_or(&mut s, o, "");
    proof {
        reveal_strlit("");
        assert(s@ =~= opt_text(*o));
    }
    to_lowercase(s.as_str())
}

/// The searched text of an entry.
fn entry_haystack(e: &Entry) -> (h: Vec<char>)
    ensures
        h@ == haystack(*e),
{
    let t = lower_field(&e.title);
    let m = lower_field(&e.summary);
    let c = lower_field(&e.content);
    let mut s = t;
    s.append(" ");
    s.append(m.as_str());
    s.append(" ");
    s.append(c.as_str());
    proof {
        reveal_strlit(" ");
        assert(s@ =~= haystack(*e));
    }
    chars_of(s.as_str())
}

/// Search entries for the words of `query` (case-insensitively): entries in
/// which at least one word occurs, most matching words first, ties in their
/// given order, at most `max_results` of them.
pub fn execute_search_news(entries: &[Entry], query: &str, max_results: usize) -> (r: Vec<Entry>)
    ensures
        exists|rank: Seq<int>| is_ranking(entries@, query_terms(query@), rank) && r@ == pick(entries@, rank, max_results as int),
{
    let ghost es = entries@;
    let low = to_lowercase(query);
    let lc = chars_of(low.as_str());
    let terms = split_words(&lc);
    let ghost tv = views(terms@);
    assert(tv == query_terms(query@));
    let mut scores: Vec<usize> = Vec::new();
    let mut i: usize = 0;
    while i < entries.len()
        invariant
            0 <= i <= es.len(),
            es == entries@,
            tv == views(terms@),
            scores@.len() == i,
            forall|j: int| 0 <= j < i ==> scores@[j] == score_of(es, tv, j),
        decreases es.len() - i,
    {
        let h = entry_haystack(&entries[i]);
        let n = count_hits(&terms, &h);
        scores.push(n);
        i = i + 1;
    }
    let mut order: Vec<usize> = Vec::new();
    let ghost rank: Seq<int> = Seq::empty();
    i = 0;
    while i < entries.len()
        invariant
            0 <= i <= es.len(),
            es == entries@,
            scores@.len() == es.len(),
            forall|j: int| 0 <= j < es.len() ==> scores@[j] == score_of(es, tv, j),
            rank == order@.map_values(|x: usize| x as int),
            rank.len() == order@.len(),
            forall|a: int| #![trigger order@[a]] 0 <= a < order@.len() ==> (order@[a] as int) < (i as int) && rank[a] == order@[a] as int,
            forall|a: int, b: int| #![trigger rank[a], rank[b]] 0 <= a < b < rank.len() ==> ranks_before(es, tv, rank[a], rank[b]),
            forall|a: int| #![trigger rank[a]] 0 <= a < rank.len() ==> 0 <= rank[a] < i && score_of(es, tv, rank[a]) > 0,
            forall|j: int| 0 <= j < i && score_of(es, tv, j) > 0 ==> rank.contains(j),
        decreases es.len() - i,
    {
        if scores[i] > 0 {
            let mut p: usize = 0;
            while p < order.len() && scores[order[p]] >= scores[i]
                invariant
                    0 <= p <= order@.len(),
                    i < es.len(),
                    scores@.len() == es.len(),
                    forall|j: int| 0 <= j < es.len() ==> scores@[j] == score_of(es, tv, j),
                    rank == order@.map_values(|x: usize| x as int),
                    rank.len() == order@.len(),
                    forall|a: int| #![trigger order@[a]] 0 <= a < order@.len() ==> (order@[a] as int) < (i as int) && rank[a] == order@[a] as int,
                    forall|a: int| #![trigger rank[a]] 0 <= a < rank.len() ==> 0 <= rank[a] < i,
                    forall|a: int| #![trigger rank[a]] 0 <= a < p ==> ranks_before(es, tv, rank[a], i as int),
                decreases order@.len() - p,
            {
                p = p + 1;
            }
            proof {
                assert forall|a: int| p <= a < rank.len() implies ranks_before(es, tv, i as int, rank[a]) by {
                    if a > p {
                        assert(ranks_before(es, tv, rank[p as int], rank[a]));
                    }
                }
            }
            let ghost old_rank = rank;
            order.insert(p, i);
            proof {
                rank = old_rank.insert(p as int, i as int);
                assert(rank =~= order@.map_values(|x: usize| x as int));
                assert forall|a: int, b: int| 0 <= a < b < rank.len() implies ranks_before(es, tv, rank[a], rank[b]) by {
                    if b < p {
                        assert(rank[a] == old_rank[a] && rank[b] == old_rank[b]);
                    } else if a < p && b == p {
                        assert(rank[a] == old_rank[a]);
                    } else if a < p {
                        assert(rank[a] == old_rank[a] && rank[b] == old_rank[b - 1]);
                        assert(ranks_before(es, tv, old_rank[a], i as int));
                    } else if a == p {
                        assert(rank[b] == old_rank[b - 1]);
                    } else {
                        assert(rank[a] == old_rank[a - 1] && rank[b] == old_rank[b - 1]);
                    }
                }
                assert forall|a: int| 0 <= a < rank.len() implies 0 <= rank[a] < i + 1 && score_of(es, tv, rank[a]) > 0 by {
                    if a < p {
                        assert(rank[a] == old_rank[a]);
                    } else if a > p {
                        assert(rank[a] == old_rank[a - 1]);
                    }
                }
                assert forall|j: int| 0 <= j < i + 1 && score_of(es, tv, j) > 0 implies rank.contains(j) by {
                    if j < i {
                        assert(old_rank.contains(j));
                        let a = choose|a: int| 0 <= a < old_rank.len() && old_rank[a] == j;
                        if a < p {
                            assert(rank[a] == j);
                        } else {
                            assert(rank[a + 1] == j);
                        }
                    } else {
                        assert(rank[p as int] == j);
                    }
                }
            }
        }
        i = i + 1;
    }
    let mut out: Vec<Entry> = Vec::new();
    let mut a: usize = 0;
    while a < order.len() && a < max_results
        invariant
            0 <= a <= order@.len(),
            es == entries@,
            rank == order@.map_values(|x: usize| x as int),
            rank.len() == order@.len(),
            a <= max_results,
            forall|b: int| #![trigger order@[b]] 0 <= b < order@.len() ==> (order@[b] as int) < es.len() && rank[b] == order@[b] as int,
            forall|b: int| #![trigger rank[b]] 0 <= b < rank.len() ==> 0 <= rank[b] < es.len(),
            out@ == pick(es, rank, a as int),
        decreases order@.len() - a,
    {
        let e = entries[order[a]].duplicate();
        proof {
            assert(rank[a as int] == order@[a as int] as int);
        }
        out.push(e);
        a = a + 1;
        assert(out@ =~= pick(es, rank, a as int));
    }
    assert(out@ =~= pick(es, rank, max_results as int));
    assert(is_ranking(es, tv, rank));
    out
}

/// A text found in `m` is found in `l + m + r`.
proof fn lemma_contains_within(l: Seq<char>, m: Seq<char>, r: Seq<char>, w: Seq<char>)
    requires
        contains_seq(m, w),
    ensures
        contains_seq(l + m + r, w),
{
    let j = choose|j: int| occurs_at(m, w, j);
    let all = l + m + r;
    assert(all.subrange(l.len() + j, l.len() + j + w.len()) =~= m.subrange(j, j + w.len()));
    assert(occurs_at(all, w, l.len() + j));
}

/// A term of the list that occurs in `h` counts as a hit.
proof fn lemma_hit_counts(terms: Seq<Seq<char>>, h: Seq<char>, w: Seq<char>)
    requires
        terms.contains(w),
        contains_seq(h, w),
    ensures
        hits(terms, h) > 0,
    decreases terms.len(),
{
    if terms[0] != w {
        let k = choose|k: int| 0 <= k < terms.len() && terms[k] == w;
        assert(terms.skip(1)[k - 1] == w);
        lemma_hit_counts(terms.skip(1), h, w);
    }
}

/// The title, the summary and the content of an entry are all searched: a
/// word of the query found (case-insensitively) in any one of them gives the
/// entry a score above zero, so it is ranked, and it is among the results
/// whenever as many results are allowed as there are entries.
pub proof fn law_search_reads_every_field(es: Seq<Entry>, query: Seq<char>, i: int, w: Seq<char>,
    max_results: int, r: Seq<Entry>)
    requires
        0 <= i < es.len(),
        query_terms(query).contains(w),
        contains_seq(lowercase(opt_text(es[i].title)), w) || contains_seq(lowercase(opt_text(es[i].summary)), w)
            || contains_seq(lowercase(opt_text(es[i].content)), w),
        exists|rank: Seq<int>| is_ranking(es, query_terms(query), rank) && r == pick(es, rank, max_results),
        max_results >= es.len(),
    ensures
        score_of(es, query_terms(query), i) > 0,
        forall|rank: Seq<int>| #[trigger] is_ranking(es, query_terms(query), rank) ==> rank.contains(i),
        r.contains(es[i]),
{
    let e = es[i];
    let t = lowercase(opt_text(e.title));
    let m = lowercase(opt_text(e.summary));
    let c = lowercase(opt_text(e.content));
    let sp = seq![' '];
    assert(haystack(e) == t + (sp + m + sp) + c);
    if contains_seq(t, w) {
        lemma_contains_within(seq![], t, sp + m + sp + c, w);
        assert(seq![] + t + (sp + m + sp + c) =~= haystack(e));
    } else if contains_seq(m, w) {
        lemma_contains_within(t + sp, m, sp + c, w);
        assert(t + sp + m + (sp + c) =~= haystack(e));
    } else {
        lemma_contains_within(t + sp + m + sp, c, seq![], w);
        assert(t + sp + m + sp + c + seq![] =~= haystack(e));
    }
    lemma_hit_counts(query_terms(query), haystack(e), w);
    let rank = choose|rank: Seq<int>| is_ranking(es, query_terms(query), rank) && r == pick(es, rank, max_results);
    assert(rank.contains(i));
    let a = choose|a: int| 0 <= a < rank.len() && rank[a] == i;
    assert(rank.len() <= es.len()) by {
        lemma_ranking_len(es, query_terms(query), rank);
    }
    assert(r[a] == es[i]);
}

/// A ranking lists no position twice, so it is no longer than the entries.
proof fn lemma_ranking_len(es: Seq<Entry>, terms: Seq<Seq<char>>, rank: Seq<int>)
    requires
        is_ranking(es, terms, rank),
    ensures
        rank.len() <= es.len(),
{
    let s = rank.to_set();
    assert(rank.no_duplicates()) by {
        assert forall|a: int, b: int| 0 <= a < rank.len() && 0 <= b < rank.len() && a != b implies rank[a] != rank[b] by {
            if a < b {
                assert(ranks_before(es, terms, rank[a], rank[b]));
            } else {
                assert(ranks_before(es, terms, rank[b], rank[a]));
            }
        }
    }
    rank.unique_seq_to_set();
    assert(s.subset_of(Set::new(|x: int| 0 <= x < es.len())));
    vstd::set_lib::lemma_int_range(0, es.len() as int);
    assert(Set::new(|x: int| 0 <= x < es.len()) == vstd::set_lib::set_int_range(0, es.len() as int));
    vstd::set_lib::lemma_len_subset(s, vstd::set_lib::set_int_range(0, es.len() as int));
}

/// What the assistant is told when nothing matched.
pub const NO_RESULTS: &'static str = "RESULTS: No matching articles in your feeds yet.\n\nThe user has zero articles for this topic. You MUST suggest 2-3 specific, high-quality RSS feed URLs the user can add. Use add_feed tool if the user asks you to.\n\nSuggested feeds:\n\u{2022} https://example.com/rss \u{2014} description";

/// One numbered result line.
pub open spec fn result_line(n: nat, e: Entry) -> Seq<char> {
    "\n"@ + decimal(n) + ". "@ + opt_or(e.title, "Untitled"@) + " \u{2014} "@ + opt_or(e.summary, ""@)
}

/// The numbered result lines of `es`, from position `i` on, each after a line feed.
pub open spec fn result_lines(es: Seq<Entry>, i: int) -> Seq<char>
    decreases es.len() - i,
{
    if i < 0 || i >= es.len() {
        seq![]
    } else {
        "\n"@ + result_line((i + 1) as nat, es[i]) + result_lines(es, i + 1)
    }
}

/// The text given to the assistant for a list of results.
pub open spec fn results_text(es: Seq<Entry>) -> Seq<char> {
    if es.len() == 0 {
        NO_RESULTS@
    } else {
        "RESULTS: Found matching articles:"@ + result_lines(es, 0)
    }
}

/// The text given to the assistant for a list of results.
pub fn format_search_results(entries: &[Entry]) -> (r: String)
    ensures
        r@ == results_text(entries@),
{
    if entries.len() == 0 {
        return String::from_str(NO_RESULTS);
    }
    let mut s = String::from_str("RESULTS: Found matching articles:");
    let ghost head = s@;
    let mut i: usize = 0;
    while i < entries.len()
        invariant
            0 <= i <= entries@.len(),
            entries@.len() > 0,
            s@ + result_lines(entries@, i as int) == head + result_lines(entries@, 0),
        decreases entries@.len() - i,
    {
        let ghost before = s@;
        let e = &entries[i];
        s.append("\n");
        s.append("\n");
        push_decimal(&mut s, (i + 1) as u64);
        s.append(". ");
        push_opt_or(&mut s, &e.title, "Untitled");
        s.append(" \u{2014} ");
        push_opt_or(&mut s, &e.summary, "");
        proof {
            assert(s@ =~= before + ("\n"@ + result_line((i + 1) as nat, entries@[i as int])));
            assert(before + result_lines(entries@, i as int) =~= s@ + result_lines(entries@, i + 1));
        }
        i = i + 1;
    }
    assert(s@ =~= s@ + result_lines(entries@, i as int));
    s
}

} // verus!
