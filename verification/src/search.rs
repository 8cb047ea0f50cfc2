//! Line filtering: return the lines of a text that contain a query.

use crate::casing::lemma_uppercase_preserves_substring;
use crate::casing::uppercase;
use crate::casing::uppercased;
use crate::lines::lines_of;
use crate::lines::split_lines;
use crate::text::contains_substring;
use crate::text::has_substring;
use crate::text::lemma_empty_pattern_matches;
use vstd::prelude::*;

verus! {

/// A line matches `query` exactly when it contains it as a substring.
pub open spec fn line_matches(query: Seq<char>) -> spec_fn(Seq<char>) -> bool {
    |l: Seq<char>| has_substring(l, query)
}

/// A line matches `query` disregarding case when its uppercase form
/// contains the uppercase form of `query`.
pub open spec fn line_matches_insensitive(query: Seq<char>) -> spec_fn(Seq<char>) -> bool {
    |l: Seq<char>| has_substring(uppercased(l), uppercased(query))
}

/// The lines of `text` that contain `query` as an exact substring, in their
/// original order.
pub open spec fn search_spec(query: Seq<char>, text: Seq<char>) -> Seq<Seq<char>> {
    lines_of(text).filter(line_matches(query))
}

/// The lines of `text` whose uppercase form contains the uppercase form of
/// `query`, in their original order.
pub open spec fn search_insensitive_spec(query: Seq<char>, text: Seq<char>) -> Seq<Seq<char>> {
    lines_of(text).filter(line_matches_insensitive(query))
}

/// Case-sensitive search: the lines of `contents` that contain `query`.
pub fn search<'a>(query: &str, contents: &'a str) -> (results: Vec<&'a str>)
    ensures
        results.deep_view() == search_spec(query@, contents@),
{
    let lines = split_lines(contents);
    let ghost all = lines.deep_view();
    let ghost pred = line_matches(query@);
    let n = lines.len();
    let mut results: Vec<&'a str> = Vec::new();
    let mut i: usize = 0;
    proof {
        reveal(Seq::filter);
        assert(all.subrange(0, 0) =~= Seq::<Seq<char>>::empty());
        assert(results.deep_view() =~= all.subrange(0, 0).filter(pred));
    }
    while i < n
        invariant
            n == lines.len(),
            0 <= i <= n,
            all == lines.deep_view(),
            pred == line_matches(query@),
            results.deep_view() == all.subrange(0, i as int).filter(pred),
        decreases n - i,
    {
        let line = lines[i];
        proof {
            assert(all[i as int] == line@);
        }
        let found = contains_substring(line, query);
        proof {
            let prefix = all.subrange(0, i as int);
            prefix.lemma_filter_push(all[i as int], pred);
            assert(all.subrange(0, i as int + 1) =~= prefix.push(all[i as int]));
        }
        if found {
            let ghost before = results.deep_view();
            results.push(line);
            proof {
                assert(results.deep_view() =~= before.push(line@));
            }
        }
        i += 1;
    }
    proof {
        assert(all.subrange(0, n as int) =~= all);
    }
    results
}

/// Case-insensitive search: the lines of `contents` that contain `query`
/// when both are uppercased.  The lines returned are the original ones.
pub fn search_case_insensive<'a>(query: &str, contents: &'a str) -> (results: Vec<&'a str>)
    ensures
        results.deep_view() == search_insensitive_spec(query@, contents@),
{
    let upper_query = uppercase(query);
    let lines = split_lines(contents);
    let ghost all = lines.deep_view();
    let ghost pred = line_matches_insensitive(query@);
    let n = lines.len();
    let mut results: Vec<&'a str> = Vec::new();
    let mut i: usize = 0;
    proof {
        reveal(Seq::filter);
        assert(all.subrange(0, 0) =~= Seq::<Seq<char>>::empty());
        assert(results.deep_view() =~= all.subrange(0, 0).filter(pred));
    }
    while i < n
        invariant
            n == lines.len(),
            0 <= i <= n,
            all == lines.deep_view(),
            pred == line_matches_insensitive(query@),
            upper_query@ == uppercased(query@),
            results.deep_view() == all.subrange(0, i as int).filter(pred),
        decreases n - i,
    {
        let line = lines[i];
        proof {
            assert(all[i as int] == line@);
        }
        let upper_line = uppercase(line);
        let found = contains_substring(upper_line.as_str(), upper_query.as_str());
        proof {
            let prefix = all.subrange(0, i as int);
            prefix.lemma_filter_push(all[i as int], pred);
            assert(all.subrange(0, i as int + 1) =~= prefix.push(all[i as int]));
        }
        if found {
            let ghost before = results.deep_view();
            results.push(line);
            proof {
                assert(results.deep_view() =~= before.push(line@));
            }
        }
        i += 1;
    }
    proof {
        assert(all.subrange(0, n as int) =~= all);
    }
    results
}

/// Every line the case-sensitive search returns contains the query, and
/// every line of the text that contains the query is returned.
pub proof fn lemma_search_sound_complete(query: Seq<char>, text: Seq<char>)
    ensures
        forall|i: int|
            0 <= i < search_spec(query, text).len() ==> has_substring(
                #[trigger] search_spec(query, text)[i],
                query,
            ),
        forall|j: int|
            0 <= j < lines_of(text).len() && has_substring(#[trigger] lines_of(text)[j], query)
                ==> search_spec(query, text).contains(lines_of(text)[j]),
{
    let p = line_matches(query);
    let s = lines_of(text);
    assert forall|i: int| 0 <= i < search_spec(query, text).len() implies has_substring(
        #[trigger] search_spec(query, text)[i],
        query,
    ) by {
        s.lemma_filter_pred(p, i);
    }
    assert forall|j: int|
        0 <= j < s.len() && has_substring(#[trigger] lines_of(text)[j], query) implies search_spec(
        query,
        text,
    ).contains(s[j]) by {
        s.lemma_filter_contains(p, j);
    }
}

/// On every sequence of lines, the case-insensitive predicate keeps at
/// least the lines that the case-sensitive one keeps.
proof fn lemma_filter_count_mono_matches(s: Seq<Seq<char>>, query: Seq<char>)
    ensures
        s.filter(line_matches(query)).len() <= s.filter(line_matches_insensitive(query)).len(),
    decreases s.len(),
{
    reveal(Seq::filter);
    if s.len() == 0 {
    } else {
        lemma_filter_count_mono_matches(s.drop_last(), query);
        if line_matches(query)(s.last()) {
            lemma_uppercase_preserves_substring(s.last(), query);
            assert(line_matches_insensitive(query)(s.last()));
        }
    }
}

/// The case-insensitive search returns at least as many lines as the
/// case-sensitive search, for the same query and text.
pub proof fn lemma_insensitive_superset(query: Seq<char>, text: Seq<char>)
    ensures
        search_spec(query, text).len() <= search_insensitive_spec(query, text).len(),
{
    lemma_filter_count_mono_matches(lines_of(text), query);
}

/// The elements of `sub` appear in `sup`, in the same relative order.
pub open spec fn subsequence_of<A>(sub: Seq<A>, sup: Seq<A>) -> bool
    decreases sup.len(),
{
    if sub.len() == 0 {
        true
    } else if sup.len() == 0 {
        false
    } else if sub.last() == sup.last() {
        subsequence_of(sub.drop_last(), sup.drop_last()) || subsequence_of(sub, sup.drop_last())
    } else {
        subsequence_of(sub, sup.drop_last())
    }
}

/// Filtering a sequence yields a subsequence of it.
proof fn lemma_filter_subsequence<A>(s: Seq<A>, p: spec_fn(A) -> bool)
    ensures
        subsequence_of(s.filter(p), s),
    decreases s.len(),
{
    reveal(Seq::filter);
    if s.len() == 0 {
    } else {
        lemma_filter_subsequence(s.drop_last(), p);
        if p(s.last()) {
            assert(s.filter(p) == s.drop_last().filter(p).push(s.last()));
            assert(s.filter(p).last() == s.last());
            assert(s.filter(p).drop_last() =~= s.drop_last().filter(p));
        }
    }
}

/// Order invariant: the lines either search returns stand in the same
/// relative order as in the source text.
pub proof fn lemma_search_preserves_order(query: Seq<char>, text: Seq<char>)
    ensures
        subsequence_of(search_spec(query, text), lines_of(text)),
        subsequence_of(search_insensitive_spec(query, text), lines_of(text)),
{
    lemma_filter_subsequence(lines_of(text), line_matches(query));
    lemma_filter_subsequence(lines_of(text), line_matches_insensitive(query));
}

/// With an empty query both predicates keep every line.
proof fn lemma_filter_all_match_empty(s: Seq<Seq<char>>)
    ensures
        s.filter(line_matches(Seq::<char>::empty())) == s,
        s.filter(line_matches_insensitive(Seq::<char>::empty())) == s,
    decreases s.len(),
{
    reveal(Seq::filter);
    if s.len() == 0 {
    } else {
        lemma_filter_all_match_empty(s.drop_last());
        lemma_empty_pattern_matches(s.last());
        assert(uppercased(Seq::<char>::empty()) == Seq::<char>::empty());
        lemma_empty_pattern_matches(uppercased(s.last()));
        assert(s.drop_last().push(s.last()) =~= s);
    }
}

/// Empty-query property: searching with an empty query returns every line
/// of the text, unchanged in count and order, in both modes.
pub proof fn lemma_empty_query_returns_all(text: Seq<char>)
    ensures
        search_spec(Seq::<char>::empty(), text) == lines_of(text),
        search_insensitive_spec(Seq::<char>::empty(), text) == lines_of(text),
{
    lemma_filter_all_match_empty(lines_of(text));
}

/// The filtering step of a run: case-sensitive or case-insensitive search,
/// as `ignore_case` selects.
pub fn search_lines<'a>(query: &str, contents: &'a str, ignore_case: bool) -> (results: Vec<
    &'a str,
>)
    ensures
        ignore_case ==> results.deep_view() == search_insensitive_spec(query@, contents@),
        !ignore_case ==> results.deep_view() == search_spec(query@, contents@),
{
    if ignore_case {
        search_case_insensive(query, contents)
    } else {
        search(query, contents)
    }
}

} // verus!
