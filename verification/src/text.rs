//! Substring matching over character sequences.

use vstd::prelude::*;
use vstd::string::StrSliceExecFns;

verus! {

/// `pat` occurs in `text` starting at character position `i`.
pub open spec fn match_at(text: Seq<char>, pat: Seq<char>, i: int) -> bool {
    &&& 0 <= i
    &&& i + pat.len() <= text.len()
    &&& text.subrange(i, i + pat.len()) == pat
}

/// `pat` occurs somewhere in `text` as a contiguous substring.
pub open spec fn has_substring(text: Seq<char>, pat: Seq<char>) -> bool {
    exists|i: int| match_at(text, pat, i)
}

/// The empty pattern occurs in every text, at position 0.
pub proof fn lemma_empty_pattern_matches(text: Seq<char>)
    ensures
        has_substring(text, Seq::<char>::empty()),
{
    assert(text.subrange(0, 0) =~= Seq::<char>::empty());
    assert(match_at(text, Seq::<char>::empty(), 0));
}

/// Does `pat` occur in `line` starting exactly at character position `i`?
fn matches_at(line: &str, pat: &str, i: usize) -> (r: bool)
    requires
        i + pat@.len() <= line@.len(),
        i + pat@.len() <= usize::MAX,
    ensures
        r == match_at(line@, pat@, i as int),
{
    let m = pat.unicode_len();
    let mut j: usize = 0;
    while j < m
        invariant
            m == pat@.len(),
            i + m <= line@.len(),
            i + m <= usize::MAX,
            0 <= j <= m,
            forall|t: int| 0 <= t < j ==> line@[i + t] == pat@[t],
        decreases m - j,
    {
        if line.get_char(i + j) != pat.get_char(j) {
            proof {
                if match_at(line@, pat@, i as int) {
                    assert(line@.subrange(i as int, i + pat@.len())[j as int] == pat@[j as int]);
                }
            }
            return false;
        }
        j += 1;
    }
    proof {
        assert(line@.subrange(i as int, i + pat@.len()) =~= pat@);
    }
    true
}

/// Substring test: does `line` contain `pat` as a contiguous substring?
pub fn contains_substring(line: &str, pat: &str) -> (r: bool)
    ensures
        r == has_substring(line@, pat@),
{
    let n = line.unicode_len();
    let m = pat.unicode_len();
    if m > n {
        proof {
            assert forall|i: int| !match_at(line@, pat@, i) by {}
        }
        return false;
    }
    let mut i: usize = 0;
    while i < n - m
        invariant
            n == line@.len(),
            m == pat@.len(),
            m <= n,
            0 <= i <= n - m,
            forall|k: int| 0 <= k < i ==> !match_at(line@, pat@, k),
        decreases n - m - i,
    {
        if matches_at(line, pat, i) {
            assert(match_at(line@, pat@, i as int));
            return true;
        }
        i += 1;
    }
    if matches_at(line, pat, n - m) {
        assert(match_at(line@, pat@, n - m));
        return true;
    }
    proof {
        assert forall|k: int| !match_at(line@, pat@, k) by {
            if 0 <= k <= n - m {
                assert(!match_at(line@, pat@, k));
            }
        }
    }
    false
}

} // verus!
