//! Uppercasing of text, for case-insensitive matching.
//!
//! Unicode uppercasing maps each character independently to one or more
//! characters.  The per-character mapping is taken from the standard
//! library; uppercasing a whole string is the concatenation of the
//! per-character mappings, computed and verified here.

use crate::text::has_substring;
use crate::text::match_at;
use vstd::prelude::*;
use vstd::string::StrSliceExecFns;
use vstd::string::StringExecFns;

verus! {

/// The sequence of characters that the Unicode uppercase mapping yields for
/// a single character.
pub uninterp spec fn char_uppercase(c: char) -> Seq<char>;

/// Relies on char::to_uppercase: the uppercase mapping of a character is a
/// fixed, context-free property of that character alone.
#[verifier::external_body]
fn char_to_uppercase(c: char) -> (r: String)
    ensures
        r@ == char_uppercase(c),
{
    let mut s = String::new();
    for u in c.to_uppercase() {
        s.push(u);
    }
    s
}

/// The uppercase form of `s`: each character replaced by its uppercase
/// mapping, in order.
pub open spec fn uppercased(s: Seq<char>) -> Seq<char>
    decreases s.len(),
{
    if s.len() == 0 {
        Seq::empty()
    } else {
        char_uppercase(s[0]) + uppercased(s.drop_first())
    }
}

/// Uppercasing distributes over concatenation.
pub proof fn lemma_uppercased_concat(a: Seq<char>, b: Seq<char>)
    ensures
        uppercased(a + b) == uppercased(a) + uppercased(b),
    decreases a.len(),
{
    if a.len() == 0 {
        assert(a + b =~= b);
        assert(uppercased(a) + uppercased(b) =~= uppercased(b));
    } else {
        assert((a + b).len() > 0);
        assert((a + b)[0] == a[0]);
        assert((a + b).drop_first() =~= a.drop_first() + b);
        lemma_uppercased_concat(a.drop_first(), b);
        assert(uppercased(a + b) =~= uppercased(a) + uppercased(b));
    }
}

/// The uppercase form of a one-character sequence is that character's
/// uppercase mapping.
pub proof fn lemma_uppercased_singleton(c: char)
    ensures
        uppercased(seq![c]) == char_uppercase(c),
{
    assert(seq![c].drop_first() =~= Seq::<char>::empty());
    assert(seq![c][0] == c);
    assert(uppercased(Seq::<char>::empty()) == Seq::<char>::empty());
    assert(char_uppercase(c) + Seq::<char>::empty() =~= char_uppercase(c));
    assert(uppercased(seq![c]) == char_uppercase(c) + uppercased(Seq::<char>::empty()));
}

/// Uppercasing preserves substring occurrence: when `pat` occurs in `text`,
/// the uppercase form of `pat` occurs in the uppercase form of `text`.
pub proof fn lemma_uppercase_preserves_substring(text: Seq<char>, pat: Seq<char>)
    requires
        has_substring(text, pat),
    ensures
        has_substring(uppercased(text), uppercased(pat)),
{
    let i = choose|i: int| match_at(text, pat, i);
    let a = text.subrange(0, i);
    let b = text.subrange(i + pat.len(), text.len() as int);
    assert(text =~= a + pat + b);
    lemma_uppercased_concat(a + pat, b);
    lemma_uppercased_concat(a, pat);
    let ua = uppercased(a);
    let up = uppercased(pat);
    let ub = uppercased(b);
    assert(uppercased(text) == ua + up + ub);
    let k = ua.len() as int;
    assert((ua + up + ub).subrange(k, k + up.len()) =~= up);
    assert(match_at(uppercased(text), up, k));
}

/// The uppercase form of `s`, as the standard Unicode uppercase mapping
/// gives it.
pub fn uppercase(s: &str) -> (r: String)
    ensures
        r@ == uppercased(s@),
{
    let n = s.unicode_len();
    let mut r = String::new();
    let mut i: usize = 0;
    while i < n
        invariant
            n == s@.len(),
            0 <= i <= n,
            r@ == uppercased(s@.subrange(0, i as int)),
        decreases n - i,
    {
        let c = s.get_char(i);
        let cu = char_to_uppercase(c);
        r.append(cu.as_str());
        proof {
            let pre = s@.subrange(0, i as int);
            lemma_uppercased_singleton(c);
            lemma_uppercased_concat(pre, seq![c]);
            assert(s@.subrange(0, i as int + 1) =~= pre + seq![c]);
        }
        i += 1;
    }
    proof {
        assert(s@.subrange(0, n as int) =~= s@);
    }
    r
}

} // verus!
