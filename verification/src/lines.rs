//! Splitting text into lines.
//!
//! A line ends at a `'\n'` terminator; a terminator preceded by `'\r'` ends
//! the line before the `'\r'`.  Terminators are not part of any line, and a
//! final terminator does not produce an empty last line.

use vstd::prelude::*;
use vstd::string::StrSliceExecFns;

verus! {

/// Character position of the first `'\n'` in `s`, or `s.len()` when there is none.
pub open spec fn first_newline(s: Seq<char>) -> nat
    decreases s.len(),
{
    if s.len() == 0 {
        0
    } else if s[0] == '\n' {
        0
    } else {
        1 + first_newline(s.drop_first())
    }
}

/// Remove one trailing carriage return, as happens to a line that was
/// terminated by `"\r\n"`.
pub open spec fn strip_trailing_cr(s: Seq<char>) -> Seq<char> {
    if s.len() > 0 && s[s.len() - 1] == '\r' {
        s.drop_last()
    } else {
        s
    }
}

/// The lines of `text`, in order.
pub open spec fn lines_of(text: Seq<char>) -> Seq<Seq<char>>
    decreases text.len(),
{
    if text.len() == 0 {
        Seq::empty()
    } else {
        let i = first_newline(text);
        if i >= text.len() {
            seq![text]
        } else {
            seq![strip_trailing_cr(text.subrange(0, i as int))] + lines_of(
                text.subrange(i as int + 1, text.len() as int),
            )
        }
    }
}

/// `first_newline` points at the first newline: it is in range, the character
/// there (if any) is `'\n'`, and no earlier character is.
pub proof fn lemma_first_newline(s: Seq<char>)
    ensures
        first_newline(s) <= s.len(),
        first_newline(s) < s.len() ==> s[first_newline(s) as int] == '\n',
        forall|j: int| 0 <= j < first_newline(s) ==> s[j] != '\n',
    decreases s.len(),
{
    if s.len() == 0 {
    } else if s[0] == '\n' {
    } else {
        lemma_first_newline(s.drop_first());
        assert forall|j: int| 0 <= j < first_newline(s) implies s[j] != '\n' by {
            if j > 0 {
                assert(s.drop_first()[j - 1] != '\n');
            }
        }
    }
}

/// A position with no newline before it, and a newline (or the end of the
/// text) at it, is exactly `first_newline`.
pub proof fn lemma_first_newline_unique(s: Seq<char>, k: int)
    requires
        0 <= k <= s.len(),
        forall|j: int| 0 <= j < k ==> s[j] != '\n',
        k == s.len() || s[k] == '\n',
    ensures
        first_newline(s) == k,
{
    lemma_first_newline(s);
    let f = first_newline(s) as int;
    if f < k {
        assert(s[f] != '\n');
    }
    if k < f {
        assert(s[k] != '\n');
    }
}

/// Split `contents` into its lines, returned as slices of `contents` in
/// their original order.
pub fn split_lines<'a>(contents: &'a str) -> (lines: Vec<&'a str>)
    ensures
        lines.deep_view() == lines_of(contents@),
{
    let ghost text = contents@;
    let n = contents.unicode_len();
    let mut lines: Vec<&'a str> = Vec::new();
    let mut start: usize = 0;
    let mut i: usize = 0;
    proof {
        assert(text.subrange(0, n as int) =~= text);
        assert(lines.deep_view() =~= Seq::<Seq<char>>::empty());
        assert(lines_of(text) =~= lines.deep_view() + lines_of(text.subrange(0, n as int)));
    }
    while i < n
        invariant
            text == contents@,
            n == text.len(),
            0 <= start <= i <= n,
            forall|j: int| start <= j < i ==> text[j] != '\n',
            lines_of(text) == lines.deep_view() + lines_of(text.subrange(start as int, n as int)),
        decreases n - i,
    {
        if contents.get_char(i) == '\n' {
            let end = if i > start && contents.get_char(i - 1) == '\r' {
                i - 1
            } else {
                i
            };
            let line = contents.substring_char(start, end);
            proof {
                let u = text.subrange(start as int, n as int);
                assert forall|j: int| 0 <= j < i - start implies u[j] != '\n' by {
                    assert(text[start + j] != '\n');
                }
                lemma_first_newline_unique(u, i - start);
                assert(u.subrange(0, i - start) =~= text.subrange(start as int, i as int));
                assert(u.subrange(i - start + 1, u.len() as int) =~= text.subrange(
                    i as int + 1,
                    n as int,
                ));
                assert(lines_of(u) == seq![strip_trailing_cr(text.subrange(start as int, i as int))]
                    + lines_of(text.subrange(i as int + 1, n as int)));
                assert(line@ =~= strip_trailing_cr(text.subrange(start as int, i as int)));
            }
            let ghost old_lines = lines.deep_view();
            lines.push(line);
            proof {
                assert(lines.deep_view() =~= old_lines.push(line@));
                assert(lines.deep_view() + lines_of(text.subrange(i as int + 1, n as int))
                    =~= old_lines + lines_of(text.subrange(start as int, n as int)));
            }
            start = i + 1;
        }
        i += 1;
    }
    if start < n {
        let line = contents.substring_char(start, n);
        proof {
            let u = text.subrange(start as int, n as int);
            assert forall|j: int| 0 <= j < u.len() implies u[j] != '\n' by {
                assert(text[start + j] != '\n');
            }
            lemma_first_newline_unique(u, u.len() as int);
            assert(lines_of(u) == seq![u]);
            assert(line@ =~= u);
        }
        let ghost old_lines = lines.deep_view();
        lines.push(line);
        proof {
            assert(lines.deep_view() =~= old_lines.push(line@));
            assert(old_lines.push(line@) =~= old_lines + seq![line@]);
        }
    } else {
        proof {
            assert(text.subrange(start as int, n as int).len() == 0);
            assert(lines_of(text.subrange(start as int, n as int)) =~= Seq::<Seq<char>>::empty());
            assert(lines.deep_view() + lines_of(text.subrange(start as int, n as int))
                =~= lines.deep_view());
        }
    }
    lines
}

} // verus!
