//! Heuristic post-processing of the model's textual reply: strip prose
//! around the LaTeX payload, collapse blank lines, and trim whitespace.
//!
//! This is a permissive strip, not a parser: it never fails, and it does
//! not validate LaTeX balance.

use vstd::prelude::*;
use crate::text::{is_trimmed, trim_spec, trim_str};

verus! {

/// Index of the first `'$'` in `s`, or `s.len()` when there is none.
pub open spec fn first_dollar_idx(s: Seq<char>) -> int
    decreases s.len(),
{
    if s.len() == 0 {
        0
    } else if s[0] == '$' {
        0
    } else {
        1 + first_dollar_idx(s.skip(1))
    }
}

/// A closing delimiter: the characters on which trailing commentary is cut.
pub open spec fn is_delim(c: char) -> bool {
    c == '$' || c == '}'
}

/// One past the last delimiter of `s`, or `0` when there is none.
pub open spec fn last_delim_end(s: Seq<char>) -> int
    decreases s.len(),
{
    if s.len() == 0 {
        0
    } else if is_delim(s.last()) {
        s.len() as int
    } else {
        last_delim_end(s.take(s.len() - 1))
    }
}

/// Everything before the first `'$'` dropped; `s` unchanged when it has
/// no `'$'` at all.
pub open spec fn cut_head(s: Seq<char>) -> Seq<char> {
    if first_dollar_idx(s) == s.len() {
        s
    } else {
        s.skip(first_dollar_idx(s))
    }
}

/// Everything after the last `'$'` or `'}'` dropped; `s` unchanged when
/// it has neither.
pub open spec fn cut_tail(s: Seq<char>) -> Seq<char> {
    if last_delim_end(s) == 0 {
        s
    } else {
        s.take(last_delim_end(s))
    }
}

/// Every run of two or more consecutive newlines replaced by a single
/// newline.
pub open spec fn collapse_blank(s: Seq<char>) -> Seq<char>
    decreases s.len(),
{
    if s.len() == 0 {
        Seq::<char>::empty()
    } else if s.len() >= 2 && s[0] == '\n' && s[1] == '\n' {
        collapse_blank(s.skip(1))
    } else {
        seq![s[0]] + collapse_blank(s.skip(1))
    }
}

/// The whole sanitization, in order: leading prose before the first
/// `'$'` dropped, trailing commentary after the last `'$'`/`'}'`
/// dropped, blank lines collapsed, surrounding whitespace trimmed.
pub open spec fn sanitize_spec(s: Seq<char>) -> Seq<char> {
    trim_spec(collapse_blank(cut_tail(cut_head(s))))
}

proof fn lemma_first_dollar_idx(s: Seq<char>)
    ensures
        0 <= first_dollar_idx(s) <= s.len(),
        first_dollar_idx(s) < s.len() ==> s[first_dollar_idx(s)] == '$',
        forall|j: int| 0 <= j < first_dollar_idx(s) ==> s[j] != '$',
    decreases s.len(),
{
    if s.len() > 0 && s[0] != '$' {
        lemma_first_dollar_idx(s.skip(1));
        assert forall|j: int| 0 <= j < first_dollar_idx(s) implies s[j] != '$' by {
            if j > 0 {
                assert(s.skip(1)[j - 1] == s[j]);
            }
        }
    }
}

proof fn lemma_last_delim_end(s: Seq<char>)
    ensures
        0 <= last_delim_end(s) <= s.len(),
        last_delim_end(s) > 0 ==> is_delim(s[last_delim_end(s) - 1]),
        forall|j: int| last_delim_end(s) <= j < s.len() ==> !is_delim(s[j]),
    decreases s.len(),
{
    if s.len() > 0 && !is_delim(s.last()) {
        lemma_last_delim_end(s.take(s.len() - 1));
        assert forall|j: int| last_delim_end(s) <= j < s.len() implies !is_delim(s[j]) by {
            if j < s.len() - 1 {
                assert(s.take(s.len() - 1)[j] == s[j]);
            }
        }
    }
}

/// Collapsing keeps the first character (a leading newline run shrinks
/// to the newline itself).
proof fn lemma_collapse_first(s: Seq<char>)
    ensures
        collapse_blank(s).len() > 0 <==> s.len() > 0,
        s.len() > 0 ==> collapse_blank(s)[0] == s[0],
    decreases s.len(),
{
    if s.len() >= 2 && s[0] == '\n' && s[1] == '\n' {
        lemma_collapse_first(s.skip(1));
    }
}

/// No two consecutive newlines anywhere in the text.
pub open spec fn has_no_blank_line(s: Seq<char>) -> bool {
    forall|k: int| 0 <= k && k + 1 < s.len() ==> !(#[trigger] s[k] == '\n' && s[k + 1] == '\n')
}

/// The law behind the collapse step: after it, no two consecutive
/// newlines remain anywhere in the text.
pub proof fn lemma_collapse_no_blank_line(s: Seq<char>)
    ensures
        has_no_blank_line(collapse_blank(s)),
    decreases s.len(),
{
    if s.len() == 0 {
    } else if s.len() >= 2 && s[0] == '\n' && s[1] == '\n' {
        lemma_collapse_no_blank_line(s.skip(1));
        let c = collapse_blank(s);
        let rest = collapse_blank(s.skip(1));
        assert(c =~= rest);
        assert forall|k: int| 0 <= k && k + 1 < c.len() implies !(#[trigger] c[k] == '\n' && c[k
            + 1] == '\n') by {
            assert(!(rest[k] == '\n' && rest[k + 1] == '\n'));
        }
    } else {
        lemma_collapse_no_blank_line(s.skip(1));
        lemma_collapse_first(s.skip(1));
        let c = collapse_blank(s);
        let rest = collapse_blank(s.skip(1));
        assert(c =~= seq![s[0]] + rest);
        assert forall|k: int| 0 <= k && k + 1 < c.len() implies !(#[trigger] c[k] == '\n' && c[k
            + 1] == '\n') by {
            if k == 0 {
                assert(c[0] == s[0]);
                if s.len() >= 2 && s[0] == '\n' {
                    assert(rest.len() > 0);
                    assert(c[1] == rest[0]);
                    assert(rest[0] == s.skip(1)[0]);
                    assert(s.skip(1)[0] == s[1]);
                    assert(s[1] != '\n');
                }
            } else {
                assert(c[k] == rest[k - 1] && c[k + 1] == rest[k]);
                assert(!(rest[k - 1] == '\n' && rest[k] == '\n'));
            }
        }
    }
}

/// Finds the first `'$'`, as [`first_dollar_idx`] names it.
fn find_first_dollar(s: &str) -> (r: Option<usize>)
    ensures
        match r {
            Some(i) => i == first_dollar_idx(s@) && i < s@.len(),
            None => first_dollar_idx(s@) == s@.len(),
        },
{
    proof {
        lemma_first_dollar_idx(s@);
    }
    let n = s.unicode_len();
    let mut i: usize = 0;
    while i < n && s.get_char(i) != '$'
        invariant
            0 <= i <= n,
            n == s@.len(),
            forall|j: int| 0 <= j < i ==> s@[j] != '$',
        decreases n - i,
    {
        i = i + 1;
    }
    if i < n {
        Some(i)
    } else {
        None
    }
}

/// Runtime test for [`is_delim`].
fn delim(c: char) -> (r: bool)
    ensures
        r == is_delim(c),
{
    c == '$' || c == '}'
}

/// Finds one past the last `'$'` or `'}'`, as [`last_delim_end`] names it.
fn find_last_delim_end(s: &str) -> (r: usize)
    ensures
        r == last_delim_end(s@),
        r <= s@.len(),
{
    proof {
        lemma_last_delim_end(s@);
    }
    let n = s.unicode_len();
    let mut b: usize = n;
    while b > 0 && !delim(s.get_char(b - 1))
        invariant
            0 <= b <= n,
            n == s@.len(),
            forall|j: int| b <= j < n ==> !is_delim(s@[j]),
        decreases b,
    {
        b = b - 1;
    }
    b
}

/// Collapses every run of two or more newlines to a single newline.
fn collapse_blank_lines(s: &str) -> (r: String)
    ensures
        r@ == collapse_blank(s@),
{
    let n = s.unicode_len();
    let mut out = String::new();
    proof {
        assert(s@.skip(0) =~= s@);
        assert(out@ + collapse_blank(s@) =~= collapse_blank(s@));
    }
    let mut k: usize = 0;
    while k < n
        invariant
            0 <= k <= n,
            n == s@.len(),
            out@ + collapse_blank(s@.skip(k as int)) == collapse_blank(s@),
        decreases n - k,
    {
        let c = s.get_char(k);
        proof {
            assert(s@.skip(k as int).skip(1) =~= s@.skip(k + 1));
            assert(s@.skip(k as int)[0] == s@[k as int]);
        }
        if c == '\n' && k + 1 < n && s.get_char(k + 1) == '\n' {
            proof {
                assert(s@.skip(k as int)[1] == s@[k as int + 1]);
            }
        } else {
            out.append(s.substring_char(k, k + 1));
            proof {
                assert(s@.subrange(k as int, k as int + 1) =~= seq![s@[k as int]]);
                if s@.skip(k as int).len() >= 2 {
                    assert(s@.skip(k as int)[1] == s@[k as int + 1]);
                }
            }
        }
        k = k + 1;
    }
    proof {
        assert(s@.skip(n as int) =~= Seq::<char>::empty());
        assert(out@ + Seq::<char>::empty() =~= out@);
    }
    out
}

/// Trims the model's reply down to its LaTeX payload: drops leading
/// prose before the first `'$'`, drops trailing commentary after the
/// last `'$'` or `'}'`, collapses blank lines, and trims surrounding
/// whitespace. Pure and total; an input with no delimiters at all is
/// only collapsed and trimmed.
pub fn clean_latex(latex: &str) -> (r: String)
    ensures
        r@ == sanitize_spec(latex@),
        is_trimmed(r@),
{
    let n = latex.unicode_len();
    let s1: &str = match find_first_dollar(latex) {
        Some(i) => latex.substring_char(i, n),
        None => latex,
    };
    proof {
        lemma_first_dollar_idx(latex@);
        assert(s1@ =~= cut_head(latex@));
    }
    let m = s1.unicode_len();
    let e = find_last_delim_end(s1);
    let s2: &str = if e > 0 {
        s1.substring_char(0, e)
    } else {
        s1
    };
    proof {
        assert(s2@ =~= cut_tail(s1@));
    }
    let collapsed = collapse_blank_lines(s2);
    trim_str(collapsed.as_str())
}

/// Dropping leading whitespace cannot create a blank line.
proof fn lemma_no_blank_trim_start(s: Seq<char>)
    requires
        has_no_blank_line(s),
    ensures
        has_no_blank_line(crate::text::trim_start_spec(s)),
    decreases s.len(),
{
    if s.len() > 0 && crate::text::is_ws_char(s[0]) {
        assert(has_no_blank_line(s.skip(1))) by {
            assert forall|k: int|
                0 <= k && k + 1 < s.skip(1).len() implies !(#[trigger] s.skip(1)[k] == '\n'
                && s.skip(1)[k + 1] == '\n') by {
                assert(s.skip(1)[k] == s[k + 1] && s.skip(1)[k + 1] == s[k + 2]);
            }
        }
        lemma_no_blank_trim_start(s.skip(1));
    }
}

/// Dropping trailing whitespace cannot create a blank line.
proof fn lemma_no_blank_trim_end(s: Seq<char>)
    requires
        has_no_blank_line(s),
    ensures
        has_no_blank_line(crate::text::trim_end_spec(s)),
    decreases s.len(),
{
    if s.len() > 0 && crate::text::is_ws_char(s.last()) {
        assert(has_no_blank_line(s.take(s.len() - 1))) by {
            assert forall|k: int|
                0 <= k && k + 1 < s.take(s.len() - 1).len() implies !(#[trigger] s.take(
                s.len() - 1,
            )[k] == '\n' && s.take(s.len() - 1)[k + 1] == '\n') by {
                assert(s.take(s.len() - 1)[k] == s[k] && s.take(s.len() - 1)[k + 1] == s[k + 1]);
            }
        }
        lemma_no_blank_trim_end(s.take(s.len() - 1));
    }
}

/// The sanitizer's output never holds a blank line: the collapse step
/// removes every one, and trimming cannot create one.
pub proof fn lemma_sanitize_no_blank_line(s: Seq<char>)
    ensures
        has_no_blank_line(sanitize_spec(s)),
{
    let c = collapse_blank(cut_tail(cut_head(s)));
    lemma_collapse_no_blank_line(cut_tail(cut_head(s)));
    lemma_no_blank_trim_start(c);
    lemma_no_blank_trim_end(crate::text::trim_start_spec(c));
}

} // verus!
