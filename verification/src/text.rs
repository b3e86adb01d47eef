//! Fitting a line of text into a number of columns, with an ellipsis when it
//! does not fit.

use vstd::prelude::*;
use vstd::string::*;
use crate::width::{layout_width, layout_width_of};

verus! {

/// Total layout width of `s`.
pub open spec fn seq_width(s: Seq<char>) -> int
    decreases s.len(),
{
    if s.len() == 0 {
        0
    } else {
        seq_width(s.drop_last()) + layout_width(s.last())
    }
}

/// The largest `k <= n` whose prefix `s.take(k)` is at most `budget` columns wide.
pub open spec fn fit_prefix_len(s: Seq<char>, budget: int, n: int) -> int
    decreases n,
{
    if n <= 0 {
        0
    } else if seq_width(s.take(n)) <= budget {
        n
    } else {
        fit_prefix_len(s, budget, n - 1)
    }
}

/// The text shown in `avail` columns and its width: the whole text if it fits;
/// otherwise the longest prefix that leaves room for `...` followed by `...`
/// (three or more columns), or a single `…` (one or two columns).
pub open spec fn fitted_text(text: Seq<char>, avail: int) -> (Seq<char>, int) {
    if avail <= 0 {
        (Seq::empty(), 0)
    } else if seq_width(text) <= avail {
        (text, seq_width(text))
    } else if avail >= 3 {
        let k = fit_prefix_len(text, avail - 3, text.len() as int);
        (text.take(k) + seq!['.', '.', '.'], seq_width(text.take(k)) + 3)
    } else {
        (seq!['\u{2026}'], 1)
    }
}

proof fn lemma_layout_width_nonneg(c: char)
    ensures
        layout_width(c) >= 0,
{
}

proof fn lemma_take_step(s: Seq<char>, n: int)
    requires
        0 <= n < s.len(),
    ensures
        seq_width(s.take(n + 1)) == seq_width(s.take(n)) + layout_width(s[n]),
{
    assert(s.take(n + 1).drop_last() =~= s.take(n));
}

/// Widths of prefixes grow with their length.
proof fn lemma_prefix_width_mono(s: Seq<char>, j: int, n: int)
    requires
        0 <= j <= n <= s.len(),
    ensures
        seq_width(s.take(j)) <= seq_width(s.take(n)),
    decreases n - j,
{
    if j < n {
        lemma_prefix_width_mono(s, j, n - 1);
        lemma_take_step(s, n - 1);
        lemma_layout_width_nonneg(s[n - 1]);
    }
}

proof fn lemma_width_nonneg(s: Seq<char>)
    ensures
        seq_width(s) >= 0,
    decreases s.len(),
{
    if s.len() > 0 {
        lemma_width_nonneg(s.drop_last());
        lemma_layout_width_nonneg(s.last());
    }
}

/// The searched prefix is within bounds and fits the budget when the budget is non-negative.
proof fn lemma_fit_prefix_bounds(s: Seq<char>, budget: int, n: int)
    requires
        0 <= n <= s.len(),
        budget >= 0,
    ensures
        0 <= fit_prefix_len(s, budget, n) <= n,
        seq_width(s.take(fit_prefix_len(s, budget, n))) <= budget,
    decreases n,
{
    if n <= 0 {
        assert(s.take(0) =~= Seq::<char>::empty());
    } else if seq_width(s.take(n)) <= budget {
    } else {
        lemma_fit_prefix_bounds(s, budget, n - 1);
    }
}

/// `j` is the searched prefix when it fits and every longer prefix up to `n` does not.
proof fn lemma_fit_prefix_exact(s: Seq<char>, budget: int, n: int, j: int)
    requires
        0 <= j <= n <= s.len(),
        seq_width(s.take(j)) <= budget,
        j < n ==> seq_width(s.take(j + 1)) > budget,
    ensures
        fit_prefix_len(s, budget, n) == j,
    decreases n,
{
    if n > j {
        lemma_prefix_width_mono(s, j + 1, n);
        lemma_fit_prefix_exact(s, budget, n - 1, j);
    } else {
        if n <= 0 {
        }
    }
}

/// The fitted text never needs more than the available columns.
pub proof fn lemma_fitted_width(text: Seq<char>, avail: int)
    requires
        avail >= 0,
    ensures
        0 <= fitted_text(text, avail).1 <= avail,
        fitted_text(text, avail).0.len() == 0 ==> fitted_text(text, avail).1 == 0,
{
    lemma_width_nonneg(text);
    if avail > 0 && seq_width(text) > avail && avail >= 3 {
        lemma_fit_prefix_bounds(text, avail - 3, text.len() as int);
        lemma_width_nonneg(text.take(fit_prefix_len(text, avail - 3, text.len() as int)));
    }
    if avail > 0 && seq_width(text) <= avail && text.len() == 0 {
        assert(seq_width(text) == 0);
    }
}

/// The characters of `s`.
pub fn str_chars(s: &str) -> (v: Vec<char>)
    ensures
        v@ == s@,
{
    let n = s.unicode_len();
    let mut v: Vec<char> = Vec::new();
    let mut i: usize = 0;
    while i < n
        invariant
            i <= n,
            n == s@.len(),
            v@ == s@.take(i as int),
        decreases n - i,
    {
        let c = s.get_char(i);
        v.push(c);
        proof {
            assert(s@.take(i + 1) =~= s@.take(i as int).push(c));
        }
        i = i + 1;
    }
    assert(s@.take(n as int) =~= s@);
    v
}

/// Fits `text` into `available_width` columns: keeps it whole when it fits,
/// otherwise cuts it and ends it with `...`, or shows `…` alone when fewer than
/// three columns are available. Returns the characters and their width.
pub fn fit_text_with_ellipsis(text: &Vec<char>, available_width: usize) -> (r: (Vec<char>, usize))
    ensures
        r.0@ == fitted_text(text@, available_width as int).0,
        r.1 as int == fitted_text(text@, available_width as int).1,
{
    if available_width == 0 {
        return (Vec::new(), 0);
    }
    let ghost t = text@;
    let ghost avail = available_width as int;
    let mut current_width: usize = 0;
    let mut chars_vec: Vec<char> = Vec::new();
    let mut i: usize = 0;
    proof {
        assert(t.take(0) =~= Seq::<char>::empty());
    }
    while i < text.len()
        invariant
            i <= text.len(),
            t == text@,
            avail == available_width as int,
            1 <= available_width,
            chars_vec@ == t.take(i as int),
            current_width as int == seq_width(t.take(i as int)),
            current_width <= available_width,
        decreases text.len() - i,
    {
        let ch = text[i];
        let w = layout_width_of(ch);
        if w <= available_width - current_width {
            chars_vec.push(ch);
            current_width = current_width + w;
            proof {
                lemma_take_step(t, i as int);
                assert(t.take(i + 1) =~= t.take(i as int).push(ch));
            }
            i = i + 1;
        } else {
            proof {
                lemma_take_step(t, i as int);
                lemma_prefix_width_mono(t, i + 1, t.len() as int);
                assert(t.take(t.len() as int) =~= t);
            }
            if available_width >= 3 {
                let ghost mut j: int = i as int;
                while available_width - current_width < 3 && chars_vec.len() > 0
                    invariant
                        0 <= j <= i < t.len(),
                        t == text@,
                        avail == available_width as int,
                        3 <= available_width,
                        chars_vec@ == t.take(j),
                        current_width as int == seq_width(t.take(j)),
                        current_width <= available_width,
                        seq_width(t.take(j + 1)) + 3 > avail,
                    decreases j,
                {
                    let last = chars_vec.pop().unwrap();
                    proof {
                        lemma_take_step(t, j - 1);
                        assert(t.take(j - 1) =~= t.take(j).drop_last());
                        lemma_width_nonneg(t.take(j - 1));
                        j = j - 1;
                    }
                    let lw = layout_width_of(last);
                    current_width = current_width - lw;
                }
                proof {
                    if chars_vec.len() == 0 {
                        assert(t.take(0) =~= Seq::<char>::empty());
                    }
                    lemma_fit_prefix_exact(t, avail - 3, t.len() as int, j);
                }
                chars_vec.push('.');
                chars_vec.push('.');
                chars_vec.push('.');
                current_width = current_width + 3;
                proof {
                    assert(chars_vec@ =~= t.take(j) + seq!['.', '.', '.']);
                }
            } else {
                chars_vec.clear();
                chars_vec.push('\u{2026}');
                current_width = 1;
                proof {
                    assert(chars_vec@ =~= seq!['\u{2026}']);
                }
            }
            return (chars_vec, current_width);
        }
    }
    proof {
        assert(t.take(t.len() as int) =~= t);
    }
    (chars_vec, current_width)
}


/// Calls `String::push`, which std documents as appending `c` to the end of
/// the string.
#[verifier::external_body]
pub(crate) fn push_char(s: &mut String, c: char)
    ensures
        final(s)@ == old(s)@.push(c),
{
    s.push(c);
}

/// Calls `String::pop`, which std documents as removing the last character
/// and returning it, or returning `None` when the string is empty.
#[verifier::external_body]
pub(crate) fn pop_char(s: &mut String) -> (c: Option<char>)
    ensures
        old(s)@.len() == 0 ==> c is None && final(s)@ == old(s)@,
        old(s)@.len() > 0 ==> c == Some(old(s)@.last()) && final(s)@ == old(s)@.drop_last(),
{
    s.pop()
}

} // verus!
