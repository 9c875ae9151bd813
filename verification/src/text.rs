//! Character-level helpers shared by the router: finding a delimiter,
//! splitting on it, and skipping runs of blanks.

use vstd::prelude::*;
use vstd::string::*;

verus! {

/// Position of the first `c` in `s`, or `s.len()` where `s` holds none.
pub open spec fn index_of(s: Seq<char>, c: char) -> int
    decreases s.len(),
{
    if s.len() == 0 {
        0
    } else if s[0] == c {
        0
    } else {
        1 + index_of(s.drop_first(), c)
    }
}

/// `index_of` stays within the sequence, passes over no `c`, and stops on one.
pub proof fn lemma_index_of_bounds(s: Seq<char>, c: char)
    ensures
        0 <= index_of(s, c) <= s.len(),
        forall|j: int| 0 <= j < index_of(s, c) ==> s[j] != c,
        index_of(s, c) < s.len() ==> s[index_of(s, c)] == c,
    decreases s.len(),
{
    if s.len() > 0 && s[0] != c {
        let t = s.drop_first();
        lemma_index_of_bounds(t, c);
        assert forall|j: int| 0 <= j < index_of(s, c) implies s[j] != c by {
            if j > 0 {
                assert(s[j] == t[j - 1]);
            }
        }
    }
}

/// A position that passes over no `c` and stops on one, or at the end, is `index_of`.
pub proof fn lemma_index_of_unique(s: Seq<char>, c: char, p: int)
    requires
        0 <= p <= s.len(),
        forall|j: int| 0 <= j < p ==> s[j] != c,
        p < s.len() ==> s[p] == c,
    ensures
        index_of(s, c) == p,
    decreases s.len(),
{
    if s.len() > 0 && s[0] != c {
        let t = s.drop_first();
        assert forall|j: int| 0 <= j < p - 1 implies t[j] != c by {
            assert(t[j] == s[j + 1]);
        }
        lemma_index_of_unique(t, c, p - 1);
    }
}

/// The pieces of `s` between occurrences of `sep`, in order; always at least one piece.
pub open spec fn split_on(s: Seq<char>, sep: char) -> Seq<Seq<char>>
    decreases s.len(),
{
    let i = index_of(s, sep);
    if 0 <= i < s.len() {
        seq![s.subrange(0, i)] + split_on(s.subrange(i + 1, s.len() as int), sep)
    } else {
        seq![s]
    }
}

/// The views of a sequence of strings.
pub open spec fn views_of(v: Seq<String>) -> Seq<Seq<char>> {
    Seq::new(v.len(), |i: int| v[i]@)
}

/// The blanks that separate the tokens of a request line.
pub open spec fn is_blank(c: char) -> bool {
    c == ' ' || c == '\t' || c == '\n' || c == '\r'
}

/// Number of blanks (`blank`) or of other characters (`!blank`) that `s` starts with.
pub open spec fn run_length(s: Seq<char>, blank: bool) -> int
    decreases s.len(),
{
    if s.len() == 0 {
        0
    } else if is_blank(s[0]) != blank {
        0
    } else {
        1 + run_length(s.drop_first(), blank)
    }
}

pub proof fn lemma_run_length_bounds(s: Seq<char>, blank: bool)
    ensures
        0 <= run_length(s, blank) <= s.len(),
    decreases s.len(),
{
    if s.len() > 0 && is_blank(s[0]) == blank {
        lemma_run_length_bounds(s.drop_first(), blank);
    }
}

/// A position before which every character is of the run's kind, and at which
/// the run ends, is `run_length`.
pub proof fn lemma_run_length_unique(s: Seq<char>, blank: bool, p: int)
    requires
        0 <= p <= s.len(),
        forall|j: int| 0 <= j < p ==> is_blank(s[j]) == blank,
        p < s.len() ==> is_blank(s[p]) != blank,
    ensures
        run_length(s, blank) == p,
    decreases s.len(),
{
    if s.len() > 0 && is_blank(s[0]) == blank {
        let t = s.drop_first();
        assert forall|j: int| 0 <= j < p - 1 implies is_blank(t[j]) == blank by {
            assert(t[j] == s[j + 1]);
        }
        lemma_run_length_unique(t, blank, p - 1);
    }
}

/// Finds the first `c` in `s`; the length of `s` where there is none.
pub fn find_char(s: &str, c: char) -> (r: usize)
    ensures
        r == index_of(s@, c),
        r <= s@.len(),
{
    let n: usize = s.unicode_len();
    let mut i: usize = 0;
    while i < n && s.get_char(i) != c
        invariant
            n == s@.len(),
            i <= n,
            forall|j: int| 0 <= j < i ==> s@[j] != c,
        decreases n - i,
    {
        i += 1;
    }
    proof {
        lemma_index_of_unique(s@, c, i as int);
    }
    i
}

/// Counts the blanks (`blank`) or the other characters (`!blank`) at the start of `s`.
pub fn scan_run(s: &str, blank: bool) -> (r: usize)
    ensures
        r == run_length(s@, blank),
        r <= s@.len(),
{
    let n: usize = s.unicode_len();
    let mut i: usize = 0;
    while i < n && blank_char(s.get_char(i)) == blank
        invariant
            n == s@.len(),
            i <= n,
            forall|j: int| 0 <= j < i ==> is_blank(s@[j]) == blank,
        decreases n - i,
    {
        i += 1;
    }
    proof {
        lemma_run_length_unique(s@, blank, i as int);
    }
    i
}

/// Whether `c` is one of the blanks that separate tokens.
pub fn blank_char(c: char) -> (r: bool)
    ensures
        r == is_blank(c),
{
    c == ' ' || c == '\t' || c == '\n' || c == '\r'
}

/// Splits `s` on every `sep`, keeping empty pieces.
pub fn split_chars(s: &str, sep: char) -> (out: Vec<String>)
    ensures
        views_of(out@) == split_on(s@, sep),
        out@.len() >= 1,
{
    let mut out: Vec<String> = Vec::new();
    let mut rest: &str = s;
    loop
        invariant
            split_on(s@, sep) == views_of(out@) + split_on(rest@, sep),
        decreases rest@.len(),
    {
        let n: usize = rest.unicode_len();
        let i: usize = find_char(rest, sep);
        let ghost before = views_of(out@);
        if i < n {
            let piece = rest.substring_char(0, i);
            out.push(String::from_str(piece));
            let tail = rest.substring_char(i + 1, n);
            proof {
                assert(views_of(out@) =~= before + seq![piece@]);
                assert(split_on(rest@, sep) == seq![piece@] + split_on(tail@, sep));
                assert(before + (seq![piece@] + split_on(tail@, sep)) =~= (before + seq![piece@])
                    + split_on(tail@, sep));
            }
            rest = tail;
        } else {
            out.push(String::from_str(rest));
            proof {
                assert(views_of(out@) =~= before + seq![rest@]);
                assert(split_on(rest@, sep) == seq![rest@]);
            }
            return out;
        }
    }
}

} // verus!
