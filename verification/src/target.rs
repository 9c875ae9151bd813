//! Splitting a request target into its path and query components. The
//! fragment, if any, is dropped.

use vstd::prelude::*;
use vstd::string::*;
use crate::text::{find_char, index_of, lemma_index_of_bounds, lemma_index_of_unique};

verus! {

/// Whether `s` holds a `c`.
pub open spec fn has_char(s: Seq<char>, c: char) -> bool {
    index_of(s, c) < s.len()
}

/// What follows the first `?` of a target that has one.
pub open spec fn after_query_mark(target: Seq<char>) -> Seq<char> {
    target.subrange(index_of(target, '?') + 1, target.len() as int)
}

/// The path component: everything before the first `?`; without a `?`,
/// everything before the first `#`; without either, the whole target.
pub open spec fn path_component(target: Seq<char>) -> Seq<char> {
    if has_char(target, '?') {
        target.subrange(0, index_of(target, '?'))
    } else {
        target.subrange(0, index_of(target, '#'))
    }
}

/// The query component: what stands between the first `?` and the first `#`
/// after it (or the end); empty without a `?`. A `#` before the `?` is not a
/// fragment marker.
pub open spec fn query_component(target: Seq<char>) -> Seq<char> {
    if has_char(target, '?') {
        let rest = after_query_mark(target);
        rest.subrange(0, index_of(rest, '#'))
    } else {
        Seq::empty()
    }
}

/// The path component of a request target, without query and fragment.
pub fn remove_query_and_fragment(url_str: &str) -> (path: String)
    ensures
        path@ == path_component(url_str@),
{
    let n: usize = url_str.unicode_len();
    let query_index: usize = find_char(url_str, '?');
    if query_index < n {
        return String::from_str(url_str.substring_char(0, query_index));
    }
    let fragment_index: usize = find_char(url_str, '#');
    String::from_str(url_str.substring_char(0, fragment_index))
}

/// The query component of a request target, without the `?` and the fragment.
pub fn query_string(url_str: &str) -> (query: String)
    ensures
        query@ == query_component(url_str@),
{
    let n: usize = url_str.unicode_len();
    let query_index: usize = find_char(url_str, '?');
    if query_index < n {
        let rest = url_str.substring_char(query_index + 1, n);
        let fragment_index: usize = find_char(rest, '#');
        return String::from_str(rest.substring_char(0, fragment_index));
    }
    String::new()
}

/// Both components of a request target at once.
pub fn split_target(url_str: &str) -> (parts: (String, String))
    ensures
        parts.0@ == path_component(url_str@),
        parts.1@ == query_component(url_str@),
{
    (remove_query_and_fragment(url_str), query_string(url_str))
}

/// In `a + b`, the first `c` is that of `a` where `a` has one, else that of `b`.
pub proof fn lemma_index_of_concat(a: Seq<char>, b: Seq<char>, c: char)
    ensures
        index_of(a + b, c) == if has_char(a, c) {
            index_of(a, c)
        } else {
            a.len() + index_of(b, c)
        },
{
    lemma_index_of_bounds(a, c);
    lemma_index_of_bounds(b, c);
    let s = a + b;
    let p = if has_char(a, c) { index_of(a, c) } else { a.len() + index_of(b, c) };
    assert forall|j: int| 0 <= j < p implies s[j] != c by {
        if j < a.len() {
            assert(s[j] == a[j]);
        } else {
            assert(s[j] == b[j - a.len()]);
        }
    }
    if p < s.len() {
        if has_char(a, c) {
            assert(s[p] == a[p]);
        } else {
            assert(s[p] == b[p - a.len()]);
        }
    }
    lemma_index_of_unique(s, c, p);
}

/// A fragment appended to a target changes neither its path component nor its
/// query component: for a target without `#`, and a fragment that either
/// follows a query or holds no `?` itself.
pub proof fn lemma_fragment_is_discarded(target: Seq<char>, fragment: Seq<char>)
    requires
        !has_char(target, '#'),
        has_char(target, '?') || !has_char(fragment, '?'),
    ensures
        path_component(target + seq!['#'] + fragment) == path_component(target),
        query_component(target + seq!['#'] + fragment) == query_component(target),
{
    let tail = seq!['#'] + fragment;
    let whole = target + tail;
    assert(whole =~= target + seq!['#'] + fragment);
    lemma_index_of_bounds(target, '?');
    lemma_index_of_bounds(target, '#');
    lemma_index_of_concat(target, tail, '?');
    lemma_index_of_concat(target, tail, '#');
    lemma_index_of_concat(seq!['#'], fragment, '?');
    lemma_index_of_bounds(fragment, '?');
    assert(index_of(tail, '#') == 0);
    if has_char(target, '?') {
        let q = index_of(target, '?');
        assert(whole.subrange(0, q) =~= target.subrange(0, q));
        let rest = after_query_mark(target);
        let rest_whole = after_query_mark(whole);
        assert(rest_whole =~= rest + tail);
        lemma_index_of_bounds(rest, '#');
        if has_char(rest, '#') {
            let k = index_of(rest, '#');
            assert(target[q + 1 + k] == rest[k]);
        }
        lemma_index_of_concat(rest, tail, '#');
        assert(rest_whole.subrange(0, rest.len() as int) =~= rest.subrange(0, rest.len() as int));
    } else {
        assert(index_of(seq!['#'], '?') == 1) by {
            lemma_index_of_unique(seq!['#'], '?', 1);
        }
        assert(!has_char(whole, '?'));
        assert(whole.subrange(0, target.len() as int) =~= target.subrange(0, target.len() as int));
    }
}

} // verus!
