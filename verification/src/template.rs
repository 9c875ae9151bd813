//! Route templates: `/`-delimited segments, of which those that begin with
//! `:` are named. A template is turned into the text of a regex, and the
//! captures of a match are read back as parameters, in template order.

use vstd::prelude::*;
use vstd::string::*;
use crate::matcher::{escape_literal, escaped, group_views};
use crate::param_map::ParamMap;
use crate::text::{split_chars, split_on, views_of};

verus! {

/// A segment is named where it begins with the marker `:`.
pub open spec fn is_named(segment: Seq<char>) -> bool {
    segment.len() > 0 && segment[0] == ':'
}

/// `s` without its `:` characters.
pub open spec fn without_markers(s: Seq<char>) -> Seq<char>
    decreases s.len(),
{
    if s.len() == 0 {
        Seq::empty()
    } else if s.last() == ':' {
        without_markers(s.drop_last())
    } else {
        without_markers(s.drop_last()).push(s.last())
    }
}

/// The key that a named segment introduces.
pub open spec fn segment_name(segment: Seq<char>) -> Seq<char> {
    without_markers(segment)
}

/// The regex text for one segment: a group that captures one path segment for
/// a named segment, the escaped text for a literal one.
pub open spec fn segment_pattern(segment: Seq<char>) -> Seq<char> {
    if is_named(segment) {
        "([^/]+)"@
    } else {
        escaped(segment)
    }
}

/// The regex texts of the first `n` segments, joined by `/`.
pub open spec fn joined_patterns(segments: Seq<Seq<char>>, n: int) -> Seq<char>
    decreases n,
{
    if n <= 0 {
        Seq::empty()
    } else if n == 1 {
        segment_pattern(segments[0])
    } else {
        joined_patterns(segments, n - 1) + "/"@ + segment_pattern(segments[n - 1])
    }
}

/// The regex text of a template: anchored at both ends, one piece per
/// segment, and an optional query and fragment before the end.
pub open spec fn route_pattern(template: Seq<char>) -> Seq<char> {
    let segments = split_on(template, '/');
    "^"@ + joined_patterns(segments, segments.len() as int) + "(?:\\?([^#]+))?(?:#(.*))?$"@
}

/// How many of the first `n` segments are named.
pub open spec fn named_count(segments: Seq<Seq<char>>, n: int) -> int
    decreases n,
{
    if n <= 0 {
        0
    } else if is_named(segments[n - 1]) {
        named_count(segments, n - 1) + 1
    } else {
        named_count(segments, n - 1)
    }
}

/// The capture of group `i`, if the match has such a group and it took part.
pub open spec fn group_at(groups: Seq<Option<Seq<char>>>, i: int) -> Option<Seq<char>> {
    if 0 <= i < groups.len() {
        groups[i]
    } else {
        None
    }
}

/// The parameters that the first `n` segments give: the k-th named segment
/// (counting from 1) is bound to group k where that group has a capture, and
/// is left out where it has none. Literal segments bind nothing.
pub open spec fn params_upto(
    segments: Seq<Seq<char>>,
    groups: Seq<Option<Seq<char>>>,
    n: int,
) -> Map<Seq<char>, Seq<char>>
    decreases n,
{
    if n <= 0 {
        Map::empty()
    } else {
        let before = params_upto(segments, groups, n - 1);
        let segment = segments[n - 1];
        if is_named(segment) {
            match group_at(groups, named_count(segments, n - 1) + 1) {
                Some(value) => before.insert(segment_name(segment), value),
                None => before,
            }
        } else {
            before
        }
    }
}

/// The parameters of a template under the captures of a match.
pub open spec fn template_params(template: Seq<char>, groups: Seq<Option<Seq<char>>>) -> Map<
    Seq<char>,
    Seq<char>,
> {
    let segments = split_on(template, '/');
    params_upto(segments, groups, segments.len() as int)
}

/// Whether a segment begins with the marker.
pub fn starts_with_marker(segment: &str) -> (r: bool)
    ensures
        r == is_named(segment@),
{
    segment.unicode_len() > 0 && segment.get_char(0) == ':'
}

/// The key of a named segment: its text without `:`.
pub fn strip_markers(segment: &str) -> (name: String)
    ensures
        name@ == segment_name(segment@),
{
    let n: usize = segment.unicode_len();
    let mut name = String::new();
    let mut i: usize = 0;
    while i < n
        invariant
            n == segment@.len(),
            i <= n,
            name@ == without_markers(segment@.take(i as int)),
        decreases n - i,
    {
        proof {
            assert(segment@.take(i + 1).drop_last() =~= segment@.take(i as int));
        }
        if segment.get_char(i) != ':' {
            let piece = segment.substring_char(i, i + 1);
            proof {
                assert(piece@ =~= seq![segment@[i as int]]);
                assert(name@ + piece@ =~= name@.push(segment@[i as int]));
            }
            name.append(piece);
        }
        i += 1;
    }
    proof {
        assert(segment@.take(n as int) =~= segment@);
    }
    name
}

/// The text of the regex that matches the shape of `template`.
pub fn pattern_text(template: &str) -> (pattern: String)
    ensures
        pattern@ == route_pattern(template@),
{
    let segments = split_chars(template, '/');
    let mut joined = String::new();
    let mut i: usize = 0;
    while i < segments.len()
        invariant
            i <= segments@.len(),
            joined@ == joined_patterns(views_of(segments@), i as int),
        decreases segments@.len() - i,
    {
        if i > 0 {
            joined.append("/");
        }
        let segment = segments[i].as_str();
        proof {
            assert(views_of(segments@)[i as int] == segment@);
            if i == 0 {
                assert(Seq::<char>::empty() + segment_pattern(segment@) =~= segment_pattern(
                    segment@,
                ));
            }
        }
        if starts_with_marker(segment) {
            joined.append("([^/]+)");
        } else {
            let literal = escape_literal(segment);
            joined.append(literal.as_str());
        }
        i += 1;
    }
    let mut pattern = String::from_str("^");
    pattern.append(joined.as_str());
    pattern.append("(?:\\?([^#]+))?(?:#(.*))?$");
    pattern
}

/// Reads the parameters of `template` from the captures of a match: the
/// segments are walked in order, and each named one takes the next group.
pub fn params_from_captures(template: &str, captures: &Vec<Option<String>>) -> (params: ParamMap)
    ensures
        params@ == template_params(template@, group_views(captures@)),
{
    let segments = split_chars(template, '/');
    let mut params = ParamMap::new();
    let mut named: usize = 0;
    let mut i: usize = 0;
    while i < segments.len()
        invariant
            i <= segments@.len(),
            named == named_count(views_of(segments@), i as int),
            named <= i,
            params@ == params_upto(views_of(segments@), group_views(captures@), i as int),
        decreases segments@.len() - i,
    {
        let segment = segments[i].as_str();
        proof {
            assert(views_of(segments@)[i as int] == segment@);
        }
        if starts_with_marker(segment) {
            if named + 1 < captures.len() {
                match &captures[named + 1] {
                    Some(value) => {
                        params.insert(strip_markers(segment), value.clone());
                    },
                    None => {},
                }
            }
            named += 1;
        }
        i += 1;
    }
    params
}

/// Whether the named segments among the first `n` have pairwise distinct keys.
pub open spec fn distinct_names(segments: Seq<Seq<char>>, n: int) -> bool {
    forall|i: int, j: int|
        0 <= i < j < n && is_named(segments[i]) && is_named(segments[j]) ==> segment_name(
            segments[i],
        ) != segment_name(segments[j])
}

/// Whether each of the groups 1 to `k` has a capture.
pub open spec fn groups_present(groups: Seq<Option<Seq<char>>>, k: int) -> bool {
    forall|g: int| 1 <= g <= k ==> (#[trigger] group_at(groups, g)) is Some
}

/// Whether `params` binds exactly the keys of the named segments among the
/// first `n`, each to the capture of the group with the segment's rank among
/// the named ones.
pub open spec fn binds_named_segments(
    params: Map<Seq<char>, Seq<char>>,
    segments: Seq<Seq<char>>,
    groups: Seq<Option<Seq<char>>>,
    n: int,
) -> bool {
    &&& params.dom().finite()
    &&& params.dom().len() == named_count(segments, n)
    &&& forall|i: int|
        0 <= i < n && is_named(#[trigger] segments[i]) ==> {
            &&& params.contains_key(segment_name(segments[i]))
            &&& Some(params[segment_name(segments[i])]) == group_at(
                groups,
                named_count(segments, i) + 1,
            )
        }
    &&& forall|key: Seq<char>|
        params.contains_key(key) ==> exists|i: int|
            0 <= i < n && is_named(#[trigger] segments[i]) && segment_name(segments[i]) == key
}

/// A template with k named segments, whose keys are distinct, under a match
/// that has a capture for each of the groups 1 to k: the parameters are
/// exactly k, their keys are the names of the named segments, and the value
/// of each is the capture that stands at the segment's place in template
/// order.
pub proof fn lemma_one_param_per_named_segment(
    template: Seq<char>,
    groups: Seq<Option<Seq<char>>>,
)
    requires
        distinct_names(split_on(template, '/'), split_on(template, '/').len() as int),
        groups_present(
            groups,
            named_count(split_on(template, '/'), split_on(template, '/').len() as int),
        ),
    ensures
        binds_named_segments(
            template_params(template, groups),
            split_on(template, '/'),
            groups,
            split_on(template, '/').len() as int,
        ),
{
    let segments = split_on(template, '/');
    lemma_params_follow_template(segments, groups, segments.len() as int);
}

/// The same, for the first `n` segments of any list of segments.
pub proof fn lemma_params_follow_template(
    segments: Seq<Seq<char>>,
    groups: Seq<Option<Seq<char>>>,
    n: int,
)
    requires
        0 <= n <= segments.len(),
        groups_present(groups, named_count(segments, n)),
        distinct_names(segments, n),
    ensures
        binds_named_segments(params_upto(segments, groups, n), segments, groups, n),
    decreases n,
{
    if n > 0 {
        lemma_named_count_monotone(segments, n - 1, n);
        lemma_params_follow_template(segments, groups, n - 1);
        let before = params_upto(segments, groups, n - 1);
        let after = params_upto(segments, groups, n);
        let segment = segments[n - 1];
        if is_named(segment) {
            let rank = named_count(segments, n - 1) + 1;
            assert(group_at(groups, rank) is Some);
            let value = group_at(groups, rank)->Some_0;
            assert(after == before.insert(segment_name(segment), value));
            if before.contains_key(segment_name(segment)) {
                let i = choose|i: int|
                    0 <= i < n - 1 && is_named(#[trigger] segments[i]) && segment_name(segments[i])
                        == segment_name(segment);
                assert(false);
            }
            assert forall|i: int| 0 <= i < n && is_named(#[trigger] segments[i]) implies {
                &&& after.contains_key(segment_name(segments[i]))
                &&& Some(after[segment_name(segments[i])]) == group_at(
                    groups,
                    named_count(segments, i) + 1,
                )
            } by {
                if i < n - 1 {
                    assert(segment_name(segments[i]) != segment_name(segment));
                }
            }
            assert forall|key: Seq<char>| after.contains_key(key) implies exists|i: int|
                0 <= i < n && is_named(#[trigger] segments[i]) && segment_name(segments[i])
                    == key by {
                if key == segment_name(segment) {
                    assert(is_named(segments[n - 1]));
                } else {
                    assert(before.contains_key(key));
                    let i = choose|i: int|
                        0 <= i < n - 1 && is_named(#[trigger] segments[i]) && segment_name(
                            segments[i],
                        ) == key;
                    assert(is_named(segments[i]));
                }
            }
        } else {
            assert(after == before);
            assert forall|key: Seq<char>| after.contains_key(key) implies exists|i: int|
                0 <= i < n && is_named(#[trigger] segments[i]) && segment_name(segments[i])
                    == key by {
                let i = choose|i: int|
                    0 <= i < n - 1 && is_named(#[trigger] segments[i]) && segment_name(segments[i])
                        == key;
                assert(is_named(segments[i]));
            }
        }
    }
}

/// More segments hold at least as many named ones.
pub proof fn lemma_named_count_monotone(segments: Seq<Seq<char>>, m: int, n: int)
    requires
        m <= n,
    ensures
        named_count(segments, m) <= named_count(segments, n),
        0 <= named_count(segments, m),
    decreases n - m,
{
    lemma_named_count_nonnegative(segments, m);
    if m < n {
        lemma_named_count_monotone(segments, m, n - 1);
    }
}

/// The count of named segments is not negative.
pub proof fn lemma_named_count_nonnegative(segments: Seq<Seq<char>>, n: int)
    ensures
        0 <= named_count(segments, n),
    decreases n,
{
    if n > 0 {
        lemma_named_count_nonnegative(segments, n - 1);
    }
}

} // verus!
