//! The request that a handler receives: the method, the parameters taken
//! from the path, and the pairs of the query string.

use vstd::prelude::*;
use vstd::string::*;
use crate::http_input_stream::HttpInputStream;
use crate::http_server::Route;
use crate::matcher::{captures_view, form_pairs, parse_form_pairs, pattern_groups};
use crate::param_map::{pair_views, pairs_to_map, ParamMap};
use crate::target::{
    has_char, lemma_fragment_is_discarded, path_component, query_component, query_string,
    remove_query_and_fragment,
};
use crate::template::{params_from_captures, template_params};

verus! {

/// The request methods of HTTP.
#[derive(Clone, Copy, Debug, PartialEq, Eq, Structural)]
pub enum Method {
    Get,
    Head,
    Post,
    Put,
    Delete,
    Connect,
    Options,
    Trace,
    Patch,
}

/// What a handler is called with.
pub struct HttpRequest {
    pub method: Method,
    pub params: ParamMap,
    pub query: ParamMap,
}

/// The mapping that the query component of `target` stands for: its decoded
/// pairs, a later pair replacing an earlier one with the same name.
pub open spec fn target_query(target: Seq<char>) -> Map<Seq<char>, Seq<char>> {
    pairs_to_map(form_pairs(query_component(target)))
}

/// The parameters that a route with this template and regex text reads from
/// the path component of `target`; none where the regex finds no match in it.
pub open spec fn route_params(template: Seq<char>, pattern: Seq<char>, target: Seq<char>) -> Map<
    Seq<char>,
    Seq<char>,
> {
    match pattern_groups(pattern, path_component(target)) {
        Some(groups) => template_params(template, groups),
        None => Map::empty(),
    }
}

impl HttpRequest {
    /// A `GET` request without parameters and without query.
    pub fn new() -> (r: HttpRequest)
        ensures
            r.method == Method::Get,
            r.params@ == Map::<Seq<char>, Seq<char>>::empty(),
            r.query@ == Map::<Seq<char>, Seq<char>>::empty(),
    {
        HttpRequest { method: Method::Get, params: ParamMap::new(), query: ParamMap::new() }
    }

    /// The request that `route` is to handle for the target of `input_stream`.
    pub fn parse<H>(input_stream: &HttpInputStream, route: &Route<H>) -> (r: HttpRequest)
        ensures
            r.method == Method::Get,
            r.query@ == target_query(input_stream.relative_path@),
            !has_char(input_stream.relative_path@, '?') ==> r.query@ == Map::<
                Seq<char>,
                Seq<char>,
            >::empty(),
            r.params@ == route_params(
                route.template(),
                route.pattern(),
                input_stream.relative_path@,
            ),
    {
        let query = extract_from_http_input_stream_query(input_stream.relative_path.as_str());
        let params = extract_from_http_input_stream_params(
            route,
            input_stream.relative_path.as_str(),
        );
        HttpRequest { method: Method::Get, params, query }
    }
}

/// Collects decoded pairs into a mapping, in order: a later pair replaces an
/// earlier one with the same name.
pub fn query_from_pairs(pairs: &Vec<(String, String)>) -> (query: ParamMap)
    ensures
        query@ == pairs_to_map(pair_views(pairs@)),
{
    let mut query = ParamMap::new();
    let mut i: usize = 0;
    while i < pairs.len()
        invariant
            i <= pairs@.len(),
            query@ == pairs_to_map(pair_views(pairs@).take(i as int)),
        decreases pairs@.len() - i,
    {
        proof {
            assert(pair_views(pairs@).take(i + 1).drop_last() =~= pair_views(pairs@).take(
                i as int,
            ));
        }
        query.insert(pairs[i].0.clone(), pairs[i].1.clone());
        i += 1;
    }
    proof {
        assert(pair_views(pairs@).take(pairs@.len() as int) =~= pair_views(pairs@));
    }
    query
}

/// The parameters of a template under what a capture call returned: those of
/// the captures where there was a match, none where there was not.
pub fn params_from_match(template: &str, found: &Option<Vec<Option<String>>>) -> (params: ParamMap)
    ensures
        params@ == match captures_view(*found) {
            Some(groups) => template_params(template@, groups),
            None => Map::empty(),
        },
{
    match found {
        Some(captures) => params_from_captures(template, captures),
        None => ParamMap::new(),
    }
}

/// The query pairs of a request target. A target without `?` has none.
pub fn extract_from_http_input_stream_query(url: &str) -> (query: ParamMap)
    ensures
        query@ == target_query(url@),
        !has_char(url@, '?') ==> query@ == Map::<Seq<char>, Seq<char>>::empty(),
{
    let component = query_string(url);
    let pairs = parse_form_pairs(component.as_str());
    proof {
        if !has_char(url@, '?') {
            assert(pair_views(pairs@).len() == 0);
        }
    }
    query_from_pairs(&pairs)
}

/// The path parameters that `route` reads from a request target.
pub fn extract_from_http_input_stream_params<H>(route: &Route<H>, url: &str) -> (params: ParamMap)
    ensures
        params@ == route_params(route.template(), route.pattern(), url@),
{
    let path = remove_query_and_fragment(url);
    let found = route.captures(path.as_str());
    params_from_match(route.template_text(), &found)
}

/// A fragment appended to a target changes neither the query nor the
/// parameters that any route reads from it: for a target without `#`, and a
/// fragment that either follows a query or holds no `?` itself.
pub proof fn lemma_fragment_changes_no_request(
    template: Seq<char>,
    pattern: Seq<char>,
    target: Seq<char>,
    fragment: Seq<char>,
)
    requires
        !has_char(target, '#'),
        has_char(target, '?') || !has_char(fragment, '?'),
    ensures
        target_query(target + seq!['#'] + fragment) == target_query(target),
        route_params(template, pattern, target + seq!['#'] + fragment) == route_params(
            template,
            pattern,
            target,
        ),
{
    lemma_fragment_is_discarded(target, fragment);
}

} // verus!
