//! What to do with a request line: which route handles it, and with which
//! request. Calling the handler and sending its response is the caller's part.

use vstd::prelude::*;
use vstd::string::*;
use crate::http_input_stream::{target_token, HttpInputStream};
use crate::http_request::{route_params, target_query, HttpRequest, Method};
use crate::http_server::HttpServer;
use crate::target::{has_char, path_component, remove_query_and_fragment};

verus! {

/// The outcome of routing one request line.
pub enum Dispatch {
    /// The route with this index handles the request.
    Matched(usize, HttpRequest),
    /// No route accepts the path: the client gets a rejection.
    Unmatched,
    /// The line holds no request target: the client gets a rejection.
    Malformed,
}

impl<H> HttpServer<H> {
    /// Routes one request line: reads method and target, matches the path
    /// component against the routes in registration order, and builds the
    /// request for the first route that accepts it.
    pub fn dispatch(&self, line: &str) -> (d: Dispatch)
        ensures
            d is Malformed <==> target_token(line@).len() == 0,
            d is Unmatched <==> target_token(line@).len() > 0 && self.no_match(
                path_component(target_token(line@)),
            ),
            d is Matched ==> {
                let target = target_token(line@);
                let route = self.routes()[d->Matched_0 as int];
                &&& self.is_first_match(d->Matched_0 as int, path_component(target))
                &&& d->Matched_1.method == Method::Get
                &&& d->Matched_1.query@ == target_query(target)
                &&& !has_char(target, '?') ==> d->Matched_1.query@ == Map::<
                    Seq<char>,
                    Seq<char>,
                >::empty()
                &&& d->Matched_1.params@ == route_params(route.template(), route.pattern(), target)
            },
    {
        let input = match HttpInputStream::parse(line) {
            Some(input) => input,
            None => {
                return Dispatch::Malformed;
            },
        };
        let path = remove_query_and_fragment(input.relative_path.as_str());
        match self.match_target(path.as_str()) {
            Some(index) => {
                let request = HttpRequest::parse(&input, self.route(index));
                Dispatch::Matched(index, request)
            },
            None => Dispatch::Unmatched,
        }
    }
}

} // verus!
