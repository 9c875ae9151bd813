//! The route table: templates registered in order, each compiled once, and
//! matched in registration order.

use vstd::prelude::*;
use vstd::string::*;
use crate::http_input_stream::HttpInputStream;
use crate::matcher::{
    captures_view, compile_regex, pattern_groups, regex_captures, regex_compiles, regex_is_match,
    regex_pattern,
};
use crate::template::{pattern_text, route_pattern};

verus! {

/// A template that could not be compiled to a matcher.
#[derive(Debug)]
pub struct CompileError {
    /// The template that was refused.
    pub template: String,
    /// The regex text that was made from it.
    pub pattern: String,
}

/// Whether the regex compiled from `pattern` finds a match in `target`.
pub open spec fn accepts(pattern: Seq<char>, target: Seq<char>) -> bool {
    pattern_groups(pattern, target) is Some
}

/// A registered route: its template, the regex made from it, and its handler.
pub struct Route<H> {
    pub path: String,
    pub callback: H,
    regex_path: String,
    matcher: regex::Regex,
}

impl<H> Route<H> {
    /// The text of the regex that this route matches with.
    pub closed spec fn pattern(&self) -> Seq<char> {
        self.regex_path@
    }

    /// The template that this route was registered for.
    pub closed spec fn template(&self) -> Seq<char> {
        self.path@
    }

    /// The handler that this route was registered with.
    pub closed spec fn handler(&self) -> H {
        self.callback
    }

    /// The stored matcher is the one compiled from the stored regex text.
    #[verifier::type_invariant]
    spec fn matcher_is_of_pattern(self) -> bool {
        regex_pattern(self.matcher) == self.regex_path@
    }

    /// A route for `path` that matches with the regex `regex_path`, which
    /// need not be the one that the template stands for. The route is made
    /// exactly where the regex text compiles.
    pub fn with_regex(path: &str, regex_path: &str, callback: H) -> (r: Result<
        Route<H>,
        CompileError,
    >)
        ensures
            r is Ok <==> regex_compiles(regex_path@),
            r is Ok ==> r->Ok_0.template() == path@ && r->Ok_0.pattern() == regex_path@
                && r->Ok_0.handler() == callback,
            r is Err ==> r->Err_0.template@ == path@ && r->Err_0.pattern@ == regex_path@,
    {
        match compile_regex(regex_path) {
            Ok(matcher) => Ok(
                Route {
                    path: String::from_str(path),
                    callback,
                    regex_path: String::from_str(regex_path),
                    matcher,
                },
            ),
            Err(_) => Err(
                CompileError {
                    template: String::from_str(path),
                    pattern: String::from_str(regex_path),
                },
            ),
        }
    }

    /// The template that this route was registered for.
    pub fn template_text(&self) -> (r: &str)
        ensures
            r@ == self.template(),
    {
        self.path.as_str()
    }

    /// The text of the regex that this route matches with.
    pub fn regex_path(&self) -> (r: &str)
        ensures
            r@ == self.pattern(),
    {
        self.regex_path.as_str()
    }

    /// Whether this route's matcher finds a match in `target`.
    pub fn is_match(&self, target: &str) -> (b: bool)
        ensures
            b == accepts(self.pattern(), target@),
    {
        proof {
            use_type_invariant(self);
        }
        regex_is_match(&self.matcher, target)
    }

    /// The captures of this route's matcher in `text`: `None` without a
    /// match, else one entry per group, group 0 first.
    pub fn captures(&self, text: &str) -> (r: Option<Vec<Option<String>>>)
        ensures
            captures_view(r) == pattern_groups(self.pattern(), text@),
    {
        proof {
            use_type_invariant(self);
        }
        regex_captures(&self.matcher, text)
    }
}

/// The routes of a server, in registration order.
pub struct HttpServer<H> {
    get_routes: Vec<Route<H>>,
}

impl<H> HttpServer<H> {
    /// The registered routes, first registered first.
    pub closed spec fn routes(&self) -> Seq<Route<H>> {
        self.get_routes@
    }

    /// Whether `i` is the first route that accepts `target`.
    pub open spec fn is_first_match(&self, i: int, target: Seq<char>) -> bool {
        &&& 0 <= i < self.routes().len()
        &&& accepts(self.routes()[i].pattern(), target)
        &&& forall|j: int| 0 <= j < i ==> !accepts((#[trigger] self.routes()[j]).pattern(), target)
    }

    /// Whether no route accepts `target`.
    pub open spec fn no_match(&self, target: Seq<char>) -> bool {
        forall|j: int|
            0 <= j < self.routes().len() ==> !accepts(
                (#[trigger] self.routes()[j]).pattern(),
                target,
            )
    }

    /// A server without routes.
    pub fn new() -> (server: HttpServer<H>)
        ensures
            server.routes().len() == 0,
    {
        HttpServer { get_routes: Vec::new() }
    }

    /// Registers `callback` for the template `path`, after the routes that
    /// are there, exactly where the template's regex compiles. Where it does
    /// not, the caller gets the error and nothing is registered. The handler
    /// is stored, not called.
    pub fn get(&mut self, path: &str, callback: H) -> (r: Result<(), CompileError>)
        ensures
            r is Ok <==> regex_compiles(route_pattern(path@)),
            r is Ok ==> {
                &&& final(self).routes().len() == old(self).routes().len() + 1
                &&& final(self).routes().drop_last() == old(self).routes()
                &&& final(self).routes().last().template() == path@
                &&& final(self).routes().last().pattern() == route_pattern(path@)
                &&& final(self).routes().last().handler() == callback
            },
            r is Err ==> {
                &&& final(self).routes() == old(self).routes()
                &&& r->Err_0.template@ == path@
                &&& r->Err_0.pattern@ == route_pattern(path@)
            },
    {
        let pattern = pattern_text(path);
        match Route::with_regex(path, pattern.as_str(), callback) {
            Ok(route) => {
                self.get_routes.push(route);
                assert(self.get_routes@.drop_last() =~= old(self).get_routes@);
                Ok(())
            },
            Err(e) => Err(e),
        }
    }

    /// How many routes are registered.
    pub fn len(&self) -> (n: usize)
        ensures
            n == self.routes().len(),
    {
        self.get_routes.len()
    }

    /// The route registered as number `index`.
    pub fn route(&self, index: usize) -> (r: &Route<H>)
        requires
            index < self.routes().len(),
        ensures
            *r == self.routes()[index as int],
    {
        &self.get_routes[index]
    }

    /// The route registered as number `index`, lent out for its handler to
    /// be called.
    pub fn route_mut(&mut self, index: usize) -> (r: &mut Route<H>)
        requires
            index < old(self).routes().len(),
        ensures
            *r == old(self).routes()[index as int],
            final(self).routes() == old(self).routes().update(index as int, *final(r)),
    {
        &mut self.get_routes[index]
    }

    /// The index of the first route, in registration order, whose matcher
    /// accepts `target`; `None` where none does.
    pub fn match_target(&self, target: &str) -> (r: Option<usize>)
        ensures
            r is None <==> self.no_match(target@),
            r is Some ==> self.is_first_match(r->Some_0 as int, target@),
    {
        let mut i: usize = 0;
        while i < self.get_routes.len()
            invariant
                i <= self.routes().len(),
                forall|j: int| 0 <= j < i ==> !accepts((#[trigger] self.routes()[j]).pattern(), target@),
            decreases self.routes().len() - i,
        {
            if self.get_routes[i].is_match(target) {
                return Some(i);
            }
            i += 1;
        }
        None
    }

    /// The first route, in registration order, whose matcher accepts the
    /// request target of `resource`, lent out for its handler to be called;
    /// `None` where none accepts it, which is an ordinary outcome.
    pub fn match_route(&mut self, resource: &HttpInputStream) -> (r: Option<&mut Route<H>>)
        ensures
            r is None <==> old(self).no_match(resource.relative_path@),
            r is None ==> final(self).routes() == old(self).routes(),
            r is Some ==> exists|i: int|
                {
                    &&& #[trigger] old(self).is_first_match(i, resource.relative_path@)
                    &&& *r->Some_0 == old(self).routes()[i]
                    &&& final(self).routes() == old(self).routes().update(i, *final(r->Some_0))
                },
    {
        match self.match_target(resource.relative_path.as_str()) {
            Some(i) => {
                assert(self.is_first_match(i as int, resource.relative_path@));
                Some(&mut self.get_routes[i])
            },
            None => None,
        }
    }
}

/// At most one route is the first to accept a target, and where one is, the
/// target is not unmatched.
pub proof fn lemma_first_match_is_unique<H>(
    server: HttpServer<H>,
    i: int,
    j: int,
    target: Seq<char>,
)
    requires
        server.is_first_match(i, target),
        server.is_first_match(j, target),
    ensures
        i == j,
        !server.no_match(target),
{
    if i < j {
        assert(!accepts(server.routes()[i].pattern(), target));
    }
    if j < i {
        assert(!accepts(server.routes()[j].pattern(), target));
    }
    assert(accepts(server.routes()[i].pattern(), target));
}

/// Registration order is precedence: a route registered later takes no
/// target from a route registered before it, and takes every target that it
/// accepts and that none before it accepted.
pub proof fn lemma_later_route_never_shadows<H>(
    before: HttpServer<H>,
    after: HttpServer<H>,
    target: Seq<char>,
)
    requires
        after.routes().len() == before.routes().len() + 1,
        after.routes().drop_last() == before.routes(),
    ensures
        forall|i: int| before.is_first_match(i, target) ==> after.is_first_match(i, target),
        before.no_match(target) && accepts(after.routes().last().pattern(), target)
            ==> after.is_first_match(before.routes().len() as int, target),
        before.no_match(target) && !accepts(after.routes().last().pattern(), target)
            ==> after.no_match(target),
{
    assert forall|j: int| 0 <= j < before.routes().len() implies #[trigger] after.routes()[j]
        == before.routes()[j] by {
        assert(after.routes().drop_last()[j] == after.routes()[j]);
    }
    assert forall|i: int| before.is_first_match(i, target) implies after.is_first_match(
        i,
        target,
    ) by {
        assert(after.routes()[i] == before.routes()[i]);
        assert forall|j: int| 0 <= j < i implies !accepts(
            (#[trigger] after.routes()[j]).pattern(),
            target,
        ) by {
            assert(after.routes()[j] == before.routes()[j]);
        }
    }
    if before.no_match(target) {
        assert forall|j: int| 0 <= j < before.routes().len() implies !accepts(
            (#[trigger] after.routes()[j]).pattern(),
            target,
        ) by {
            assert(after.routes()[j] == before.routes()[j]);
        }
    }
}

} // verus!
