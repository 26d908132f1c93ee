use vstd::prelude::*;
use vstd::string::StringExecFns;
use crate::captures::{named_captures, opt_model, CaptureView, Captures};
use crate::matcher::{Matcher, Predicate};
use crate::pattern::{
    capture_names, capture_texts, compile_regex, compile_set, error_message, finds_match,
    group_names, group_texts, opt_strings_view, regex_accepts, regex_source, set_accepts,
    set_matches, set_sources, strings_view,
};
use crate::request::Request;

verus! {

/// What a route does with a request that it matched: it receives the request
/// and the captures of the route's pattern, and answers with an output of its
/// own kind, which the router hands back without looking at it. `answers`
/// says which outputs `call` may give for a request and captures; a handler
/// that does not state it promises nothing of its output.
pub trait Handler {
    type Body;

    type Output;

    /// Unless the handler states otherwise, any output.
    open spec fn answers(
        &self,
        input: Request<Self::Body>,
        caps: Option<CaptureView>,
        out: Self::Output,
    ) -> bool {
        true
    }

    fn call(&self, input: Request<Self::Body>, caps: Option<Captures>) -> (out: Self::Output)
        ensures
            self.answers(input, opt_model(caps), out),
    ;
}

/// A handler that answers every request with the number itself.
impl Handler for u32 {
    type Body = ();

    type Output = u32;

    open spec fn answers(&self, input: Request<()>, caps: Option<CaptureView>, out: u32) -> bool {
        out == *self
    }

    fn call(&self, _input: Request<()>, _caps: Option<Captures>) -> (out: u32) {
        *self
    }
}

/// What `pattern` captures in its match in `text`: the named groups that
/// took part with their text, and the text of every group by index.
pub open spec fn pattern_captures(pattern: Seq<char>, text: Seq<char>) -> CaptureView {
    CaptureView {
        named: named_captures(group_names(pattern), group_texts(pattern, text)),
        groups: group_texts(pattern, text),
    }
}

/// A route's pattern as it is compiled: anchored at the start (`\A`) and at
/// the end (`\z`) of the path, with nothing else added.
pub open spec fn anchored(p: Seq<char>) -> Seq<char> {
    seq!['\\', 'A'] + p + seq!['\\', 'z']
}

/// A list of anchored patterns compiles, both as one set and one by one.
pub open spec fn table_compiles(ps: Seq<Seq<char>>) -> bool {
    &&& set_accepts(ps)
    &&& forall|i: int| 0 <= i < ps.len() ==> regex_accepts(#[trigger] ps[i])
}

/// Why a route table could not be compiled.
pub struct CompileError {
    pub message: String,
}

/// Collects route definitions, in order, until they are compiled.
pub struct Builder<H, M> {
    routes: Vec<(String, M, H)>,
}

impl<H, M> Builder<H, M> {
    /// The anchored patterns of the routes, in registration order.
    pub closed spec fn patterns(&self) -> Seq<Seq<char>> {
        self.routes@.map_values(|r: (String, M, H)| r.0@)
    }

    /// The predicates of the routes, in registration order.
    pub closed spec fn matchers(&self) -> Seq<M> {
        self.routes@.map_values(|r: (String, M, H)| r.1)
    }

    /// The handlers of the routes, in registration order.
    pub closed spec fn handlers(&self) -> Seq<H> {
        self.routes@.map_values(|r: (String, M, H)| r.2)
    }

    /// A builder with no routes.
    pub fn new() -> (r: Self)
        ensures
            r.patterns().len() == 0,
            r.matchers().len() == 0,
            r.handlers().len() == 0,
    {
        Builder { routes: Vec::new() }
    }

    /// Adds a route after those already registered: requests whose whole
    /// path matches `route` and that `matcher` accepts go to `handler`. The
    /// pattern is checked only when the table is compiled.
    pub fn route(self, matcher: M, route: &str, handler: H) -> (r: Self)
        ensures
            r.patterns() == self.patterns().push(anchored(route@)),
            r.matchers() == self.matchers().push(matcher),
            r.handlers() == self.handlers().push(handler),
    {
        let mut pattern = String::from_str("\\A");
        pattern.append(route);
        pattern.append("\\z");
        proof {
            reveal_strlit("\\A");
            reveal_strlit("\\z");
            assert(pattern@ =~= anchored(route@));
        }
        let mut routes = self.routes;
        routes.push((pattern, matcher, handler));
        let r = Builder { routes };
        proof {
            assert(r.patterns() =~= self.patterns().push(anchored(route@)));
            assert(r.matchers() =~= self.matchers().push(matcher));
            assert(r.handlers() =~= self.handlers().push(handler));
        }
        r
    }
}


/// A compiled route table: all anchored patterns as one set, each pattern
/// also compiled on its own for its captures, and each route's predicate and
/// handler, all by registration index. It does not change once built.
pub struct Router<H, M> {
    set: regex::RegexSet,
    regexes: Vec<regex::Regex>,
    routes: Vec<(String, M, H)>,
}

impl<H, M> Router<H, M> {
    #[verifier::type_invariant]
    spec fn well_formed(self) -> bool {
        &&& set_sources(self.set) == self.routes@.map_values(|r: (String, M, H)| r.0@)
        &&& self.regexes@.len() == self.routes@.len()
        &&& forall|i: int|
            0 <= i < self.routes@.len() ==> regex_source(#[trigger] self.regexes@[i])
                == self.routes@[i].0@
    }

    /// The anchored patterns of the routes, in registration order.
    pub closed spec fn patterns(&self) -> Seq<Seq<char>> {
        self.routes@.map_values(|r: (String, M, H)| r.0@)
    }

    /// The predicates of the routes, in registration order.
    pub closed spec fn matchers(&self) -> Seq<M> {
        self.routes@.map_values(|r: (String, M, H)| r.1)
    }

    /// The handlers of the routes, in registration order.
    pub closed spec fn handlers(&self) -> Seq<H> {
        self.routes@.map_values(|r: (String, M, H)| r.2)
    }

    /// Patterns, predicates and handlers are aligned: index `i` is one route.
    pub proof fn lemma_aligned(&self)
        ensures
            self.matchers().len() == self.patterns().len(),
            self.handlers().len() == self.patterns().len(),
    {
    }

    /// The number of routes.
    pub fn len(&self) -> (r: usize)
        ensures
            r == self.patterns().len(),
    {
        self.routes.len()
    }

    /// The captures of the pattern of route `index` on `path`: `None` where
    /// the pattern does not match the path, else the named groups that took
    /// part, each with the text it took.
    pub fn captures_of(&self, index: usize, path: &str) -> (r: Option<Captures>)
        requires
            index < self.patterns().len(),
        ensures
            r is Some <==> finds_match(self.patterns()[index as int], path@),
            r matches Some(c) ==> c.model() == pattern_captures(self.patterns()[index as int], path@),
    {
        proof {
            use_type_invariant(self);
        }
        let re = &self.regexes[index];
        let names = capture_names(re);
        match capture_texts(re, path) {
            None => None,
            Some(texts) => {
                let caps = Captures::from_groups(&names, texts);
                proof {
                    assert(names@.map_values(|o: Option<String>| crate::captures::opt_view(o))
                        =~= opt_strings_view(names@));
                    assert(texts@.map_values(|o: Option<String>| crate::captures::opt_view(o))
                        =~= opt_strings_view(texts@));
                }
                Some(caps)
            },
        }
    }
}


impl<H: Handler, M: Matcher<H::Body>> Router<H, M> {
    /// Route `i` can take `req`: its pattern matches the whole path and its
    /// predicate accepts the request.
    pub open spec fn is_candidate(&self, i: int, req: &Request<H::Body>) -> bool {
        &&& 0 <= i < self.patterns().len()
        &&& finds_match(self.patterns()[i], req.path@)
        &&& self.matchers()[i].holds(req)
    }

    /// The first route, from index `k` on, that can take `req`.
    pub open spec fn first_from(&self, req: &Request<H::Body>, k: int) -> Option<int>
        decreases self.patterns().len() - k,
    {
        if k < 0 || k >= self.patterns().len() {
            None
        } else if self.is_candidate(k, req) {
            Some(k)
        } else {
            self.first_from(req, k + 1)
        }
    }

    /// The route that takes `req`: the first registered one that can.
    pub open spec fn dispatch_index(&self, req: &Request<H::Body>) -> Option<int> {
        self.first_from(req, 0)
    }

    /// `out` is what dispatching `req` may give: an answer of the handler of
    /// the route that takes `req`, to the request and the captures of that
    /// route's pattern on the path.
    pub open spec fn routed_output(&self, req: Request<H::Body>, out: H::Output) -> bool {
        self.dispatch_index(&req) matches Some(k) && self.handlers()[k].answers(
            req,
            Some(pattern_captures(self.patterns()[k], req.path@)),
            out,
        )
    }

    /// Finds the route that takes `req`, if any: the patterns are matched
    /// against the path all at once, and the predicates of the routes whose
    /// pattern matched are tried in registration order.
    pub fn select(&self, req: &Request<H::Body>) -> (r: Option<usize>)
        ensures
            r matches Some(i) ==> self.dispatch_index(req) == Some(i as int),
            r is None ==> self.dispatch_index(req) is None,
    {
        proof {
            use_type_invariant(self);
        }
        let hits = set_matches(&self.set, req.path.as_str());
        let count = self.routes.len();
        let ghost n = self.patterns().len();
        proof {
            assert(n == count);
            self.lemma_first_hit(req, hits@);
        }
        let mut k: usize = 0;
        while k < hits.len()
            invariant
                n == self.patterns().len(),
                n <= usize::MAX,
                set_sources(self.set) == self.patterns(),
                forall|j: int| 0 <= j < hits@.len() ==> #[trigger] hits@[j] < n,
                forall|a: int, b: int| 0 <= a < b < hits@.len() ==> #[trigger] hits@[a] < #[trigger] hits@[b],
                forall|i: int| 0 <= i < n ==> (finds_match(#[trigger] self.patterns()[i], req.path@)
                    <==> hits@.contains(i as usize)),
                k <= hits@.len(),
                k < hits@.len() ==> self.dispatch_index(req) == self.first_from(req, hits@[k as int] as int),
                k == hits@.len() ==> self.dispatch_index(req) is None,
            decreases hits@.len() - k,
        {
            let i = hits[k];
            let entry = &self.routes[i];
            if entry.1.matches(req) {
                proof {
                    assert(self.matchers()[i as int] == entry.1);
                }
                return Some(i);
            }
            proof {
                assert(self.matchers()[i as int] == entry.1);
                assert(!self.is_candidate(i as int, req));
                self.lemma_skip_to_next_hit(req, hits@, k as int);
            }
            k = k + 1;
        }
        None
    }
}


impl<H: Handler, M: Matcher<H::Body>> Router<H, M> {
    /// Resolves a request: the first registered route whose pattern matches
    /// the whole path and whose predicate accepts the request is handed the
    /// request and the captures of its pattern, and its output comes back.
    /// `None` where no route takes the request.
    pub fn route(&self, req: Request<H::Body>) -> (r: Option<H::Output>)
        ensures
            r is Some <==> self.dispatch_index(&req) is Some,
            r matches Some(out) ==> self.routed_output(req, out),
    {
        match self.select(&req) {
            None => None,
            Some(i) => {
                proof {
                    self.lemma_first_from_facts(&req, 0);
                }
                let caps = self.captures_of(i, req.path.as_str());
                let ghost k = i as int;
                let handler = &self.routes[i].2;
                proof {
                    assert(self.handlers()[k] == *handler);
                }
                let out = handler.call(req, caps);
                Some(out)
            },
        }
    }
}

impl<H: Handler, M: Matcher<H::Body>> Router<H, M> {
    /// The route found from index `k` on can take the request, and none
    /// between `k` and it can; where none is found, none from `k` on can.
    pub proof fn lemma_first_from_facts(&self, req: &Request<H::Body>, k: int)
        requires
            0 <= k,
        ensures
            self.first_from(req, k) matches Some(i) ==> k <= i && self.is_candidate(i, req)
                && forall|j: int| k <= j < i ==> !#[trigger] self.is_candidate(j, req),
            self.first_from(req, k) is None ==> forall|j: int|
                k <= j ==> !#[trigger] self.is_candidate(j, req),
        decreases self.patterns().len() - k,
    {
        if k < self.patterns().len() && !self.is_candidate(k, req) {
            self.lemma_first_from_facts(req, k + 1);
        }
    }

    /// Routes that cannot take the request can be passed over.
    proof fn lemma_skip_non_candidates(&self, req: &Request<H::Body>, a: int, b: int)
        requires
            0 <= a <= b <= self.patterns().len(),
            forall|i: int| a <= i < b ==> !self.is_candidate(i, req),
        ensures
            self.first_from(req, a) == self.first_from(req, b),
        decreases b - a,
    {
        if a < b {
            self.lemma_skip_non_candidates(req, a + 1, b);
        }
    }

    /// Between two consecutive hits of the set, and before the first and
    /// after the last, no pattern matches, so no route can take the request.
    proof fn lemma_between_hits(&self, req: &Request<H::Body>, hits: Seq<usize>, a: int, b: int)
        requires
            0 <= a <= b <= self.patterns().len() <= usize::MAX,
            forall|i: int| 0 <= i < self.patterns().len() ==> (finds_match(
                #[trigger] self.patterns()[i],
                req.path@,
            ) <==> hits.contains(i as usize)),
            forall|u: usize| a <= u < b ==> !#[trigger] hits.contains(u),
        ensures
            self.first_from(req, a) == self.first_from(req, b),
    {
        assert forall|i: int| a <= i < b implies !self.is_candidate(i, req) by {
            assert(!hits.contains(i as usize));
        }
        self.lemma_skip_non_candidates(req, a, b);
    }

    proof fn lemma_first_hit(&self, req: &Request<H::Body>, hits: Seq<usize>)
        requires
            self.patterns().len() <= usize::MAX,
            forall|j: int| 0 <= j < hits.len() ==> #[trigger] hits[j] < self.patterns().len(),
            forall|a: int, b: int| 0 <= a < b < hits.len() ==> #[trigger] hits[a] < #[trigger] hits[b],
            forall|i: int| 0 <= i < self.patterns().len() ==> (finds_match(
                #[trigger] self.patterns()[i],
                req.path@,
            ) <==> hits.contains(i as usize)),
        ensures
            hits.len() > 0 ==> self.dispatch_index(req) == self.first_from(req, hits[0] as int),
            hits.len() == 0 ==> self.dispatch_index(req) is None,
    {
        let n = self.patterns().len() as int;
        let end: int = if hits.len() > 0 { hits[0] as int } else { n };
        assert forall|u: usize| 0 <= u < end implies !#[trigger] hits.contains(u) by {
            if hits.contains(u) {
                let j = choose|j: int| 0 <= j < hits.len() && hits[j] == u;
                if j > 0 {
                    assert(hits[0] < hits[j]);
                }
            }
        }
        self.lemma_between_hits(req, hits, 0, end);
    }

    proof fn lemma_skip_to_next_hit(&self, req: &Request<H::Body>, hits: Seq<usize>, k: int)
        requires
            0 <= k < hits.len(),
            self.patterns().len() <= usize::MAX,
            forall|j: int| 0 <= j < hits.len() ==> #[trigger] hits[j] < self.patterns().len(),
            forall|a: int, b: int| 0 <= a < b < hits.len() ==> #[trigger] hits[a] < #[trigger] hits[b],
            forall|i: int| 0 <= i < self.patterns().len() ==> (finds_match(
                #[trigger] self.patterns()[i],
                req.path@,
            ) <==> hits.contains(i as usize)),
            !self.is_candidate(hits[k] as int, req),
        ensures
            k + 1 < hits.len() ==> self.first_from(req, hits[k] as int) == self.first_from(
                req,
                hits[k + 1] as int,
            ),
            k + 1 == hits.len() ==> self.first_from(req, hits[k] as int) is None,
    {
        let n = self.patterns().len() as int;
        let start = hits[k] as int + 1;
        let end: int = if k + 1 < hits.len() { hits[k + 1] as int } else { n };
        assert forall|u: usize| start <= u < end implies !#[trigger] hits.contains(u) by {
            if hits.contains(u) {
                let j = choose|j: int| 0 <= j < hits.len() && hits[j] == u;
                if j < k {
                    assert(hits[j] < hits[k]);
                } else if j > k + 1 {
                    assert(hits[k + 1] < hits[j]);
                }
            }
        }
        self.lemma_between_hits(req, hits, start, end);
    }
}


impl<H, M> Builder<H, M> {
    /// Compiles the routes into a table: the anchored patterns as one set,
    /// then each on its own. Fails, with the pattern engine's reason, exactly
    /// when one of these is refused; no table is made then.
    pub fn build(self) -> (r: Result<Router<H, M>, CompileError>)
        ensures
            r is Ok <==> table_compiles(self.patterns()),
            r matches Ok(t) ==> t.patterns() == self.patterns() && t.matchers() == self.matchers()
                && t.handlers() == self.handlers(),
    {
        let ghost ps = self.patterns();
        let n = self.routes.len();
        let mut sources: Vec<String> = Vec::new();
        let mut i: usize = 0;
        while i < n
            invariant
                n == self.routes@.len(),
                ps == self.patterns(),
                i <= n,
                strings_view(sources@) == ps.take(i as int),
            decreases n - i,
        {
            let ghost before = sources@;
            let c = self.routes[i].0.clone();
            sources.push(c);
            proof {
                assert(ps[i as int] == self.routes@[i as int].0@);
                assert(sources@ == before.push(c));
                assert(strings_view(sources@) =~= strings_view(before).push(c@));
                assert(ps.take(i + 1) =~= ps.take(i as int).push(ps[i as int]));
                assert(strings_view(sources@) =~= ps.take(i + 1));
            }
            i = i + 1;
        }
        proof {
            assert(ps.take(n as int) =~= ps);
        }
        let set = match compile_set(&sources) {
            Ok(set) => set,
            Err(e) => {
                return Err(CompileError { message: error_message(&e) });
            },
        };
        let mut regexes: Vec<regex::Regex> = Vec::new();
        let mut i: usize = 0;
        while i < n
            invariant
                n == self.routes@.len(),
                ps == self.patterns(),
                set_accepts(ps),
                set_sources(set) == ps,
                i <= n,
                regexes@.len() == i,
                forall|j: int| 0 <= j < i ==> regex_accepts(#[trigger] ps[j]),
                forall|j: int| 0 <= j < i ==> regex_source(#[trigger] regexes@[j]) == ps[j],
            decreases n - i,
        {
            match compile_regex(self.routes[i].0.as_str()) {
                Ok(re) => {
                    regexes.push(re);
                },
                Err(e) => {
                    proof {
                        assert(ps[i as int] == self.routes@[i as int].0@);
                    }
                    return Err(CompileError { message: error_message(&e) });
                },
            }
            proof {
                assert(ps[i as int] == self.routes@[i as int].0@);
            }
            i = i + 1;
        }
        Ok(Router { set, regexes, routes: self.routes })
    }
}

impl<H> Builder<H, Predicate> {
    /// Adds a route that takes requests of any method.
    pub fn any(self, route: &str, handler: H) -> (r: Self)
        ensures
            r.patterns() == self.patterns().push(anchored(route@)),
            r.matchers() == self.matchers().push(Predicate::Always),
            r.handlers() == self.handlers().push(handler),
    {
        self.route(Predicate::Always, route, handler)
    }

    fn method_route(self, method: String, route: &str, handler: H) -> (r: Self)
        ensures
            r.patterns() == self.patterns().push(anchored(route@)),
            r.matchers() == self.matchers().push(r.matchers().last()),
            r.matchers().last() matches Predicate::Method(m) && m@ == method@,
            r.handlers() == self.handlers().push(handler),
    {
        self.route(Predicate::Method(method), route, handler)
    }

    /// Adds a route that takes `GET` requests.
    pub fn get(self, route: &str, handler: H) -> (r: Self)
        ensures
            r.patterns() == self.patterns().push(anchored(route@)),
            r.matchers() == self.matchers().push(r.matchers().last()),
            r.matchers().last() matches Predicate::Method(m) && m@ == seq!['G', 'E', 'T'],
            r.handlers() == self.handlers().push(handler),
    {
        let m = String::from_str("GET");
        proof {
            reveal_strlit("GET");
        }
        self.method_route(m, route, handler)
    }

    /// Adds a route that takes `POST` requests.
    pub fn post(self, route: &str, handler: H) -> (r: Self)
        ensures
            r.patterns() == self.patterns().push(anchored(route@)),
            r.matchers() == self.matchers().push(r.matchers().last()),
            r.matchers().last() matches Predicate::Method(m) && m@ == seq!['P', 'O', 'S', 'T'],
            r.handlers() == self.handlers().push(handler),
    {
        let m = String::from_str("POST");
        proof {
            reveal_strlit("POST");
        }
        self.method_route(m, route, handler)
    }

    /// Adds a route that takes `DELETE` requests.
    pub fn delete(self, route: &str, handler: H) -> (r: Self)
        ensures
            r.patterns() == self.patterns().push(anchored(route@)),
            r.matchers() == self.matchers().push(r.matchers().last()),
            r.matchers().last() matches Predicate::Method(m) && m@ == seq![
                'D',
                'E',
                'L',
                'E',
                'T',
                'E',
            ],
            r.handlers() == self.handlers().push(handler),
    {
        let m = String::from_str("DELETE");
        proof {
            reveal_strlit("DELETE");
        }
        self.method_route(m, route, handler)
    }

    /// Adds a route that takes `PATCH` requests.
    pub fn patch(self, route: &str, handler: H) -> (r: Self)
        ensures
            r.patterns() == self.patterns().push(anchored(route@)),
            r.matchers() == self.matchers().push(r.matchers().last()),
            r.matchers().last() matches Predicate::Method(m) && m@ == seq!['P', 'A', 'T', 'C', 'H'],
            r.handlers() == self.handlers().push(handler),
    {
        let m = String::from_str("PATCH");
        proof {
            reveal_strlit("PATCH");
        }
        self.method_route(m, route, handler)
    }
}

impl<H, M> Default for Builder<H, M> {
    fn default() -> (r: Self)
        ensures
            r.patterns().len() == 0,
            r.matchers().len() == 0,
            r.handlers().len() == 0,
    {
        Builder::new()
    }
}

/// A builder for routes guarded by the built-in predicates, with no routes yet.
pub fn routes<H: Handler>() -> (r: Builder<H, Predicate>)
    ensures
        r.patterns().len() == 0,
        r.matchers().len() == 0,
        r.handlers().len() == 0,
{
    Builder::new()
}

} // verus!
