use vstd::prelude::*;
use crate::request::{
    find_header, first_header_is, has_header, headers_view, is_first_header, name_eq, Request,
};

verus! {

/// A test over a request that is independent of its path: routes are guarded
/// by one. Users may implement it for conditions of their own; `holds` says
/// what `matches` decides.
pub trait Matcher<B> {
    spec fn holds(&self, req: &Request<B>) -> bool;

    fn matches(&self, req: &Request<B>) -> (r: bool)
        ensures
            r == self.holds(req),
    ;
}

/// The built-in conditions on a request.
pub enum Predicate {
    /// Every request.
    Always,
    /// Requests whose method is exactly this one.
    Method(String),
    /// Requests with a header of this name (ASCII case ignored).
    HeaderPresent(String),
    /// Requests whose first header of this name (ASCII case ignored) has
    /// exactly this value.
    HeaderEquals(String, String),
}

/// What a predicate decides of a request.
pub open spec fn predicate_holds<B>(p: Predicate, req: &Request<B>) -> bool {
    match p {
        Predicate::Always => true,
        Predicate::Method(m) => req.method@ == m@,
        Predicate::HeaderPresent(n) => has_header(headers_view(req.headers@), n@),
        Predicate::HeaderEquals(n, v) => first_header_is(headers_view(req.headers@), n@, v@),
    }
}

impl<B> Matcher<B> for Predicate {
    open spec fn holds(&self, req: &Request<B>) -> bool {
        predicate_holds(*self, req)
    }

    fn matches(&self, req: &Request<B>) -> (r: bool) {
        match self {
            Predicate::Always => true,
            Predicate::Method(m) => req.method == *m,
            Predicate::HeaderPresent(n) => {
                let found = find_header(&req.headers, n.as_str());
                found.is_some()
            },
            Predicate::HeaderEquals(n, v) => {
                let ghost h = headers_view(req.headers@);
                match find_header(&req.headers, n.as_str()) {
                    None => false,
                    Some(i) => {
                        let r = req.headers[i].1 == *v;
                        proof {
                            assert(h[i as int].1 == req.headers@[i as int].1@);
                            if !r {
                                assert forall|j: int| #[trigger]
                                    is_first_header(h, n@, j) implies h[j].1 != v@ by {
                                    if j != i as int {
                                        if j < i {
                                            assert(!name_eq(h[j].0, n@));
                                        } else {
                                            assert(!name_eq(h[i as int].0, n@));
                                        }
                                    }
                                }
                            }
                        }
                        r
                    },
                }
            },
        }
    }
}

} // verus!
