use vstd::prelude::*;
use crate::captures::{named_captures, named_pairs, CaptureView};
use crate::matcher::Matcher;
use crate::pattern::finds_match;
use crate::request::Request;
use crate::router::{pattern_captures, table_compiles, Builder, Handler, Router};

verus! {

/// A route that can take a request (its pattern matches the whole path and
/// its predicate accepts the request) is taken unless an earlier route can
/// take it too: the route dispatch picks is never registered after it, can
/// itself take the request, and is it exactly when no earlier route can.
pub proof fn lemma_first_registered_wins<H: Handler, M: Matcher<H::Body>>(
    t: &Router<H, M>,
    req: &Request<H::Body>,
    i: int,
)
    requires
        t.is_candidate(i, req),
    ensures
        t.dispatch_index(req) matches Some(j) && j <= i && t.is_candidate(j, req),
        (forall|j: int| 0 <= j < i ==> !#[trigger] t.is_candidate(j, req)) ==> t.dispatch_index(req)
            == Some(i),
{
    t.lemma_first_from_facts(req, 0);
}

/// When route `i` can take a request and no earlier route can, what routing
/// the request gives is an answer of route `i`'s handler, to the request and
/// the captures of route `i`'s pattern on the path.
pub proof fn lemma_first_route_answers<H: Handler, M: Matcher<H::Body>>(
    t: &Router<H, M>,
    req: Request<H::Body>,
    i: int,
    out: H::Output,
)
    requires
        t.is_candidate(i, &req),
        forall|j: int| 0 <= j < i ==> !#[trigger] t.is_candidate(j, &req),
        t.routed_output(req, out),
    ensures
        t.handlers()[i].answers(req, Some(pattern_captures(t.patterns()[i], req.path@)), out),
{
    lemma_first_registered_wins(t, &req, i);
}

/// Routing equal requests against one table gives equal outputs, where the
/// handlers themselves give one output for one request and captures.
pub proof fn lemma_route_repeatable<H: Handler, M: Matcher<H::Body>>(
    t: &Router<H, M>,
    a: Request<H::Body>,
    b: Request<H::Body>,
    out_a: H::Output,
    out_b: H::Output,
)
    requires
        a == b,
        t.routed_output(a, out_a),
        t.routed_output(b, out_b),
        forall|i: int, q: Request<H::Body>, c: Option<CaptureView>, x: H::Output, y: H::Output|
            0 <= i < t.handlers().len() && #[trigger] t.handlers()[i].answers(q, c, x)
                && #[trigger] t.handlers()[i].answers(q, c, y) ==> x == y,
    ensures
        out_a == out_b,
{
    t.lemma_first_from_facts(&a, 0);
    t.lemma_aligned();
}

/// Dispatch has no hidden state: equal requests against one table go to the
/// same route.
pub proof fn lemma_dispatch_repeatable<H: Handler, M: Matcher<H::Body>>(
    t: &Router<H, M>,
    a: &Request<H::Body>,
    b: &Request<H::Body>,
)
    requires
        *a == *b,
    ensures
        t.dispatch_index(a) == t.dispatch_index(b),
{
}

/// A request that no route can take, because no pattern matches its path or
/// the predicate of each route whose pattern matches refuses it, is taken by
/// no route, so dispatch answers `None`.
pub proof fn lemma_no_route_without_candidate<H: Handler, M: Matcher<H::Body>>(
    t: &Router<H, M>,
    req: &Request<H::Body>,
)
    requires
        forall|i: int|
            0 <= i < t.patterns().len() ==> !finds_match(#[trigger] t.patterns()[i], req.path@)
                || !t.matchers()[i].holds(req),
    ensures
        t.dispatch_index(req) is None,
{
    t.lemma_first_from_facts(req, 0);
    if let Some(j) = t.dispatch_index(req) {
        assert(t.is_candidate(j, req));
    }
}

/// The pattern of the route that dispatch picks matches the path, so the
/// handler is always given captures, empty where the pattern names no group.
pub proof fn lemma_dispatched_route_matches<H: Handler, M: Matcher<H::Body>>(
    t: &Router<H, M>,
    req: &Request<H::Body>,
)
    ensures
        t.dispatch_index(req) matches Some(i) ==> 0 <= i < t.patterns().len() && finds_match(
            t.patterns()[i],
            req.path@,
        ),
{
    t.lemma_first_from_facts(req, 0);
}

/// A named group that took part in a match appears in the captures, bound to
/// exactly the text it took.
pub proof fn lemma_named_group_captured(
    names: Seq<Option<Seq<char>>>,
    texts: Seq<Option<Seq<char>>>,
    k: int,
)
    requires
        names.len() == texts.len(),
        0 <= k < names.len(),
        names[k] is Some,
        texts[k] is Some,
    ensures
        named_captures(names, texts).contains((names[k]->0, texts[k]->0)),
{
    lemma_pairs_keep_earlier(names, texts, k, names.len());
}

proof fn lemma_pairs_keep_earlier(
    names: Seq<Option<Seq<char>>>,
    texts: Seq<Option<Seq<char>>>,
    k: int,
    n: nat,
)
    requires
        names.len() == texts.len(),
        0 <= k < n <= names.len(),
        names[k] is Some,
        texts[k] is Some,
    ensures
        named_pairs(names, texts, n).contains((names[k]->0, texts[k]->0)),
    decreases n,
{
    let p = (names[k]->0, texts[k]->0);
    if k == n - 1 {
        assert(named_pairs(names, texts, n).last() == p);
    } else {
        lemma_pairs_keep_earlier(names, texts, k, (n - 1) as nat);
        let before = named_pairs(names, texts, (n - 1) as nat);
        let j = choose|j: int| 0 <= j < before.len() && before[j] == p;
        assert(named_pairs(names, texts, n)[j] == p);
    }
}

/// A pattern without named groups captures nothing: the captures are empty.
pub proof fn lemma_unnamed_groups_capture_nothing(
    names: Seq<Option<Seq<char>>>,
    texts: Seq<Option<Seq<char>>>,
)
    requires
        names.len() == texts.len(),
        forall|k: int| 0 <= k < names.len() ==> #[trigger] names[k] is None,
    ensures
        named_captures(names, texts).len() == 0,
{
    lemma_unnamed_prefix(names, texts, names.len());
}

proof fn lemma_unnamed_prefix(names: Seq<Option<Seq<char>>>, texts: Seq<Option<Seq<char>>>, n: nat)
    requires
        n <= names.len() == texts.len(),
        forall|k: int| 0 <= k < names.len() ==> #[trigger] names[k] is None,
    ensures
        named_pairs(names, texts, n).len() == 0,
    decreases n,
{
    if n > 0 {
        assert(names[n - 1] is None);
        lemma_unnamed_prefix(names, texts, (n - 1) as nat);
    }
}

/// Whether a route table compiles depends on its patterns alone: two
/// builders with the same patterns both compile or both fail.
pub proof fn lemma_build_outcome_determined<H1, M1, H2, M2>(
    a: &Builder<H1, M1>,
    b: &Builder<H2, M2>,
)
    requires
        a.patterns() == b.patterns(),
    ensures
        table_compiles(a.patterns()) == table_compiles(b.patterns()),
{
}

} // verus!
