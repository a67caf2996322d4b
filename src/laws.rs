use vstd::prelude::*;
use vstd::utf8::valid_utf8;
use crate::http::{status_view, Request, RequestView, Response, ResponseView};
use crate::layers::{Flow, Layer};
use crate::resolve::{extract_chain, Extractor, ResolveGuard};
use crate::routing::{finished, routed, settle, Router, Scope, BAD_REQUEST};
use crate::systems::{try_systems, Handler, System};

verus! {

proof fn lemma_skip_declines<H: Handler>(ss: Seq<System<H>>, j: int, k: int, req: RequestView, pos: int)
    requires
        0 <= j <= k <= ss.len(),
        forall|m: int| j <= m < k ==> #[trigger] ss[m].spec_attempt(req, pos) is Decline,
    ensures
        try_systems(ss, j, req, pos) == try_systems(ss, k, req, pos),
    decreases k - j,
{
    if j < k {
        lemma_skip_declines(ss, j + 1, k, req, pos);
    }
}

/// Systems that decline are passed over: when no child matches the next
/// segment, every system before index `k` declines and system `k` resolves
/// to `r`, the node resolves to `r` rather than to a not-found outcome.
pub proof fn lemma_decline_falls_through<H: Handler>(scope: Scope<H>, req: RequestView, pos: int, k: int, r: ResponseView)
    requires
        0 <= pos <= req.path.len(),
        pos == req.path.len() || scope.child(req.path[pos]) is None,
        0 <= k < scope.system_list().len(),
        forall|m: int| 0 <= m < k ==> #[trigger] scope.system_list()[m].spec_attempt(req, pos) is Decline,
        scope.system_list()[k].spec_attempt(req, pos) == ResolveGuard::Value(r),
    ensures
        scope.spec_resolve(req, pos) == ResolveGuard::Value(r),
        settle(scope.spec_resolve(req, pos)) == r,
{
    lemma_skip_declines(scope.system_list(), 0, k, req, pos);
}

/// A literal child takes precedence: when a child is stored under the next
/// segment, the outcome is that child's, whatever this node's systems would
/// have answered.
pub proof fn lemma_literal_child_first<H: Handler>(scope: Scope<H>, req: RequestView, pos: int, child: Scope<H>)
    requires
        0 <= pos < req.path.len(),
        scope.child(req.path[pos]) == Some(child),
    ensures
        scope.spec_resolve(req, pos) == child.spec_resolve(req, pos + 1),
{
}

/// Routing the same segment twice keeps only the second child under it: the
/// first is no longer reachable there, and nothing else changes.
pub proof fn lemma_route_overwrites<H>(
    s: Scope<H>,
    key: Seq<char>,
    c1: Scope<H>,
    c2: Scope<H>,
    s1: Scope<H>,
    s2: Scope<H>,
)
    requires
        routed(s, key, c1, s1),
        routed(s1, key, c2, s2),
    ensures
        s2.child(key) == Some(c2),
        c1 != c2 ==> s2.child(key) != Some(c1),
        forall|k: Seq<char>| k != key ==> #[trigger] s2.child(k) == s.child(k),
        s2.system_list() == s.system_list(),
{
    assert forall|k: Seq<char>| k != key implies #[trigger] s2.child(k) == s.child(k) by {
        assert(s2.child(k) == s1.child(k));
        assert(s1.child(k) == s.child(k));
    }
}

/// A request layer that responds early keeps the tree out of the dispatch:
/// the routed response is the layer's own, and two routers that differ only
/// in their trees answer alike.
pub proof fn lemma_short_circuit_skips_tree<H: Handler, Q: Layer<Request>, P: Layer<Response>>(
    a: Router<H, Q, P>,
    b: Router<H, Q, P>,
    req: RequestView,
    r: ResponseView,
)
    requires
        a.spec_request_layer() == b.spec_request_layer(),
        a.spec_response_layer() == b.spec_response_layer(),
        a.spec_request_layer().spec_execute(req) == Flow::<RequestView, ResponseView>::Respond(r),
    ensures
        a.spec_routed(req) == r,
        a.spec_dispatch(req) == finished(a.spec_response_layer().spec_execute(r)),
        a.spec_dispatch(req) == b.spec_dispatch(req),
{
}

/// The response chain sees the routed response (from the tree, or from an
/// early request-side response), and what it hands on is the final response.
pub proof fn lemma_response_layers_apply<H: Handler, Q: Layer<Request>, P: Layer<Response>>(
    router: Router<H, Q, P>,
    req: RequestView,
    out: Flow<ResponseView, ResponseView>,
)
    requires
        router.spec_response_layer().spec_execute(router.spec_routed(req)) == out,
    ensures
        router.spec_dispatch(req) == finished(out),
        out matches Flow::Continue(t) ==> router.spec_dispatch(req) == t,
        out matches Flow::Respond(t) ==> router.spec_dispatch(req) == t,
{
}

/// A system that fails at a node ends resolution there with a failure: no
/// later system and no other node is tried, and the dispatch answers with
/// the bad-request response.
pub proof fn lemma_failure_aborts<H: Handler>(scope: Scope<H>, req: RequestView, pos: int, k: int)
    requires
        0 <= pos <= req.path.len(),
        pos == req.path.len() || scope.child(req.path[pos]) is None,
        0 <= k < scope.system_list().len(),
        forall|m: int| 0 <= m < k ==> #[trigger] scope.system_list()[m].spec_attempt(req, pos) is Decline,
        scope.system_list()[k].spec_attempt(req, pos) is Fail,
    ensures
        scope.spec_resolve(req, pos) is Fail,
        settle(scope.spec_resolve(req, pos)) == status_view(BAD_REQUEST),
{
    lemma_skip_declines(scope.system_list(), 0, k, req, pos);
}

/// A system whose first extractor reads the body as text fails on a body
/// that is not valid UTF-8.
pub proof fn lemma_invalid_body_fails<H: Handler>(sys: System<H>, req: RequestView, pos: int)
    requires
        sys.extractors@.len() > 0,
        sys.extractors@[0] == Extractor::Text,
        !valid_utf8(req.body),
    ensures
        sys.spec_attempt(req, pos) is Fail,
{
    assert(extract_chain(sys.extractors@, 0, req, pos) is Fail);
}

} // verus!
