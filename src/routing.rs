use vstd::prelude::*;
use crate::http::{status_view, Request, RequestView, Response, ResponseView};
use crate::layers::{Flow, Layer, LayerGroup, Passthrough};
use crate::resolve::ResolveGuard;
use crate::systems::{guard_view, run_systems, try_systems, Handler, System};

verus! {

/// Status of the response when no node and no system of the tree matches.
pub const NOT_FOUND: u16 = 404;

/// Status of the response when an extractor finds the request malformed.
pub const BAD_REQUEST: u16 = 400;

/// A node of the routing tree: an ordered list of systems and a child node
/// per path segment. Every child key is a single segment; a route over
/// several segments is built from nested `route` calls.
pub struct Scope<H> {
    children: Vec<(String, Scope<H>)>,
    systems: Vec<System<H>>,
}

/// The child stored under `key` among `cs[i..]`, taking the first entry with
/// that key.
pub open spec fn find_child<H>(cs: Seq<(String, Scope<H>)>, i: int, key: Seq<char>) -> Option<Scope<H>>
    decreases cs.len() - i,
{
    if i < 0 || i >= cs.len() {
        None
    } else if cs[i].0@ == key {
        Some(cs[i].1)
    } else {
        find_child(cs, i + 1, key)
    }
}

proof fn lemma_find_update<H>(cs: Seq<(String, Scope<H>)>, j: int, i: int, key: Seq<char>, np: (String, Scope<H>))
    requires
        0 <= j <= i < cs.len(),
        cs[i].0@ == np.0@,
        forall|m: int| j <= m < i ==> cs[m].0@ != np.0@,
    ensures
        find_child(cs.update(i, np), j, key) == if key == np.0@ {
            Some(np.1)
        } else {
            find_child(cs, j, key)
        },
    decreases i - j,
{
    if j < i {
        lemma_find_update(cs, j + 1, i, key, np);
    } else {
        if key != np.0@ {
            assert(find_child(cs.update(i, np), i + 1, key) == find_child(cs, i + 1, key)) by {
                lemma_find_same_tail(cs.update(i, np), cs, i + 1, key);
            }
        }
    }
}

proof fn lemma_find_same_tail<H>(a: Seq<(String, Scope<H>)>, b: Seq<(String, Scope<H>)>, j: int, key: Seq<char>)
    requires
        0 <= j,
        a.len() == b.len(),
        forall|m: int| j <= m < a.len() ==> a[m] == b[m],
    ensures
        find_child(a, j, key) == find_child(b, j, key),
    decreases a.len() - j,
{
    if j < a.len() {
        lemma_find_same_tail(a, b, j + 1, key);
    }
}

proof fn lemma_find_push<H>(cs: Seq<(String, Scope<H>)>, j: int, key: Seq<char>, np: (String, Scope<H>))
    requires
        0 <= j <= cs.len(),
        forall|m: int| j <= m < cs.len() ==> cs[m].0@ != np.0@,
    ensures
        find_child(cs.push(np), j, key) == if key == np.0@ {
            Some(np.1)
        } else {
            find_child(cs, j, key)
        },
    decreases cs.len() - j,
{
    if j < cs.len() {
        assert(cs.push(np)[j] == cs[j]);
        lemma_find_push(cs, j + 1, key, np);
    } else {
        assert(cs.push(np)[j] == np);
        assert(find_child(cs.push(np), j + 1, key) is None);
    }
}

/// `after` is `before` with `child` under `key`: that key now leads to
/// `child`, every other key leads where it led before, and the systems are
/// unchanged.
pub open spec fn routed<H>(before: Scope<H>, key: Seq<char>, child: Scope<H>, after: Scope<H>) -> bool {
    &&& after.child(key) == Some(child)
    &&& forall|k: Seq<char>| k != key ==> #[trigger] after.child(k) == before.child(k)
    &&& after.system_list() == before.system_list()
}

/// The response that ends a dispatch for a resolution outcome.
pub open spec fn settle(g: ResolveGuard<ResponseView>) -> ResponseView {
    match g {
        ResolveGuard::Value(r) => r,
        ResolveGuard::Decline => status_view(NOT_FOUND),
        ResolveGuard::Fail => status_view(BAD_REQUEST),
    }
}

impl<H> Scope<H> {
    /// The child node under the path segment `key`.
    pub closed spec fn child(&self, key: Seq<char>) -> Option<Scope<H>> {
        find_child(self.children@, 0, key)
    }

    /// The systems of this node, in the order they are tried.
    pub closed spec fn system_list(&self) -> Seq<System<H>> {
        self.systems@
    }

    /// No two children of this node share a key.
    pub closed spec fn wf(&self) -> bool {
        forall|a: int, b: int|
            0 <= a < b < self.children@.len() ==> self.children@[a].0@ != self.children@[b].0@
    }

    /// A node with the given systems and no children.
    pub fn new(systems: Vec<System<H>>) -> (r: Scope<H>)
        ensures
            r.system_list() == systems@,
            forall|k: Seq<char>| #[trigger] r.child(k) is None,
            r.wf(),
    {
        Scope { children: Vec::new(), systems }
    }

    /// A node with no systems and no children.
    pub fn empty() -> (r: Scope<H>)
        ensures
            r.system_list() == Seq::<System<H>>::empty(),
            forall|k: Seq<char>| #[trigger] r.child(k) is None,
            r.wf(),
    {
        Scope::new(Vec::new())
    }

    /// This node with `route` as its child under the segment `path`. A child
    /// already under `path` is replaced whole.
    pub fn route(self, path: String, route: Scope<H>) -> (r: Scope<H>)
        ensures
            routed(self, path@, route, r),
            self.wf() ==> r.wf(),
    {
        let mut s = self;
        let mut i: usize = 0;
        while i < s.children.len() && !(s.children[i].0 == path)
            invariant
                i <= s.children.len(),
                s == self,
                forall|m: int| 0 <= m < i ==> s.children@[m].0@ != path@,
            decreases s.children.len() - i,
        {
            i += 1;
        }
        let ghost old_cs = s.children@;
        let ghost np = (path, route);
        if i < s.children.len() {
            s.children.remove(i);
            s.children.insert(i, (path, route));
            proof {
                assert(s.children@ =~= old_cs.update(i as int, np));
                assert forall|k: Seq<char>| s.child(k) == (if k == np.0@ { Some(np.1) } else { self.child(k) }) by {
                    lemma_find_update(old_cs, 0, i as int, k, np);
                }
                assert forall|m: int| 0 <= m < s.children@.len() implies s.children@[m].0@ == old_cs[m].0@ by {}
            }
        } else {
            s.children.push((path, route));
            proof {
                assert forall|k: Seq<char>| s.child(k) == (if k == np.0@ { Some(np.1) } else { self.child(k) }) by {
                    lemma_find_push(old_cs, 0, k, np);
                }
                assert(s.children@ == old_cs.push(np));
            }
        }
        s
    }

    /// The systems of this node, in the order they are tried.
    pub fn systems(&self) -> (r: &[System<H>])
        ensures
            r@ == self.system_list(),
    {
        self.systems.as_slice()
    }

    /// The child node under the segment `path`.
    pub fn get_child(&self, path: &String) -> (r: Option<&Scope<H>>)
        ensures
            match r {
                Some(c) => self.child(path@) == Some(*c),
                None => self.child(path@) is None,
            },
    {
        let mut i: usize = 0;
        while i < self.children.len()
            invariant
                i <= self.children.len(),
                self.child(path@) == find_child(self.children@, i as int, path@),
            decreases self.children.len() - i,
        {
            if self.children[i].0 == *path {
                return Some(&self.children[i].1);
            }
            i += 1;
        }
        None
    }
}

impl<H: Handler> Scope<H> {
    /// Resolution from this node with the cursor at `pos`: when a segment is
    /// left and a child is stored under it, the child decides alone, with the
    /// cursor past that segment; otherwise this node's systems are tried in
    /// order.
    pub open spec fn spec_resolve(self, req: RequestView, pos: int) -> ResolveGuard<ResponseView>
        decreases req.path.len() - pos,
    {
        if 0 <= pos < req.path.len() && self.child(req.path[pos]) is Some {
            self.child(req.path[pos]).unwrap().spec_resolve(req, pos + 1)
        } else {
            try_systems(self.system_list(), 0, req, pos)
        }
    }

    /// Walks the tree from this node for `req`, starting at segment `pos`.
    pub fn resolve(&self, req: &Request, pos: usize) -> (r: ResolveGuard<Response>)
        requires
            pos <= req.path.len(),
        ensures
            guard_view(r) == self.spec_resolve(req@, pos as int),
        decreases req.path.len() - pos,
    {
        if pos < req.path.len() {
            assert(req@.path[pos as int] == req.path@[pos as int]@);
            match self.get_child(&req.path[pos]) {
                Some(c) => {
                    return c.resolve(req, pos + 1);
                },
                None => {},
            }
        }
        run_systems(&self.systems, req, pos)
    }
}

/// The routing tree together with its request-side and response-side layer
/// chains.
pub struct Router<H, Q, P> {
    root: Scope<H>,
    request_layer: Q,
    response_layer: P,
}

impl<H: Handler> Router<H, LayerGroup<Passthrough>, LayerGroup<Passthrough>> {
    /// A router over `root` whose layer chains are both empty.
    pub fn new(root: Scope<H>) -> (r: Self)
        ensures
            r.spec_scope() == root,
            r.spec_request_layer().spec_layers() == Seq::<Passthrough>::empty(),
            r.spec_response_layer().spec_layers() == Seq::<Passthrough>::empty(),
    {
        Router { root, request_layer: LayerGroup::new(), response_layer: LayerGroup::new() }
    }
}

impl<H, Q, P> Router<H, Q, P> {
    pub closed spec fn spec_scope(&self) -> Scope<H> {
        self.root
    }

    pub closed spec fn spec_request_layer(&self) -> Q {
        self.request_layer
    }

    pub closed spec fn spec_response_layer(&self) -> P {
        self.response_layer
    }

    /// A router over `root` with the given layer chains.
    pub fn with_layers(root: Scope<H>, request_layer: Q, response_layer: P) -> (r: Self)
        ensures
            r.spec_scope() == root,
            r.spec_request_layer() == request_layer,
            r.spec_response_layer() == response_layer,
    {
        Router { root, request_layer, response_layer }
    }

    /// The root of the routing tree.
    pub fn scope(&self) -> (r: &Scope<H>)
        ensures
            *r == self.spec_scope(),
    {
        &self.root
    }

    /// The request-side layer chain.
    pub fn request_layer(&self) -> (r: &Q)
        ensures
            *r == self.spec_request_layer(),
    {
        &self.request_layer
    }

    /// The response-side layer chain.
    pub fn response_layer(&self) -> (r: &P)
        ensures
            *r == self.spec_response_layer(),
    {
        &self.response_layer
    }
}

/// The payload a response chain ends with, whether it ran through or stopped early.
pub open spec fn finished(f: Flow<ResponseView, ResponseView>) -> ResponseView {
    match f {
        Flow::Continue(r) => r,
        Flow::Respond(r) => r,
    }
}

impl<H: Handler, Q: Layer<Request>, P: Layer<Response>> Router<H, Q, P> {
    /// The response that reaches the response chain: the request chain's own
    /// response when it stops early, else the outcome of walking the tree.
    pub open spec fn spec_routed(&self, req: RequestView) -> ResponseView {
        match self.spec_request_layer().spec_execute(req) {
            Flow::Continue(q) => settle(self.spec_scope().spec_resolve(q, 0)),
            Flow::Respond(r) => r,
        }
    }

    /// The final response for `req`: the routed response run through the
    /// response chain.
    pub open spec fn spec_dispatch(&self, req: RequestView) -> ResponseView {
        finished(self.spec_response_layer().spec_execute(self.spec_routed(req)))
    }

    /// Handles one request from start to end.
    pub fn dispatch(&self, req: Request) -> (r: Response)
        ensures
            r@ == self.spec_dispatch(req@),
    {
        let routed = match self.request_layer.execute(req) {
            Flow::Continue(q) => match self.root.resolve(&q, 0) {
                ResolveGuard::Value(r) => r,
                ResolveGuard::Decline => Response::status(NOT_FOUND),
                ResolveGuard::Fail => Response::status(BAD_REQUEST),
            },
            Flow::Respond(r) => r,
        };
        match self.response_layer.execute(routed) {
            Flow::Continue(r) => r,
            Flow::Respond(r) => r,
        }
    }
}

} // verus!
