use vstd::prelude::*;
use crate::http::{text_bytes, Request, RequestView, Response, ResponseView};
use crate::resolve::{args_view, extract_all, extract_chain, Arg, ArgView, Extractor, ResolveGuard};

verus! {

/// The function a system runs once all of its arguments are extracted.
///
/// `spec_call` states what the handler answers for given arguments; every
/// implementation proves that `call` produces exactly that response.
pub trait Handler: Sized {
    spec fn spec_call(&self, args: Seq<ArgView>) -> ResponseView;

    fn call(&self, args: Vec<Arg>) -> (r: Response)
        ensures
            r@ == self.spec_call(args_view(args@)),
    ;
}

/// A handler that answers every call with the same response.
pub struct Reply {
    pub response: Response,
}

impl Handler for Reply {
    open spec fn spec_call(&self, args: Seq<ArgView>) -> ResponseView {
        self.response@
    }

    fn call(&self, args: Vec<Arg>) -> (r: Response) {
        self.response.duplicate()
    }
}

impl Reply {
    pub fn new(response: Response) -> (r: Reply)
        ensures
            r.response@ == response@,
    {
        Reply { response }
    }
}

/// The first textual argument among `args[i..]` (a captured segment or
/// extracted text); empty when there is none.
pub open spec fn first_text(args: Seq<ArgView>, i: int) -> Seq<char>
    decreases args.len() - i,
{
    if i < 0 || i >= args.len() {
        Seq::empty()
    } else {
        match args[i] {
            ArgView::Segment(s) => s,
            ArgView::Text(s) => s,
            ArgView::Unit => first_text(args, i + 1),
        }
    }
}

/// A handler that answers `200` with its first textual argument, UTF-8
/// encoded, as the body.
pub struct Echo;

impl Handler for Echo {
    open spec fn spec_call(&self, args: Seq<ArgView>) -> ResponseView {
        ResponseView {
            status: 200,
            headers: Seq::empty(),
            body: vstd::utf8::encode_utf8(first_text(args, 0)),
        }
    }

    fn call(&self, args: Vec<Arg>) -> (r: Response) {
        let mut i: usize = 0;
        while i < args.len()
            invariant
                i <= args.len(),
                first_text(args_view(args@), 0) == first_text(args_view(args@), i as int),
            decreases args.len() - i,
        {
            match &args[i] {
                Arg::Segment(s) => {
                    assert(args_view(args@)[i as int] == args@[i as int]@);
                    let mut r = Response::status(200);
                    r.body = text_bytes(s);
                    return r;
                },
                Arg::Text(s) => {
                    assert(args_view(args@)[i as int] == args@[i as int]@);
                    let mut r = Response::status(200);
                    r.body = text_bytes(s);
                    return r;
                },
                Arg::Unit => {
                    assert(args_view(args@)[i as int] == args@[i as int]@);
                },
            }
            i += 1;
        }
        assert(vstd::utf8::encode_utf8(Seq::empty()) =~= Seq::empty());
        Response::status(200)
    }
}

/// The response-level view of a system attempt.
pub open spec fn guard_view(g: ResolveGuard<Response>) -> ResolveGuard<ResponseView> {
    match g {
        ResolveGuard::Value(r) => ResolveGuard::Value(r@),
        ResolveGuard::Decline => ResolveGuard::Decline,
        ResolveGuard::Fail => ResolveGuard::Fail,
    }
}

/// A dispatchable unit: a handler together with the extractors that produce
/// its arguments, in parameter order.
pub struct System<H> {
    pub extractors: Vec<Extractor>,
    pub handler: H,
}

impl<H: Handler> System<H> {
    pub fn new(extractors: Vec<Extractor>, handler: H) -> (r: System<H>)
        ensures
            r.extractors@ == extractors@,
            r.handler == handler,
    {
        System { extractors, handler }
    }

    /// The outcome of attempting this system on `req` with the cursor at
    /// `pos`: the handler's response when every extractor yields a value, else
    /// the first `Decline` or `Fail`.
    pub open spec fn spec_attempt(&self, req: RequestView, pos: int) -> ResolveGuard<ResponseView> {
        match extract_chain(self.extractors@, 0, req, pos) {
            ResolveGuard::Value((args, _)) => ResolveGuard::Value(self.handler.spec_call(args)),
            ResolveGuard::Decline => ResolveGuard::Decline,
            ResolveGuard::Fail => ResolveGuard::Fail,
        }
    }

    /// Attempts this system. The cursor is taken by value: whatever the
    /// extractors consume is local to this attempt.
    pub fn attempt(&self, req: &Request, pos: usize) -> (r: ResolveGuard<Response>)
        requires
            pos <= req.path.len(),
        ensures
            guard_view(r) == self.spec_attempt(req@, pos as int),
    {
        match extract_all(&self.extractors, req, pos) {
            ResolveGuard::Value((args, _)) => ResolveGuard::Value(self.handler.call(args)),
            ResolveGuard::Decline => ResolveGuard::Decline,
            ResolveGuard::Fail => ResolveGuard::Fail,
        }
    }
}

/// The first outcome among `systems[i..]` that is not a `Decline`;
/// `Decline` when all of them decline.
pub open spec fn try_systems<H: Handler>(systems: Seq<System<H>>, i: int, req: RequestView, pos: int) -> ResolveGuard<ResponseView>
    decreases systems.len() - i,
{
    if i < 0 || i >= systems.len() {
        ResolveGuard::Decline
    } else {
        match systems[i].spec_attempt(req, pos) {
            ResolveGuard::Decline => try_systems(systems, i + 1, req, pos),
            other => other,
        }
    }
}

/// Tries `systems` in order from the same cursor; the first that resolves wins.
pub fn run_systems<H: Handler>(systems: &Vec<System<H>>, req: &Request, pos: usize) -> (r: ResolveGuard<Response>)
    requires
        pos <= req.path.len(),
    ensures
        guard_view(r) == try_systems(systems@, 0, req@, pos as int),
{
    let mut i: usize = 0;
    while i < systems.len()
        invariant
            i <= systems.len(),
            pos <= req.path.len(),
            try_systems(systems@, 0, req@, pos as int) == try_systems(systems@, i as int, req@, pos as int),
        decreases systems.len() - i,
    {
        let g = systems[i].attempt(req, pos);
        match g {
            ResolveGuard::Decline => {},
            _ => {
                return g;
            },
        }
        i += 1;
    }
    ResolveGuard::Decline
}

} // verus!
