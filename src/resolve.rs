use vstd::prelude::*;
use vstd::utf8::{decode_utf8, valid_utf8};
use crate::http::{copy_bytes, find_header, Method, Request, RequestView};

verus! {

/// Tri-state result of one extraction attempt.
pub enum ResolveGuard<T> {
    /// The extractor applies and produced a value.
    Value(T),
    /// The extractor does not apply to this request: try the next system.
    Decline,
    /// The extractor applies but the request is malformed: abort dispatch.
    Fail,
}

/// One handler argument produced by an extractor.
pub enum Arg {
    /// A marker argument that carries no data (a method guard, an endpoint check).
    Unit,
    /// A path segment consumed as a parameter.
    Segment(String),
    /// Text taken from the request (its body, or a header value).
    Text(String),
}

pub enum ArgView {
    Unit,
    Segment(Seq<char>),
    Text(Seq<char>),
}

impl View for Arg {
    type V = ArgView;

    open spec fn view(&self) -> ArgView {
        match self {
            Arg::Unit => ArgView::Unit,
            Arg::Segment(s) => ArgView::Segment(s@),
            Arg::Text(s) => ArgView::Text(s@),
        }
    }
}

pub open spec fn args_view(args: Seq<Arg>) -> Seq<ArgView> {
    args.map_values(|a: Arg| a@)
}

/// The ways a handler argument can be pulled out of a request.
pub enum Extractor {
    /// Applies only to requests with this method; consumes nothing.
    Method(Method),
    /// Applies only when no path segment is left unmatched.
    Endpoint,
    /// Consumes the next path segment as a parameter; declines when none is left.
    Segment,
    /// The body as UTF-8 text; fails when the body is not valid UTF-8.
    Text,
    /// The value of the first header with this name; declines when absent.
    Header(String),
}

/// What one extractor yields on `req` with the cursor at `pos`: the argument
/// and the cursor after it.
pub open spec fn extract_spec(e: Extractor, req: RequestView, pos: int) -> ResolveGuard<(ArgView, int)> {
    match e {
        Extractor::Method(m) => if req.method == m {
            ResolveGuard::Value((ArgView::Unit, pos))
        } else {
            ResolveGuard::Decline
        },
        Extractor::Endpoint => if pos >= req.path.len() {
            ResolveGuard::Value((ArgView::Unit, pos))
        } else {
            ResolveGuard::Decline
        },
        Extractor::Segment => if 0 <= pos < req.path.len() {
            ResolveGuard::Value((ArgView::Segment(req.path[pos]), pos + 1))
        } else {
            ResolveGuard::Decline
        },
        Extractor::Text => if valid_utf8(req.body) {
            ResolveGuard::Value((ArgView::Text(decode_utf8(req.body)), pos))
        } else {
            ResolveGuard::Fail
        },
        Extractor::Header(name) => match find_header(req.headers, name@) {
            Some(v) => ResolveGuard::Value((ArgView::Text(v), pos)),
            None => ResolveGuard::Decline,
        },
    }
}

/// `args` placed before the arguments of a successful chain; other outcomes unchanged.
pub open spec fn prepend(args: Seq<ArgView>, g: ResolveGuard<(Seq<ArgView>, int)>) -> ResolveGuard<(Seq<ArgView>, int)> {
    match g {
        ResolveGuard::Value((rest, p)) => ResolveGuard::Value((args + rest, p)),
        ResolveGuard::Decline => ResolveGuard::Decline,
        ResolveGuard::Fail => ResolveGuard::Fail,
    }
}

/// Runs the extractors `exs[i..]` in order, threading the cursor; the first
/// `Decline` or `Fail` ends the chain.
pub open spec fn extract_chain(exs: Seq<Extractor>, i: int, req: RequestView, pos: int) -> ResolveGuard<(Seq<ArgView>, int)>
    decreases exs.len() - i,
{
    if i < 0 || i >= exs.len() {
        ResolveGuard::Value((Seq::empty(), pos))
    } else {
        match extract_spec(exs[i], req, pos) {
            ResolveGuard::Value((a, p)) => prepend(seq![a], extract_chain(exs, i + 1, req, p)),
            ResolveGuard::Decline => ResolveGuard::Decline,
            ResolveGuard::Fail => ResolveGuard::Fail,
        }
    }
}

/// Relies on `String::from_utf8`: succeeds exactly on valid UTF-8 and then
/// holds the decoded text.
#[verifier::external_body]
fn utf8_text(bytes: Vec<u8>) -> (r: Option<String>)
    ensures
        match r {
            Some(s) => valid_utf8(bytes@) && s@ == decode_utf8(bytes@),
            None => !valid_utf8(bytes@),
        },
{
    String::from_utf8(bytes).ok()
}

impl Extractor {
    /// Runs this extractor on `req` with the cursor at `pos`.
    pub fn extract(&self, req: &Request, pos: usize) -> (r: ResolveGuard<(Arg, usize)>)
        requires
            pos <= req.path.len(),
        ensures
            match (r, extract_spec(*self, req@, pos as int)) {
                (ResolveGuard::Value((a, p)), ResolveGuard::Value((av, pv))) => a@ == av && p == pv
                    && p <= req.path.len(),
                (ResolveGuard::Decline, ResolveGuard::Decline) => true,
                (ResolveGuard::Fail, ResolveGuard::Fail) => true,
                _ => false,
            },
    {
        match self {
            Extractor::Method(m) => {
                if req.method == *m {
                    ResolveGuard::Value((Arg::Unit, pos))
                } else {
                    ResolveGuard::Decline
                }
            },
            Extractor::Endpoint => {
                if pos >= req.path.len() {
                    ResolveGuard::Value((Arg::Unit, pos))
                } else {
                    ResolveGuard::Decline
                }
            },
            Extractor::Segment => {
                if pos < req.path.len() {
                    ResolveGuard::Value((Arg::Segment(req.path[pos].clone()), pos + 1))
                } else {
                    ResolveGuard::Decline
                }
            },
            Extractor::Text => {
                match utf8_text(copy_bytes(&req.body)) {
                    Some(s) => ResolveGuard::Value((Arg::Text(s), pos)),
                    None => ResolveGuard::Fail,
                }
            },
            Extractor::Header(name) => {
                match req.header(name) {
                    Some(v) => ResolveGuard::Value((Arg::Text(v.clone()), pos)),
                    None => ResolveGuard::Decline,
                }
            },
        }
    }
}

/// Runs `exs` in order from cursor `pos`. On success, the arguments in
/// declaration order and the cursor after the last of them.
pub fn extract_all(exs: &Vec<Extractor>, req: &Request, pos: usize) -> (r: ResolveGuard<(Vec<Arg>, usize)>)
    requires
        pos <= req.path.len(),
    ensures
        match (r, extract_chain(exs@, 0, req@, pos as int)) {
            (ResolveGuard::Value((a, p)), ResolveGuard::Value((av, pv))) => args_view(a@) == av && p == pv,
            (ResolveGuard::Decline, ResolveGuard::Decline) => true,
            (ResolveGuard::Fail, ResolveGuard::Fail) => true,
            _ => false,
        },
{
    let mut args: Vec<Arg> = Vec::new();
    let mut cur: usize = pos;
    let mut i: usize = 0;
    while i < exs.len()
        invariant
            i <= exs.len(),
            cur <= req.path.len(),
            extract_chain(exs@, 0, req@, pos as int) == prepend(
                args_view(args@),
                extract_chain(exs@, i as int, req@, cur as int),
            ),
        decreases exs.len() - i,
    {
        match exs[i].extract(req, cur) {
            ResolveGuard::Value((a, p)) => {
                let ghost prev = args@;
                let ghost av = a@;
                args.push(a);
                proof {
                    assert(args_view(args@) =~= args_view(prev).push(av));
                    let g = extract_chain(exs@, i + 1, req@, p as int);
                    match g {
                        ResolveGuard::Value((rest, q)) => {
                            assert(args_view(prev) + (seq![av] + rest) =~= args_view(args@) + rest);
                        },
                        _ => {},
                    }
                }
                cur = p;
            },
            ResolveGuard::Decline => {
                return ResolveGuard::Decline;
            },
            ResolveGuard::Fail => {
                return ResolveGuard::Fail;
            },
        }
        i += 1;
    }
    assert(args_view(args@) + Seq::<ArgView>::empty() =~= args_view(args@));
    ResolveGuard::Value((args, cur))
}

} // verus!
