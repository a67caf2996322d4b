use vstd::prelude::*;

verus! {

/// HTTP request methods.
#[derive(Clone, Copy, Debug, PartialEq, Eq, Structural)]
pub enum Method {
    Get,
    Post,
    Put,
    Delete,
    Patch,
    Head,
    Options,
}

/// A header list as pure text: name and value of each entry, in order.
pub type HeadersView = Seq<(Seq<char>, Seq<char>)>;

pub open spec fn headers_view(h: Seq<(String, String)>) -> HeadersView {
    h.map_values(|e: (String, String)| (e.0@, e.1@))
}

/// A fully materialised inbound request. The path is held as its segments,
/// in order, without separators.
pub struct Request {
    pub method: Method,
    pub path: Vec<String>,
    pub headers: Vec<(String, String)>,
    pub body: Vec<u8>,
}

pub struct RequestView {
    pub method: Method,
    pub path: Seq<Seq<char>>,
    pub headers: HeadersView,
    pub body: Seq<u8>,
}

impl View for Request {
    type V = RequestView;

    open spec fn view(&self) -> RequestView {
        RequestView {
            method: self.method,
            path: self.path@.map_values(|s: String| s@),
            headers: headers_view(self.headers@),
            body: self.body@,
        }
    }
}

/// An outbound response: status code, headers in emission order, body bytes.
pub struct Response {
    pub status: u16,
    pub headers: Vec<(String, String)>,
    pub body: Vec<u8>,
}

pub struct ResponseView {
    pub status: u16,
    pub headers: HeadersView,
    pub body: Seq<u8>,
}

impl View for Response {
    type V = ResponseView;

    open spec fn view(&self) -> ResponseView {
        ResponseView { status: self.status, headers: headers_view(self.headers@), body: self.body@ }
    }
}

/// A response that carries only a status code.
pub open spec fn status_view(status: u16) -> ResponseView {
    ResponseView { status, headers: Seq::empty(), body: Seq::empty() }
}

/// The first header named `name`, if any.
pub open spec fn find_header(h: HeadersView, name: Seq<char>) -> Option<Seq<char>>
    decreases h.len(),
{
    if h.len() == 0 {
        None
    } else if h[0].0 == name {
        Some(h[0].1)
    } else {
        find_header(h.drop_first(), name)
    }
}

fn copy_headers(h: &Vec<(String, String)>) -> (r: Vec<(String, String)>)
    ensures
        headers_view(r@) == headers_view(h@),
{
    let mut r: Vec<(String, String)> = Vec::new();
    let mut i: usize = 0;
    while i < h.len()
        invariant
            i <= h.len(),
            r@.len() == i,
            headers_view(r@) == headers_view(h@.subrange(0, i as int)),
        decreases h.len() - i,
    {
        let name = h[i].0.clone();
        let value = h[i].1.clone();
        assert(name@ == h@[i as int].0@ && value@ == h@[i as int].1@);
        let ghost prev = r@;
        r.push((name, value));
        proof {
            assert forall|j: int| 0 <= j < i implies headers_view(r@)[j] == headers_view(h@.subrange(0, i + 1))[j] by {
                assert(r@[j] == prev[j]);
                assert(headers_view(prev)[j] == headers_view(h@.subrange(0, i as int))[j]);
            }
            assert(h@.subrange(0, i + 1) =~= h@.subrange(0, i as int).push(h@[i as int]));
            assert(headers_view(r@) =~= headers_view(h@.subrange(0, i + 1)));
        }
        i += 1;
    }
    assert(h@.subrange(0, h.len() as int) == h@);
    r
}

pub(crate) fn copy_bytes(b: &Vec<u8>) -> (r: Vec<u8>)
    ensures
        r@ == b@,
{
    let mut r: Vec<u8> = Vec::new();
    let mut i: usize = 0;
    while i < b.len()
        invariant
            i <= b.len(),
            r@ == b@.subrange(0, i as int),
        decreases b.len() - i,
    {
        r.push(b[i]);
        proof {
            assert(r@ =~= b@.subrange(0, i + 1));
        }
        i += 1;
    }
    assert(r@ =~= b@);
    r
}

/// The pieces of `s` between slashes, empty ones included, in the way
/// `str::split` with a `'/'` separator yields them.
pub open spec fn split_slash(s: Seq<char>) -> Seq<Seq<char>>
    decreases s.len(),
{
    if s.len() == 0 {
        seq![Seq::empty()]
    } else {
        let rest = split_slash(s.drop_last());
        if s.last() == '/' {
            rest.push(Seq::empty())
        } else {
            rest.update(rest.len() - 1, rest.last().push(s.last()))
        }
    }
}

/// The non-empty pieces of `parts`, in order.
pub open spec fn non_empty(parts: Seq<Seq<char>>) -> Seq<Seq<char>>
    decreases parts.len(),
{
    if parts.len() == 0 {
        Seq::empty()
    } else if parts.last().len() > 0 {
        non_empty(parts.drop_last()).push(parts.last())
    } else {
        non_empty(parts.drop_last())
    }
}

/// The segments of a path: the non-empty pieces between slashes, so that
/// `/a//b/` has the segments `a` and `b`.
pub open spec fn segments_of(path: Seq<char>) -> Seq<Seq<char>> {
    non_empty(split_slash(path))
}

/// Relies on `str::split` with a `'/'` separator: every piece between
/// slashes, empty ones included, in order.
#[verifier::external_body]
fn split_on_slash(path: &str) -> (r: Vec<String>)
    ensures
        r@.map_values(|p: String| p@) == split_slash(path@),
{
    path.split('/').map(|p| p.to_string()).collect()
}

/// Splits a raw request path into its segments.
pub fn path_segments(path: &str) -> (r: Vec<String>)
    ensures
        r@.map_values(|p: String| p@) == segments_of(path@),
{
    let parts = split_on_slash(path);
    let ghost pv = parts@.map_values(|p: String| p@);
    let mut r: Vec<String> = Vec::new();
    let mut i: usize = 0;
    while i < parts.len()
        invariant
            i <= parts.len(),
            pv == parts@.map_values(|p: String| p@),
            r@.map_values(|p: String| p@) == non_empty(pv.subrange(0, i as int)),
        decreases parts.len() - i,
    {
        let ghost prev = r@;
        assert(pv.subrange(0, i + 1).drop_last() =~= pv.subrange(0, i as int));
        assert(pv.subrange(0, i + 1).last() == parts@[i as int]@);
        if !parts[i].as_str().is_empty() {
            let p = parts[i].clone();
            r.push(p);
            assert(r@.map_values(|p: String| p@) =~= prev.map_values(|p: String| p@).push(parts@[i as int]@));
        }
        i += 1;
    }
    assert(pv.subrange(0, parts.len() as int) =~= pv);
    r
}

impl Request {
    /// A request with the given method and the segments of the raw `path`,
    /// without headers and with an empty body.
    pub fn from_path(method: Method, path: &str) -> (r: Request)
        ensures
            r@.method == method,
            r@.path == segments_of(path@),
            r@.headers.len() == 0,
            r@.body.len() == 0,
    {
        Request::new(method, path_segments(path))
    }

    pub fn new(method: Method, path: Vec<String>) -> (r: Request)
        ensures
            r@.method == method,
            r@.path == path@.map_values(|s: String| s@),
            r@.headers.len() == 0,
            r@.body.len() == 0,
    {
        Request { method, path, headers: Vec::new(), body: Vec::new() }
    }

    /// This request with one more header at the end of its list.
    pub fn with_header(self, name: String, value: String) -> (r: Request)
        ensures
            r@.method == self@.method,
            r@.path == self@.path,
            r@.headers == self@.headers.push((name@, value@)),
            r@.body == self@.body,
    {
        let mut s = self;
        let ghost name_v = name@;
        let ghost value_v = value@;
        s.headers.push((name, value));
        proof {
            assert(s@.headers =~= self@.headers.push((name_v, value_v)));
        }
        s
    }

    /// This request with its body replaced.
    pub fn with_body(self, body: Vec<u8>) -> (r: Request)
        ensures
            r@.method == self@.method,
            r@.path == self@.path,
            r@.headers == self@.headers,
            r@.body == body@,
    {
        Request { method: self.method, path: self.path, headers: self.headers, body }
    }

    /// The value of the first header named `name`.
    pub fn header(&self, name: &String) -> (r: Option<&String>)
        ensures
            match r {
                Some(v) => find_header(self@.headers, name@) == Some(v@),
                None => find_header(self@.headers, name@) is None,
            },
    {
        lookup_header(&self.headers, name)
    }
}

fn lookup_header<'a>(h: &'a Vec<(String, String)>, name: &String) -> (r: Option<&'a String>)
    ensures
        match r {
            Some(v) => find_header(headers_view(h@), name@) == Some(v@),
            None => find_header(headers_view(h@), name@) is None,
        },
{
    let mut i: usize = 0;
    assert(h@.subrange(0, h.len() as int) =~= h@);
    while i < h.len()
        invariant
            i <= h.len(),
            find_header(headers_view(h@), name@) == find_header(
                headers_view(h@.subrange(i as int, h.len() as int)),
                name@,
            ),
        decreases h.len() - i,
    {
        let ghost rest = headers_view(h@.subrange(i as int, h.len() as int));
        assert(rest[0] == (h@[i as int].0@, h@[i as int].1@));
        if h[i].0 == *name {
            return Some(&h[i].1);
        }
        assert(rest.drop_first() =~= headers_view(h@.subrange(i + 1, h.len() as int)));
        i += 1;
    }
    assert(headers_view(h@.subrange(i as int, h.len() as int)) =~= Seq::empty());
    None
}

impl Response {
    /// A response with the given status, no headers and an empty body.
    pub fn status(status: u16) -> (r: Response)
        ensures
            r@ == status_view(status),
    {
        let r = Response { status, headers: Vec::new(), body: Vec::new() };
        assert(r@.headers =~= Seq::empty());
        r
    }

    /// A `200` response whose body is `text`, labelled as HTML.
    pub fn html(text: String) -> (r: Response)
        ensures
            r@.status == 200,
            r@.headers == seq![(html_content_type_name(), html_content_type_value())],
            r@.body == vstd::utf8::encode_utf8(text@),
    {
        let body = text_bytes(&text);
        let mut headers: Vec<(String, String)> = Vec::new();
        headers.push((String::from_str("Content-Type"), String::from_str("text/html; charset=utf-8")));
        proof {
            reveal_strlit("Content-Type");
            reveal_strlit("text/html; charset=utf-8");
            assert(headers_view(headers@) =~= seq![(html_content_type_name(), html_content_type_value())]);
        }
        Response { status: 200, headers, body }
    }

    /// This response with one more header at the end of its list.
    pub fn with_header(self, name: String, value: String) -> (r: Response)
        ensures
            r@.status == self@.status,
            r@.headers == self@.headers.push((name@, value@)),
            r@.body == self@.body,
    {
        let mut s = self;
        let ghost name_v = name@;
        let ghost value_v = value@;
        s.headers.push((name, value));
        proof {
            assert(s@.headers =~= self@.headers.push((name_v, value_v)));
        }
        s
    }

    /// A separate response equal in content to this one.
    pub fn duplicate(&self) -> (r: Response)
        ensures
            r@ == self@,
    {
        Response { status: self.status, headers: copy_headers(&self.headers), body: copy_bytes(&self.body) }
    }
}

pub open spec fn html_content_type_name() -> Seq<char> {
    "Content-Type"@
}

pub open spec fn html_content_type_value() -> Seq<char> {
    "text/html; charset=utf-8"@
}

/// The UTF-8 encoding of the text, as an owned byte vector.
pub(crate) fn text_bytes(s: &String) -> (r: Vec<u8>)
    ensures
        r@ == vstd::utf8::encode_utf8(s@),
{
    let bytes = s.as_str().as_bytes();
    let mut r: Vec<u8> = Vec::new();
    let mut i: usize = 0;
    while i < bytes.len()
        invariant
            i <= bytes@.len(),
            bytes@ == vstd::utf8::encode_utf8(s@),
            r@ == bytes@.subrange(0, i as int),
        decreases bytes@.len() - i,
    {
        r.push(bytes[i]);
        proof {
            assert(r@ =~= bytes@.subrange(0, i + 1));
        }
        i += 1;
    }
    assert(r@ =~= bytes@);
    r
}

} // verus!
