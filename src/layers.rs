use vstd::prelude::*;
use crate::http::{find_header, status_view, Request, RequestView, Response, ResponseView};

verus! {

/// What a layer hands on: the payload for the rest of the chain, or a final
/// response that ends the chain.
pub enum Flow<T, R> {
    Continue(T),
    Respond(R),
}

pub open spec fn flow_view<T: View>(f: Flow<T, Response>) -> Flow<T::V, ResponseView> {
    match f {
        Flow::Continue(t) => Flow::Continue(t@),
        Flow::Respond(r) => Flow::Respond(r@),
    }
}

/// One stage of a middleware chain over payloads of type `T`.
///
/// `spec_execute` states what the stage does to a payload; every
/// implementation proves that `execute` does exactly that.
pub trait Layer<T: View>: Sized {
    spec fn spec_execute(&self, data: T::V) -> Flow<T::V, ResponseView>;

    fn execute(&self, data: T) -> (r: Flow<T, Response>)
        ensures
            flow_view(r) == self.spec_execute(data@),
    ;
}

/// A layer that hands every payload on unchanged.
pub struct Passthrough;

impl<T: View> Layer<T> for Passthrough {
    open spec fn spec_execute(&self, data: T::V) -> Flow<T::V, ResponseView> {
        Flow::Continue(data)
    }

    fn execute(&self, data: T) -> (r: Flow<T, Response>) {
        Flow::Continue(data)
    }
}

/// Layers run one after another in insertion order, on the request side and
/// on the response side alike. The first layer that responds ends the chain.
pub struct LayerGroup<L> {
    layers: Vec<L>,
}

/// The chain `ls[i..]` run over `data`.
pub open spec fn run_chain<T: View, L: Layer<T>>(ls: Seq<L>, i: int, data: T::V) -> Flow<T::V, ResponseView>
    decreases ls.len() - i,
{
    if i < 0 || i >= ls.len() {
        Flow::Continue(data)
    } else {
        match ls[i].spec_execute(data) {
            Flow::Continue(d) => run_chain(ls, i + 1, d),
            Flow::Respond(r) => Flow::Respond(r),
        }
    }
}

impl<L> LayerGroup<L> {
    /// The layers of this group, in the order they run.
    pub closed spec fn spec_layers(&self) -> Seq<L> {
        self.layers@
    }

    /// An empty group: it hands every payload on unchanged.
    pub fn new() -> (r: LayerGroup<L>)
        ensures
            r.spec_layers() == Seq::<L>::empty(),
    {
        LayerGroup { layers: Vec::new() }
    }

    /// This group with `layer` run after all layers it already holds.
    pub fn add_layer(self, layer: L) -> (r: LayerGroup<L>)
        ensures
            r.spec_layers() == self.spec_layers().push(layer),
    {
        let mut layers = self.layers;
        layers.push(layer);
        LayerGroup { layers }
    }
}

impl<T: View, L: Layer<T>> Layer<T> for LayerGroup<L> {
    open spec fn spec_execute(&self, data: T::V) -> Flow<T::V, ResponseView> {
        run_chain(self.spec_layers(), 0, data)
    }

    fn execute(&self, data: T) -> (r: Flow<T, Response>) {
        let mut cur = data;
        let mut i: usize = 0;
        while i < self.layers.len()
            invariant
                i <= self.layers.len(),
                run_chain(self.layers@, 0, data@) == run_chain(self.layers@, i as int, cur@),
            decreases self.layers.len() - i,
        {
            match self.layers[i].execute(cur) {
                Flow::Continue(d) => {
                    cur = d;
                },
                Flow::Respond(r) => {
                    return Flow::Respond(r);
                },
            }
            i += 1;
        }
        Flow::Continue(cur)
    }
}

/// A request layer that lets through only requests carrying a header with
/// the given name, and answers every other request with `status`.
pub struct RequireHeader {
    pub name: String,
    pub status: u16,
}

impl Layer<Request> for RequireHeader {
    open spec fn spec_execute(&self, data: RequestView) -> Flow<RequestView, ResponseView> {
        if find_header(data.headers, self.name@) is Some {
            Flow::Continue(data)
        } else {
            Flow::Respond(status_view(self.status))
        }
    }

    fn execute(&self, data: Request) -> (r: Flow<Request, Response>) {
        let present = data.header(&self.name).is_some();
        if present {
            Flow::Continue(data)
        } else {
            Flow::Respond(Response::status(self.status))
        }
    }
}

/// A response layer that appends one header to every response.
pub struct AddHeader {
    pub name: String,
    pub value: String,
}

impl Layer<Response> for AddHeader {
    open spec fn spec_execute(&self, data: ResponseView) -> Flow<ResponseView, ResponseView> {
        Flow::Continue(ResponseView { headers: data.headers.push((self.name@, self.value@)), ..data })
    }

    fn execute(&self, data: Response) -> (r: Flow<Response, Response>) {
        let r = data.with_header(self.name.clone(), self.value.clone());
        assert(r@ == ResponseView { headers: data@.headers.push((self.name@, self.value@)), ..data@ });
        Flow::Continue(r)
    }
}

} // verus!
