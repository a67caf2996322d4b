use foxhole::http::{Method, Request, Response};
use foxhole::layers::{AddHeader, Flow, Layer, LayerGroup, Passthrough, RequireHeader};
use foxhole::resolve::{extract_all, Arg, Extractor, ResolveGuard};
use foxhole::routing::{Router, Scope, BAD_REQUEST, NOT_FOUND};
use foxhole::systems::{Handler, Reply, System};

fn seg(s: &str) -> String {
    s.to_string()
}

fn get(path: &[&str]) -> Request {
    Request::new(Method::Get, path.iter().map(|s| s.to_string()).collect())
}

fn reply(status: u16) -> Reply {
    Reply::new(Response::status(status))
}

fn get_endpoint(handler: Reply) -> System<Reply> {
    System::new(vec![Extractor::Method(Method::Get), Extractor::Endpoint], handler)
}

fn site() -> Scope<Reply> {
    let page = Reply::new(Response::html("<h1> Hey Friend </h1>".to_string()));
    Scope::empty()
        .route(seg("favicon.ico"), Scope::new(vec![get_endpoint(reply(404))]))
        .route(seg("page"), Scope::new(vec![get_endpoint(page)]))
}

#[test]
fn page_returns_html() {
    let router = Router::new(site());
    let r = router.dispatch(get(&["page"]));
    assert_eq!(r.status, 200);
    assert_eq!(r.body, b"<h1> Hey Friend </h1>".to_vec());
    assert_eq!(
        r.headers,
        vec![("Content-Type".to_string(), "text/html; charset=utf-8".to_string())]
    );
}

#[test]
fn unknown_path_is_not_found() {
    let router = Router::new(site());
    let r = router.dispatch(get(&["unknown"]));
    assert_eq!(r.status, NOT_FOUND);
    assert!(r.headers.is_empty());
    assert!(r.body.is_empty());
}

#[test]
fn favicon_answers_with_its_own_status() {
    let router = Router::new(site());
    let r = router.dispatch(get(&["favicon.ico"]));
    assert_eq!(r.status, 404);
    // The handler ran: the tree resolved to a value, not to a decline.
    let g = router.scope().resolve(&get(&["favicon.ico"]), 0);
    assert!(matches!(g, ResolveGuard::Value(ref resp) if resp.status == 404));
    let g = router.scope().resolve(&get(&["unknown"]), 0);
    assert!(matches!(g, ResolveGuard::Decline));
}

fn post_only() -> Scope<Reply> {
    let post_handler = System::new(vec![Extractor::Method(Method::Post)], reply(201));
    Scope::empty().route(seg("submit"), Scope::new(vec![post_handler]))
}

#[test]
fn method_guard_declines_get() {
    let router = Router::new(post_only());
    let r = router.dispatch(get(&["submit"]));
    assert_eq!(r.status, NOT_FOUND);
}

#[test]
fn method_guard_admits_post() {
    let router = Router::new(post_only());
    let r = router.dispatch(Request::new(Method::Post, vec![seg("submit")]));
    assert_eq!(r.status, 201);
}

#[test]
fn declining_system_falls_through_to_next() {
    let first = System::new(vec![Extractor::Method(Method::Post)], reply(201));
    let second = System::new(vec![Extractor::Method(Method::Get)], reply(202));
    let router = Router::new(Scope::new(vec![first, second]));
    assert_eq!(router.dispatch(get(&[])).status, 202);
}

#[test]
fn sibling_systems_see_the_same_cursor() {
    // The first system consumes a segment and then declines; the second one
    // still sees that segment.
    let first = System::new(
        vec![Extractor::Segment, Extractor::Method(Method::Post)],
        reply(201),
    );
    let second = System::new(vec![Extractor::Segment, Extractor::Endpoint], reply(203));
    let router = Router::new(Scope::new(vec![first, second]));
    assert_eq!(router.dispatch(get(&["42"])).status, 203);
    assert_eq!(router.dispatch(get(&["42", "x"])).status, NOT_FOUND);
}

#[test]
fn literal_child_beats_node_system() {
    let param = System::new(vec![Extractor::Segment, Extractor::Endpoint], reply(210));
    let scope = Scope::new(vec![param]).route(seg("fixed"), Scope::new(vec![get_endpoint(reply(211))]));
    let router = Router::new(scope);
    assert_eq!(router.dispatch(get(&["fixed"])).status, 211);
    assert_eq!(router.dispatch(get(&["other"])).status, 210);
}

#[test]
fn literal_child_decides_even_when_it_declines() {
    let param = System::new(vec![Extractor::Segment, Extractor::Endpoint], reply(210));
    let post = System::new(vec![Extractor::Method(Method::Post)], reply(212));
    let scope = Scope::new(vec![param]).route(seg("fixed"), Scope::new(vec![post]));
    let router = Router::new(scope);
    assert_eq!(router.dispatch(get(&["fixed"])).status, NOT_FOUND);
}

#[test]
fn second_route_replaces_first() {
    let scope = Scope::empty()
        .route(seg("x"), Scope::new(vec![get_endpoint(reply(221))]))
        .route(seg("x"), Scope::new(vec![get_endpoint(reply(222))]));
    let child = scope.get_child(&seg("x")).unwrap();
    assert_eq!(child.systems().len(), 1);
    let router = Router::new(scope);
    assert_eq!(router.dispatch(get(&["x"])).status, 222);
}

#[test]
fn route_keeps_other_children_and_systems() {
    let scope = Scope::new(vec![get_endpoint(reply(200))])
        .route(seg("a"), Scope::new(vec![get_endpoint(reply(231))]))
        .route(seg("b"), Scope::empty())
        .route(seg("a"), Scope::new(vec![get_endpoint(reply(232))]));
    assert_eq!(scope.systems().len(), 1);
    assert!(scope.get_child(&seg("b")).is_some());
    assert!(scope.get_child(&seg("c")).is_none());
    let router = Router::new(scope);
    assert_eq!(router.dispatch(get(&["a"])).status, 232);
    assert_eq!(router.dispatch(get(&[])).status, 200);
}

#[test]
fn nested_routes_walk_segment_by_segment() {
    let scope = Scope::empty().route(
        seg("api"),
        Scope::empty().route(seg("v1"), Scope::new(vec![get_endpoint(reply(240))])),
    );
    let router = Router::new(scope);
    assert_eq!(router.dispatch(get(&["api", "v1"])).status, 240);
    assert_eq!(router.dispatch(get(&["api"])).status, NOT_FOUND);
    assert_eq!(router.dispatch(get(&["api", "v1", "more"])).status, NOT_FOUND);
}

#[test]
fn empty_scope_is_not_found() {
    let router: Router<Reply, _, _> = Router::new(Scope::empty());
    assert_eq!(router.dispatch(get(&[])).status, NOT_FOUND);
}

fn auth_router(tree_status: u16) -> Router<Reply, LayerGroup<RequireHeader>, LayerGroup<AddHeader>> {
    let req_layers = LayerGroup::new().add_layer(RequireHeader { name: seg("Authorization"), status: 401 });
    let resp_layers = LayerGroup::new().add_layer(AddHeader { name: seg("Server"), value: seg("foxhole") });
    Router::with_layers(Scope::new(vec![get_endpoint(reply(tree_status))]), req_layers, resp_layers)
}

#[test]
fn request_layer_short_circuits_before_routing() {
    let a = auth_router(200);
    let b = auth_router(299);
    let ra = a.dispatch(get(&[]));
    let rb = b.dispatch(get(&[]));
    assert_eq!(ra.status, 401);
    assert_eq!(rb.status, 401);
    assert_eq!(ra.headers, vec![(seg("Server"), seg("foxhole"))]);
}

#[test]
fn request_layer_lets_authorised_requests_through() {
    let a = auth_router(200);
    let r = a.dispatch(get(&[]).with_header(seg("Authorization"), seg("token")));
    assert_eq!(r.status, 200);
}

#[test]
fn response_layers_apply_in_order() {
    let resp_layers = LayerGroup::new()
        .add_layer(AddHeader { name: seg("A"), value: seg("1") })
        .add_layer(AddHeader { name: seg("B"), value: seg("2") });
    let router = Router::with_layers(
        Scope::new(vec![get_endpoint(reply(200))]),
        LayerGroup::<Passthrough>::new(),
        resp_layers,
    );
    let r = router.dispatch(get(&[]));
    assert_eq!(r.status, 200);
    assert_eq!(r.headers, vec![(seg("A"), seg("1")), (seg("B"), seg("2"))]);
    let r = router.dispatch(get(&["missing"]));
    assert_eq!(r.status, NOT_FOUND);
    assert_eq!(r.headers, vec![(seg("A"), seg("1")), (seg("B"), seg("2"))]);
}

#[test]
fn first_responding_layer_ends_the_chain() {
    let group = LayerGroup::new()
        .add_layer(RequireHeader { name: seg("X"), status: 403 })
        .add_layer(RequireHeader { name: seg("Y"), status: 418 });
    match group.execute(get(&[])) {
        Flow::Respond(r) => assert_eq!(r.status, 403),
        Flow::Continue(_) => panic!("expected a response"),
    }
    match group.execute(get(&[]).with_header(seg("X"), seg("1"))) {
        Flow::Respond(r) => assert_eq!(r.status, 418),
        Flow::Continue(_) => panic!("expected a response"),
    }
    assert!(matches!(
        group.execute(get(&[]).with_header(seg("Y"), seg("1")).with_header(seg("X"), seg("1"))),
        Flow::Continue(_)
    ));
}

#[test]
fn invalid_body_aborts_with_bad_request() {
    let text = System::new(vec![Extractor::Text], reply(200));
    let fallback = System::new(vec![], reply(250));
    let router = Router::new(Scope::new(vec![text, fallback]));
    let bad = get(&[]).with_body(vec![0xff, 0xfe]);
    let r = router.dispatch(bad);
    assert_eq!(r.status, BAD_REQUEST);
    let good = get(&[]).with_body(b"hello".to_vec());
    assert_eq!(router.dispatch(good).status, 200);
}

#[test]
fn text_extractor_decodes_body() {
    let req = get(&[]).with_body("h\u{e9}llo".as_bytes().to_vec());
    match Extractor::Text.extract(&req, 0) {
        ResolveGuard::Value((Arg::Text(s), 0)) => assert_eq!(s, "h\u{e9}llo"),
        _ => panic!("expected decoded text"),
    }
    let bad = get(&[]).with_body(vec![0xc3]);
    assert!(matches!(Extractor::Text.extract(&bad, 0), ResolveGuard::Fail));
}

#[test]
fn extractors_run_in_order_and_thread_the_cursor() {
    let req = get(&["users", "7"]).with_header(seg("Host"), seg("example"));
    let exs = vec![
        Extractor::Segment,
        Extractor::Header(seg("Host")),
        Extractor::Segment,
        Extractor::Endpoint,
    ];
    match extract_all(&exs, &req, 0) {
        ResolveGuard::Value((args, pos)) => {
            assert_eq!(pos, 2);
            assert_eq!(args.len(), 4);
            assert!(matches!(&args[0], Arg::Segment(s) if s == "users"));
            assert!(matches!(&args[1], Arg::Text(s) if s == "example"));
            assert!(matches!(&args[2], Arg::Segment(s) if s == "7"));
            assert!(matches!(&args[3], Arg::Unit));
        }
        _ => panic!("expected all arguments"),
    }
    let missing = vec![Extractor::Header(seg("Cookie")), Extractor::Text];
    assert!(matches!(extract_all(&missing, &req, 0), ResolveGuard::Decline));
}

#[test]
fn header_lookup_takes_first_match() {
    let req = get(&[]).with_header(seg("K"), seg("1")).with_header(seg("K"), seg("2"));
    assert_eq!(req.header(&seg("K")), Some(&seg("1")));
    assert_eq!(req.header(&seg("L")), None);
}

#[test]
fn reply_handler_copies_its_response() {
    let h = Reply::new(Response::status(204).with_header(seg("A"), seg("b")));
    let r = h.call(vec![Arg::Unit]);
    assert_eq!(r.status, 204);
    assert_eq!(r.headers, vec![(seg("A"), seg("b"))]);
}

#[test]
fn passthrough_keeps_payload() {
    let layer = Passthrough;
    match Layer::<Response>::execute(&layer, Response::status(208)) {
        Flow::Continue(r) => assert_eq!(r.status, 208),
        Flow::Respond(_) => panic!("expected the payload"),
    }
}
