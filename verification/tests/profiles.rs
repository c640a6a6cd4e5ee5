use http::header::HeaderMap;
use indexmap::IndexMap;
use linkerd2_proxy::addr::NameAddr;
use linkerd2_proxy::api;
use linkerd2_proxy::app::profiles::{
    convert_req_match, convert_retry_budget, convert_route, convert_rsp_class, convert_rsp_match,
    profile_budget, Action, BudgetLimits, Client, Outcome, Progress, Rx, State,
};
use linkerd2_proxy::message::uri::{PathAndQuery, Uri};
use linkerd2_proxy::message::{Extensions, Method, Request, StatusCode, Version};
use linkerd2_proxy::proxy::profiles::{GetRoutes, RequestMatch, Route};
use linkerd2_proxy::proxy::routes::{Layer, Service, StackError};
use linkerd2_proxy::poll::Async;
use linkerd2_proxy::stack::layer::Layer as _;
use linkerd2_proxy::stack::{phantom_data, Stack};
use linkerd2_proxy::svc::Shared;
use linkerd2_proxy::time::Duration;
use linkerd2_proxy::app::outbound::CanonicalDstAddr;
use linkerd2_proxy::addr::{Addr, IpAddr, SocketAddr};
use std::sync::Arc;

fn request(method: &str, p: &str) -> Request<()> {
    Request {
        method: Method::new(method),
        uri: Uri {
            scheme: None,
            authority: None,
            path_and_query: Some(PathAndQuery { path: p.to_string(), query: None }),
        },
        version: Version::Http11,
        headers: HeaderMap::new(),
        extensions: Extensions::new(),
        body: (),
    }
}

fn cond(c: api::RequestCondition) -> api::RequestMatch {
    api::RequestMatch { match_: Some(c) }
}

fn path(p: &str) -> api::RequestMatch {
    cond(api::RequestCondition::Path(p.to_string()))
}

fn method(m: &str) -> api::RequestMatch {
    cond(api::RequestCondition::Method(api::HttpMethod {
        type_: Some(api::MethodType { method: Some(Method::new(m)) }),
    }))
}

fn rsp(c: api::ResponseCondition) -> api::ResponseMatch {
    api::ResponseMatch { match_: Some(c) }
}

fn range(min: u32, max: u32) -> api::ResponseMatch {
    rsp(api::ResponseCondition::Status(api::StatusRange { min, max }))
}

fn route(condition: Option<api::RequestMatch>) -> api::Route {
    api::Route {
        condition,
        response_classes: vec![],
        metrics_labels: IndexMap::new(),
        is_retryable: false,
        retry_timeout: None,
    }
}

fn status(n: u16) -> StatusCode {
    StatusCode::from_u16(n).unwrap()
}

#[test]
fn request_conditions_are_converted() {
    let m = convert_req_match(&cond(api::RequestCondition::All(vec![
        path("^/api/"),
        cond(api::RequestCondition::Not(Box::new(method("POST")))),
    ])))
    .unwrap();
    assert!(m.is_match(&request("GET", "/api/books")));
    assert!(!m.is_match(&request("POST", "/api/books")));
    assert!(!m.is_match(&request("GET", "/v2/api/books")));

    let m = convert_req_match(&cond(api::RequestCondition::Any(vec![
        path("^/a$"),
        method("PUT"),
    ])))
    .unwrap();
    assert!(m.is_match(&request("PUT", "/x")));
    assert!(m.is_match(&request("GET", "/a")));
    assert!(!m.is_match(&request("GET", "/ab")));
}

#[test]
fn bad_request_conditions_are_dropped() {
    assert!(convert_req_match(&api::RequestMatch { match_: None }).is_none());
    assert!(convert_req_match(&path("(")).is_none());
    assert!(convert_req_match(&cond(api::RequestCondition::Method(api::HttpMethod {
        type_: None
    })))
    .is_none());
    assert!(convert_req_match(&cond(api::RequestCondition::Not(Box::new(path("["))))).is_none());
    let m = convert_req_match(&cond(api::RequestCondition::All(vec![path("("), method("GET")])));
    assert!(m.unwrap().is_match(&request("GET", "/")));
}

#[test]
fn empty_conjunctions_hold_and_empty_disjunctions_do_not() {
    let all = convert_req_match(&cond(api::RequestCondition::All(vec![]))).unwrap();
    assert!(all.is_match(&request("GET", "/")));
    let any = convert_req_match(&cond(api::RequestCondition::Any(vec![]))).unwrap();
    assert!(!any.is_match(&request("GET", "/")));
}

#[test]
fn equal_formulas_match_equally() {
    let a = convert_req_match(&path("^/a")).unwrap();
    let b = convert_req_match(&path("^/a")).unwrap();
    for p in ["/a", "/ab", "/b", ""].iter() {
        assert_eq!(a.is_match(&request("GET", p)), b.is_match(&request("GET", p)));
    }
    let a = convert_rsp_match(&range(500, 599)).unwrap();
    let b = convert_rsp_match(&range(500, 599)).unwrap();
    for n in [499u16, 500, 550, 599].iter() {
        assert_eq!(a.is_match(&status(*n)), b.is_match(&status(*n)));
    }
}

#[test]
fn response_conditions_are_converted() {
    let m = convert_rsp_match(&range(500, 599)).unwrap();
    assert!(m.is_match(&status(500)) && m.is_match(&status(599)));
    assert!(!m.is_match(&status(499)));
    let m = convert_rsp_match(&rsp(api::ResponseCondition::All(vec![
        range(400, 499),
        rsp(api::ResponseCondition::Not(Box::new(range(404, 404)))),
    ])))
    .unwrap();
    assert!(m.is_match(&status(400)) && !m.is_match(&status(404)) && !m.is_match(&status(500)));
    let m = convert_rsp_match(&rsp(api::ResponseCondition::Any(vec![
        range(200, 200),
        range(404, 404),
    ])))
    .unwrap();
    assert!(m.is_match(&status(404)) && m.is_match(&status(200)) && !m.is_match(&status(201)));
    assert!(convert_rsp_match(&api::ResponseMatch { match_: None }).is_none());
    assert!(convert_rsp_match(&rsp(api::ResponseCondition::All(vec![]))).is_none());
    assert!(convert_rsp_match(&rsp(api::ResponseCondition::Any(vec![range(1, 2)]))).is_none());
    assert!(convert_rsp_match(&range(200, 600)).is_none());
    // Only the lowest sixteen bits of a status count.
    assert!(convert_rsp_match(&range(65536 + 200, 299)).unwrap().is_match(&status(200)));
}

#[test]
fn retries_take_a_timeout_and_a_budget() {
    let retryable = |timeout| {
        let mut orig = route(Some(path("/")));
        orig.is_retryable = true;
        orig.retry_timeout = timeout;
        orig
    };
    let budget = Some(Arc::new(()));
    let (_, r) = convert_route(retryable(None), &budget, None).unwrap();
    assert!(!r.is_retryable && r.retry_timeout.is_none() && r.retry_budget.is_none());
    let negative = Some(Err(Duration::from_secs(1)));
    let (_, r) = convert_route(retryable(negative), &budget, Some(Ok(Duration::from_secs(9)))).unwrap();
    assert!(!r.is_retryable && r.retry_timeout.is_none());
    let (_, r) = convert_route(retryable(Some(Ok(Duration::from_secs(2)))), &None::<Arc<()>>, None).unwrap();
    assert!(!r.is_retryable);
    assert_eq!(r.retry_timeout, Some(Duration::from_secs(2)));
}

#[test]
fn response_classes_are_converted() {
    let class = convert_rsp_class(&api::ResponseClass {
        condition: Some(range(500, 599)),
        is_failure: true,
    })
    .unwrap();
    assert!(class.is_failure() && class.is_match(&status(503)) && !class.is_match(&status(200)));
    assert!(convert_rsp_class(&api::ResponseClass { condition: None, is_failure: true }).is_none());
}

#[test]
fn retry_budgets_are_checked() {
    let ok = api::RetryBudget {
        retry_ratio_bits: 0.2f32.to_bits(),
        min_retries_per_second: 10,
        ttl: Some(Ok(Duration::from_secs(10))),
    };
    let limits = convert_retry_budget(ok).unwrap();
    assert_eq!(limits.ttl, Duration::from_secs(10));
    assert_eq!(limits.min_retries, 10);
    assert_eq!(f32::from_bits(limits.retry_ratio_bits), 0.2);

    let ratio = |r: f32| api::RetryBudget { retry_ratio_bits: r.to_bits(), ..ok };
    assert!(convert_retry_budget(ratio(1000.0)).is_some());
    assert!(convert_retry_budget(ratio(1000.1)).is_none());
    assert!(convert_retry_budget(ratio(0.0)).is_none());
    assert!(convert_retry_budget(ratio(-0.0)).is_none());
    assert!(convert_retry_budget(ratio(-1.0)).is_none());
    assert!(convert_retry_budget(ratio(f32::INFINITY)).is_none());
    assert!(convert_retry_budget(ratio(f32::MIN_POSITIVE)).is_some());

    // Without a rate or a time to live that would do, the ratio does not matter.
    let nan = ratio(f32::NAN);
    assert!(convert_retry_budget(api::RetryBudget { ttl: None, ..nan }).is_none());
    let fast = api::RetryBudget { min_retries_per_second: 2147483648, ..nan };
    assert!(convert_retry_budget(fast).is_none());
    let long = api::RetryBudget { ttl: Some(Ok(Duration::from_secs(61))), ..nan };
    assert!(convert_retry_budget(long).is_none());

    let rate = |n: u32| api::RetryBudget { min_retries_per_second: n, ..ok };
    assert!(convert_retry_budget(rate(2147483647)).is_some());
    assert!(convert_retry_budget(rate(2147483648)).is_none());

    let ttl = |t| api::RetryBudget { ttl: t, ..ok };
    assert!(convert_retry_budget(ttl(None)).is_none());
    assert!(convert_retry_budget(ttl(Some(Err(Duration::from_secs(10))))).is_none());
    assert!(convert_retry_budget(ttl(Some(Ok(Duration::from_secs(61))))).is_none());
    assert!(convert_retry_budget(ttl(Some(Ok(Duration::from_secs(60))))).is_some());
    assert!(convert_retry_budget(ttl(Some(Ok(Duration { secs: 0, nanos: 5 })))).is_none());

    let profile = api::DestinationProfile {
        routes: vec![],
        retry_budget: Some(ok),
        default_retry_timeout: None,
    };
    assert_eq!(profile_budget(&profile), Some(limits));
}

#[test]
fn routes_are_converted_with_their_retries() {
    let mut orig = route(Some(path("^/a$")));
    orig.is_retryable = true;
    orig.metrics_labels.insert("route".to_string(), "a".to_string());
    let budget = Arc::new("budget");
    let default_timeout = Some(Ok(Duration::from_secs(3)));
    let (m, r) = convert_route(orig, &Some(budget.clone()), default_timeout).unwrap();
    assert!(m.is_match(&request("GET", "/a")));
    assert!(r.is_retryable);
    assert_eq!(r.retry_timeout, Some(Duration::from_secs(3)));
    assert_eq!(r.retry_budget.map(|b| *b), Some("budget"));
    assert_eq!(r.labels.get("route").map(|s| s.as_str()), Some("a"));
    assert!(convert_route(route(None), &Some(budget), None).is_none());
}

#[test]
fn profiles_are_followed_with_backoff() {
    let dst = NameAddr { name: "web.ns".to_string(), port: 80 };
    let client = Client::new(Some(()), Duration::from_secs(5));
    let mut rx = client.get_routes(&dst).unwrap();
    match rx.next_action() {
        Action::GetProfile(req) => {
            assert_eq!(req.scheme, "k8s");
            assert_eq!(req.path, "web.ns:80");
        }
        _ => panic!("must ask"),
    }
    let budget = |limits: BudgetLimits| limits.min_retries;
    assert!(matches!(rx.observe(Outcome::Requested, &budget), Progress::Continue));
    assert_eq!(rx.next_action(), Action::PollResponse);
    assert!(matches!(rx.observe(Outcome::ResponseNotReady, &budget), Progress::NotReady));
    assert!(matches!(rx.observe(Outcome::ResponseReceived, &budget), Progress::Continue));
    assert_eq!(rx.next_action(), Action::PollStream);
    let profile = api::DestinationProfile {
        routes: vec![route(Some(path("^/a$"))), route(None), route(Some(path("^/b$")))],
        retry_budget: None,
        default_retry_timeout: None,
    };
    match rx.observe(Outcome::ProfileReceived(profile), &budget) {
        Progress::Routes(routes) => {
            assert_eq!(routes.len(), 2);
            assert!(routes[1].0.is_match(&request("GET", "/b")));
        }
        _ => panic!("must hand out routes"),
    }
    // The routes of a profile share the budget that the profile asks for.
    let retried = |retry_budget| {
        let mut orig = route(Some(path("^/a$")));
        orig.is_retryable = true;
        let default_retry_timeout = Some(Ok(Duration::from_secs(3)));
        Outcome::ProfileReceived(api::DestinationProfile {
            routes: vec![orig],
            retry_budget,
            default_retry_timeout,
        })
    };
    let sensible = api::RetryBudget {
        retry_ratio_bits: 0.2f32.to_bits(),
        min_retries_per_second: 10,
        ttl: Some(Ok(Duration::from_secs(10))),
    };
    match rx.observe(retried(Some(sensible)), &budget) {
        Progress::Routes(routes) => {
            assert!(routes[0].1.is_retryable);
            assert_eq!(routes[0].1.retry_budget.as_ref().map(|b| **b), Some(10));
        }
        _ => panic!("must hand out routes"),
    }
    let endless = api::RetryBudget { ttl: None, ..sensible };
    for orig in vec![Some(endless), None] {
        match rx.observe(retried(orig), &budget) {
            Progress::Routes(routes) => {
                assert!(!routes[0].1.is_retryable);
                assert!(routes[0].1.retry_budget.is_none());
            }
            _ => panic!("must hand out routes"),
        }
    }
    match rx.observe(Outcome::StreamFailed, &budget) {
        Progress::ContinueAfter(d) => assert_eq!(d, Duration::from_secs(5)),
        _ => panic!("must back off"),
    }
    assert_eq!(rx.state, State::Backoff);
    assert_eq!(rx.next_action(), Action::PollBackoff);
    assert!(matches!(rx.observe(Outcome::BackoffNotReady, &budget), Progress::NotReady));
    assert!(matches!(rx.observe(Outcome::BackoffElapsed, &budget), Progress::Continue));
    assert!(matches!(rx.next_action(), Action::GetProfile(_)));
    let silent: Rx = Client::<()>::new(None, Duration::from_secs(5)).get_routes(&dst).unwrap();
    assert_eq!(silent.next_action(), Action::YieldNoRoutes);
}

/// Builds services named by the `name` label of their route, and none for routes without one.
#[derive(Clone)]
struct ByName;

impl Stack<Route<()>> for ByName {
    type Value = String;
    type Error = ();

    fn accepts(&self, _: Route<()>) -> bool {
        true
    }

    fn makes(&self, route: Route<()>, r: Result<String, ()>) -> bool {
        self.make(&route) == r
    }

    fn make(&self, route: &Route<()>) -> Result<String, ()> {
        route.labels.get("name").cloned().ok_or(())
    }
}

fn named(name: &str) -> Route<()> {
    let mut labels = IndexMap::new();
    labels.insert("name".to_string(), name.to_string());
    Route::new(labels, vec![])
}

fn on_path(p: &str) -> RequestMatch {
    convert_req_match(&path(p)).unwrap()
}

#[test]
fn requests_go_along_the_first_matching_route() {
    let mut service: Service<ByName, String, (), ()> = Service {
        stack: ByName,
        discover_bg: Some(()),
        route_stream: None,
        routes: vec![],
        default_route: "default".to_string(),
    };
    assert_eq!(service.service_for(&request("GET", "/a")), "default");
    service.update_routes(vec![
        (on_path("^/x"), Route::new(IndexMap::new(), vec![])),
        (on_path("^/a"), named("first")),
        (on_path("^/ab"), named("second")),
    ]);
    assert_eq!(service.routes.len(), 2);
    assert_eq!(service.pick(&request("GET", "/ab")), Some(0));
    assert_eq!(service.service_for(&request("GET", "/ab")), "first");
    assert_eq!(service.service_for(&request("GET", "/x")), "default");
    service.update_routes(vec![(on_path("^/ab"), named("second"))]);
    assert_eq!(service.service_for(&request("GET", "/ab")), "second");
    assert_eq!(service.service_for(&request("GET", "/a")), "default");
    service.background::<()>(Ok(Async::NotReady));
    assert!(service.discover_bg.is_some());
    service.background::<()>(Err(()));
    assert!(service.discover_bg.is_none());
}

#[test]
fn routing_services_share_what_is_discovered() {
    let layer: Layer<Client<()>, (), ()> =
        Layer::new(Client::new(Some(()), Duration::from_secs(1)));
    assert_eq!(layer.default_route.labels.len(), 0);
    let layer = layer.with_route_layer(phantom_data::layer::<Route<()>, Shared<u8>>());
    let stack = linkerd2_proxy::proxy::routes::Stack {
        discover: Shared::new(7u8),
        get_routes: layer.get_routes,
        route_layer: layer.route_layer,
        default_route: layer.default_route,
    };
    let name = CanonicalDstAddr {
        addr: Addr::Name(NameAddr { name: "web".to_string(), port: 80 }),
    };
    let made = stack.make(&name, |d: u8| (Shared::new(d), "background"));
    let service = match made {
        Ok(service) => service,
        Err(StackError::Discover(())) | Err(StackError::Route(())) => panic!("must be built"),
    };
    assert_eq!(service.default_route, 7);
    assert_eq!(service.discover_bg, Some("background"));
    assert_eq!(service.route_stream.unwrap().dst, "web:80");
    let socket = CanonicalDstAddr {
        addr: Addr::Socket(SocketAddr { ip: IpAddr::V4("1.2.3.4".to_string()), port: 80 }),
    };
    match stack.make(&socket, |d: u8| (Shared::new(d), ())) {
        Ok(service) => assert!(service.route_stream.is_none()),
        Err(_) => panic!("must be built"),
    }
    let bound = stack.route_layer.bind(Shared::new(1u8));
    assert_eq!(bound.make(&named("x")), Ok(1));
}
