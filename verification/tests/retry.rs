use http::header::{HeaderMap, HeaderValue};
use linkerd2_proxy::app::classify::Response as ClassifyRsp;
use linkerd2_proxy::message::uri::{PathAndQuery, Uri};
use linkerd2_proxy::message::{Extensions, Method, Request, Response, StatusCode, Version};
use linkerd2_proxy::poll::Async;
use linkerd2_proxy::proxy::retry::{
    layer, CanRetry, Decision, NoRetry, Policy, Retry, Scoped, Service, TryClone,
};
use linkerd2_proxy::proxy::router::{
    self, respond, route_err_to_5xx, Config, RouteError,
};
use linkerd2_proxy::stack::either::Either;
use linkerd2_proxy::stack::layer::Layer;
use linkerd2_proxy::stack::Stack;
use linkerd2_proxy::svc::Shared;
use linkerd2_proxy::time::Duration;
use std::time::Instant;

#[derive(Debug, PartialEq)]
struct Body(Option<u8>);

impl TryClone for Body {
    fn clones(self, r: Option<Self>) -> bool {
        self.try_clone() == r
    }

    fn try_clone(&self) -> Option<Self> {
        self.0.map(|b| Body(Some(b)))
    }
}

/// Retries server errors, but for 503 (no budget) and 504 (no time).
#[derive(Clone)]
struct ServerErrors;

impl Retry for ServerErrors {
    fn decides(
        self,
        _: Instant,
        _: StatusCode,
        _: Version,
        _: HeaderMap<HeaderValue>,
        _: Result<(), NoRetry>,
    ) -> bool {
        true
    }

    fn retry<B>(&self, _: Instant, res: &Response<B>) -> Result<(), NoRetry> {
        match res.status.as_u16() {
            503 => Err(NoRetry::Budget),
            504 => Err(NoRetry::Timeout),
            n if n >= 500 => Ok(()),
            _ => Err(NoRetry::Success),
        }
    }
}

#[derive(Clone)]
struct Target(bool);

impl CanRetry for Target {
    type Retry = ServerErrors;

    fn retries(self, r: Option<ServerErrors>) -> bool {
        self.0 == r.is_some()
    }

    fn can_retry(&self) -> Option<ServerErrors> {
        if self.0 {
            Some(ServerErrors)
        } else {
            None
        }
    }
}

struct Key(bool);

impl From<Target> for Key {
    fn from(t: Target) -> Self {
        Key(t.0)
    }
}

#[derive(Clone)]
struct Registry;

impl Scoped<Key> for Registry {
    type Scope = bool;

    fn scopes(self, key: Key, scope: bool) -> bool {
        key.0 == scope
    }

    fn scoped(&self, key: Key) -> bool {
        key.0
    }
}

fn request(body: Option<u8>) -> Request<Body> {
    let mut headers = HeaderMap::new();
    headers.append("x", HeaderValue::from_static("1"));
    headers.append("x", HeaderValue::from_static("2"));
    Request {
        method: Method::new("PUT"),
        uri: Uri {
            scheme: None,
            authority: None,
            path_and_query: Some(PathAndQuery { path: "/p".to_string(), query: Some("q".to_string()) }),
        },
        version: Version::Http2,
        headers,
        extensions: Extensions::new(),
        body: Body(body),
    }
}

fn response(code: u16) -> Response<()> {
    Response {
        status: StatusCode::from_u16(code).unwrap(),
        version: Version::Http11,
        headers: HeaderMap::new(),
        body: (),
    }
}

#[test]
fn only_marked_and_answered_requests_are_retried() {
    let policy = Policy { retry: ServerErrors, stats: () };
    let mut req = request(Some(1));
    assert_eq!(policy.retry::<_, _, ()>(&req, Ok(&response(500))), Decision::Done);
    let service = Service { policy: Policy { retry: ServerErrors, stats: () }, inner: () };
    let now = Instant::now();
    service.call(&mut req, now);
    assert_eq!(req.extensions.first_request_started_at, Some(now));
    assert_eq!(policy.retry::<_, _, ()>(&req, Ok(&response(500))), Decision::Retry);
    assert_eq!(policy.retry::<_, _, ()>(&req, Ok(&response(503))), Decision::SkippedBudget);
    assert_eq!(policy.retry::<_, _, ()>(&req, Ok(&response(504))), Decision::SkippedTimeout);
    assert_eq!(policy.retry::<_, _, ()>(&req, Ok(&response(200))), Decision::Done);
    assert_eq!(policy.retry::<_, (), _>(&req, Err(&"reset")), Decision::Done);
}

#[test]
fn requests_are_cloned_with_their_notes() {
    let policy = Policy { retry: ServerErrors, stats: () };
    let mut req = request(Some(9));
    let now = Instant::now();
    req.extensions.first_request_started_at = Some(now);
    req.extensions.classify = Some(ClassifyRsp::Grpc);
    let clone = policy.clone_request(&req).unwrap();
    assert_eq!(clone.method.token, "PUT");
    assert_eq!(clone.uri, req.uri);
    assert_eq!(clone.version, Version::Http11);
    assert_eq!(clone.headers.get_all("x").iter().count(), 2);
    assert_eq!(clone.body, Body(Some(9)));
    assert_eq!(clone.extensions.first_request_started_at, Some(now));
    assert!(matches!(clone.extensions.classify, Some(ClassifyRsp::Grpc)));
    assert!(policy.clone_request(&request(None)).is_none());
}

#[test]
fn only_retryable_targets_are_wrapped() {
    let retrying = layer::<Registry, Key>(Registry);
    let stack = Layer::<Target, Target, Shared<u8>>::bind(&retrying, Shared::new(5));
    match stack.make(&Target(true)) {
        Ok(Either::A(service)) => {
            assert_eq!(service.inner, 5);
            assert!(service.policy.stats);
        }
        _ => panic!("must retry"),
    }
    assert!(matches!(stack.make(&Target(false)), Ok(Either::B(5))));
}

#[test]
fn routing_errors_become_responses() {
    assert_eq!(route_err_to_5xx::<(), ()>(&RouteError::Inner(())).as_u16(), 500);
    assert_eq!(route_err_to_5xx::<(), ()>(&RouteError::Route(())).as_u16(), 500);
    assert_eq!(route_err_to_5xx::<(), ()>(&RouteError::NotRecognized).as_u16(), 500);
    assert_eq!(route_err_to_5xx::<(), ()>(&RouteError::NoCapacity(3)).as_u16(), 503);
    match respond::<Vec<u8>, (), ()>(Err(RouteError::NoCapacity(1))) {
        Async::Ready(rsp) => {
            assert_eq!(rsp.status.as_u16(), 503);
            assert_eq!(rsp.version, Version::Http11);
            assert_eq!(rsp.headers.get("content-length").unwrap(), "0");
            assert_eq!(rsp.headers.len(), 1);
            assert!(rsp.body.is_empty());
        }
        Async::NotReady => panic!("must respond"),
    }
    assert!(matches!(respond::<(), (), ()>(Ok(Async::NotReady)), Async::NotReady));
    match respond::<(), (), ()>(Ok(Async::Ready(response(201)))) {
        Async::Ready(rsp) => assert_eq!(rsp.status.as_u16(), 201),
        Async::NotReady => panic!("must respond"),
    }
}

#[test]
fn routers_are_built_from_their_configuration() {
    let config = Config::new("recognize", 10, Duration::from_secs(60)).clone();
    let make = Layer::<Config<&str>, (), Shared<u8>>::bind(&router::Layer::new(), Shared::new(1));
    let service = make.make(&config).unwrap();
    assert_eq!(service.recognize, "recognize");
    assert_eq!(service.capacity, 10);
    assert_eq!(service.max_idle_age, Duration::from_secs(60));
    assert_eq!(service.make.value, 1);
}
