use http::header::{HeaderMap, HeaderValue};
use linkerd2_proxy::app::classify::{grpc_class, Class, Request, StreamError, SuccessOrFailure};
use linkerd2_proxy::app::classify::Response as ClassifyRsp;
use linkerd2_proxy::message::uri::Uri;
use linkerd2_proxy::message::{self, Extensions, Method, Response, StatusCode, Version};
use linkerd2_proxy::proxy::classify::{Classify, ClassifyEos, ClassifyResponse, ExtendRequest};
use linkerd2_proxy::proxy::profiles::{ResponseClass, ResponseMatch};

fn status(code: u16) -> StatusCode {
    StatusCode::from_u16(code).unwrap()
}

fn response(code: u16, headers: HeaderMap<HeaderValue>) -> Response<()> {
    Response { status: status(code), version: Version::Http11, headers, body: () }
}

fn request(headers: HeaderMap<HeaderValue>) -> message::Request<()> {
    message::Request {
        method: Method::new("GET"),
        uri: Uri { scheme: None, authority: None, path_and_query: None },
        version: Version::Http11,
        headers,
        extensions: Extensions::new(),
        body: (),
    }
}

fn grpc_status(n: &'static str) -> HeaderMap<HeaderValue> {
    let mut headers = HeaderMap::new();
    headers.insert("grpc-status", HeaderValue::from_static(n));
    headers
}

#[test]
fn http_response_status_ok() {
    let rsp = response(200, HeaderMap::new());
    let crsp = ClassifyRsp::default();
    let (ceos, class) = crsp.start(&rsp);
    assert_eq!(class, None);

    let class = ceos.eos(None);
    assert_eq!(class, Class::Http(SuccessOrFailure::Success, status(200)));
}

#[test]
fn http_response_status_bad_request() {
    let rsp = response(400, HeaderMap::new());
    let crsp = ClassifyRsp::default();
    let (ceos, class) = crsp.start(&rsp);
    assert_eq!(class, None);

    let class = ceos.eos(None);
    assert_eq!(class, Class::Http(SuccessOrFailure::Success, status(400)));
}

#[test]
fn http_response_status_server_error() {
    let rsp = response(500, HeaderMap::new());
    let crsp = ClassifyRsp::default();
    let (ceos, class) = crsp.start(&rsp);
    assert_eq!(class, None);

    let class = ceos.eos(None);
    assert_eq!(class, Class::Http(SuccessOrFailure::Failure, status(500)));
}

#[test]
fn grpc_response_header_ok() {
    let rsp = response(200, grpc_status("0"));
    let crsp = ClassifyRsp::Grpc;
    let (ceos, class) = crsp.start(&rsp);
    assert_eq!(class, Some(Class::Grpc(SuccessOrFailure::Success, 0)));

    let class = ceos.eos(None);
    assert_eq!(class, Class::Grpc(SuccessOrFailure::Success, 0));
}

#[test]
fn grpc_response_header_error() {
    let rsp = response(200, grpc_status("2"));
    let crsp = ClassifyRsp::Grpc;
    let (ceos, class) = crsp.start(&rsp);
    assert_eq!(class, Some(Class::Grpc(SuccessOrFailure::Failure, 2)));

    let class = ceos.eos(None);
    assert_eq!(class, Class::Grpc(SuccessOrFailure::Failure, 2));
}

#[test]
fn grpc_response_trailer_ok() {
    let rsp = response(200, HeaderMap::new());
    let crsp = ClassifyRsp::Grpc;
    let (ceos, class) = crsp.start(&rsp);
    assert_eq!(class.as_ref(), None);

    let mut trailers = HeaderMap::new();
    trailers.insert("grpc-status", 0.into());

    let class = ceos.eos(Some(&trailers));
    assert_eq!(class, Class::Grpc(SuccessOrFailure::Success, 0));
}

#[test]
fn grpc_response_trailer_error() {
    let rsp = response(200, HeaderMap::new());
    let crsp = ClassifyRsp::Grpc;
    let (ceos, class) = crsp.start(&rsp);
    assert_eq!(class.as_ref(), None);

    let mut trailers = HeaderMap::new();
    trailers.insert("grpc-status", 3.into());

    let class = ceos.eos(Some(&trailers));
    assert_eq!(class, Class::Grpc(SuccessOrFailure::Failure, 3));
}

#[test]
fn broken_streams_are_failures_with_their_message() {
    let rsp = response(200, HeaderMap::new());
    let (ceos, _) = ClassifyRsp::Grpc.start(&rsp);
    let class = ceos.error(&StreamError { message: "reset".to_string() });
    assert_eq!(class, Class::Stream(SuccessOrFailure::Failure, "reset".to_string()));
    let class = ClassifyRsp::default().error(&StreamError { message: "closed".to_string() });
    assert_eq!(class, Class::Stream(SuccessOrFailure::Failure, "closed".to_string()));
}

#[test]
fn class_told_by_headers_stands_whatever_the_trailers() {
    let rsp = response(200, grpc_status("7"));
    let (ceos, class) = ClassifyRsp::Grpc.start(&rsp);
    assert_eq!(class, Some(Class::Grpc(SuccessOrFailure::Failure, 7)));
    let class = ceos.eos(Some(&grpc_status("0")));
    assert_eq!(class, Class::Grpc(SuccessOrFailure::Failure, 7));
}

#[test]
fn trailers_do_not_tell_the_class_of_http() {
    let rsp = response(200, HeaderMap::new());
    let (ceos, _) = ClassifyRsp::default().start(&rsp);
    let class = ceos.eos(Some(&grpc_status("5")));
    assert_eq!(class, Class::Http(SuccessOrFailure::Success, status(200)));
}

#[test]
fn first_matching_class_of_the_route_counts() {
    let not_found = ResponseClass::new(
        true,
        ResponseMatch::Status { min: status(404), max: status(404) },
    );
    let server_errors = ResponseClass::new(
        false,
        ResponseMatch::Status { min: status(400), max: status(599) },
    );
    let req = Request::new(vec![not_found, server_errors]);
    let crsp = req.classify(&request(HeaderMap::new()));
    let (ceos, class) = crsp.start(&response(404, HeaderMap::new()));
    assert_eq!(class, Some(Class::Http(SuccessOrFailure::Failure, status(404))));
    assert_eq!(ceos.eos(None), Class::Http(SuccessOrFailure::Failure, status(404)));

    let crsp = req.classify(&request(HeaderMap::new()));
    let (ceos, class) = crsp.start(&response(503, HeaderMap::new()));
    assert_eq!(class, Some(Class::Http(SuccessOrFailure::Success, status(503))));
    assert_eq!(ceos.eos(None), Class::Http(SuccessOrFailure::Success, status(503)));
}

#[test]
fn grpc_requests_are_told_by_their_content_type() {
    let req = Request::new(vec![]);
    let mut headers = HeaderMap::new();
    headers.insert("content-type", HeaderValue::from_static("application/grpc+proto"));
    assert!(matches!(req.classify(&request(headers)), ClassifyRsp::Grpc));

    let mut headers = HeaderMap::new();
    headers.insert("content-type", HeaderValue::from_static("text/html"));
    assert!(matches!(req.classify(&request(headers)), ClassifyRsp::Http { .. }));
    assert!(matches!(req.classify(&request(HeaderMap::new())), ClassifyRsp::Http { .. }));
}

#[test]
fn grpc_statuses_that_are_no_numbers_tell_nothing() {
    assert_eq!(grpc_class(&grpc_status("13")), Some(Class::Grpc(SuccessOrFailure::Failure, 13)));
    assert_eq!(grpc_class(&grpc_status("+1")), Some(Class::Grpc(SuccessOrFailure::Failure, 1)));
    assert_eq!(grpc_class(&grpc_status("-1")), None);
    assert_eq!(grpc_class(&grpc_status("4294967296")), None);
    assert_eq!(
        grpc_class(&grpc_status("4294967295")),
        Some(Class::Grpc(SuccessOrFailure::Failure, 4294967295))
    );
    assert_eq!(grpc_class(&grpc_status("")), None);
    assert_eq!(grpc_class(&HeaderMap::new()), None);
}

#[test]
fn requests_carry_how_they_are_classified() {
    let service = ExtendRequest { classify: Request::new(vec![]), inner: () };
    let mut headers = HeaderMap::new();
    headers.insert("content-type", HeaderValue::from_static("application/grpc+json"));
    let mut req = request(headers);
    service.call(&mut req);
    assert!(matches!(req.extensions.classify, Some(ClassifyRsp::Grpc)));
}
