use http::header::{HeaderMap, HeaderValue};
use linkerd2_proxy::app::classify::{self, Class, StreamError, SuccessOrFailure};
use linkerd2_proxy::message::uri::Uri;
use linkerd2_proxy::message::{Extensions, Method, Request, Response, StatusCode, Version};
use linkerd2_proxy::poll::Async;
use linkerd2_proxy::proxy::metrics::{
    Line, Make, Measure, Metric, Metrics, Record, Registry, Value,
};
use linkerd2_proxy::svc::Shared;
use linkerd2_proxy::time::Span;
use std::time::{Duration, Instant};

fn request(classify: Option<classify::Response>) -> Request<()> {
    let mut extensions = Extensions::new();
    extensions.classify = classify;
    Request {
        method: Method::new("GET"),
        uri: Uri { scheme: None, authority: None, path_and_query: None },
        version: Version::Http11,
        headers: HeaderMap::new(),
        extensions,
        body: (),
    }
}

fn response(code: u16) -> Response<()> {
    Response {
        status: StatusCode::from_u16(code).unwrap(),
        version: Version::Http11,
        headers: HeaderMap::new(),
        body: (),
    }
}

fn span(from: Instant, millis: u64) -> Span {
    Span { from, to: from + Duration::from_millis(millis) }
}

#[test]
fn targets_keep_their_metrics() {
    let mut registry = Registry::default();
    assert_eq!(registry.metrics_for(7), 0);
    assert_eq!(registry.metrics_for(8), 1);
    assert_eq!(registry.metrics_for(7), 0);
    assert_eq!(registry.by_target.len(), 2);
    assert_eq!(registry.metrics.len(), 2);
    registry.count_request(1);
    assert_eq!((registry.metrics[0].total, registry.metrics[1].total), (0, 1));
}

#[test]
fn responses_are_counted_by_class() {
    let start = Instant::now();
    let mut metrics = Metrics::default();
    metrics.count_request();
    metrics.count_response(Some(3), span(start, 1));
    metrics.count_response(Some(4), span(start, 2));
    metrics.count_response(Some(3), span(start, 3));
    metrics.count_response(None, span(start, 4));
    assert_eq!(metrics.total, 1);
    assert_eq!((metrics.by_class.get(&3), metrics.by_class.get(&4)), (Some(&0), Some(&1)));
    assert_eq!(metrics.class_metrics.len(), 2);
    assert_eq!(metrics.class_metrics[0].total, 2);
    assert_eq!(metrics.class_metrics[0].latency, vec![span(start, 1), span(start, 3)]);
    assert_eq!(metrics.class_metrics[1].total, 1);
    assert_eq!(metrics.class_metrics[1].latency, vec![span(start, 2)]);
    assert_eq!(metrics.unclassified.total, 1);
    assert_eq!(metrics.unclassified.latency, vec![span(start, 4)]);
}

#[test]
fn requests_are_counted_when_first_read() {
    let make = Make { inner: Shared::new("service") };
    let measure: Measure<&str, u8> = make.make_service(&(), |_: &()| Some(1u8)).unwrap();
    assert_eq!((measure.inner, measure.metrics), ("service", Some(1)));
    let (mut req, pending) = measure.call(request(None), Instant::now());
    assert_eq!(pending.metrics, Some(1));
    assert_eq!(req.body.poll_data::<(), ()>(&Ok(Async::NotReady)), None);
    assert_eq!(req.body.poll_data::<(), ()>(&Err(())), None);
    assert_eq!(req.body.poll_data::<(), ()>(&Ok(Async::Ready(()))), Some(1));
    assert_eq!(req.body.poll_data::<(), ()>(&Ok(Async::Ready(()))), None);
}

#[test]
fn responses_are_recorded_once() {
    let start = Instant::now();
    let measure = Measure { metrics: Some(1u8), inner: () };
    let (_, pending) = measure.call(request(Some(classify::Response::Grpc)), start);
    let mut body = pending.start(&response(200));
    assert!(body.poll_data::<()>(&Ok(Async::NotReady), false, start).is_none());
    let later = Instant::now();
    assert!(body.poll_data(&Ok(Async::Ready(())), false, later).is_none());
    let mut trailers = HeaderMap::new();
    trailers.insert("grpc-status", HeaderValue::from_static("4"));
    let end = later + Duration::from_millis(5);
    let record = body.poll_trailers(Ok(Async::Ready(Some(&trailers))), end).unwrap();
    assert_eq!(record.class, Some(Class::Grpc(SuccessOrFailure::Failure, 4)));
    assert_eq!(record.metrics, 1);
    // The latency ends when the stream does, however early its first frame came.
    assert_eq!(record.latency(), Span { from: start, to: end });
    assert!(body.finish(end).is_none());
    assert!(body.measure_err(&StreamError { message: "late".to_string() }, end).is_none());
}

#[test]
fn each_response_is_counted_once() {
    let start = Instant::now();
    let mut registry = Registry::default();
    registry.metrics_for(3);
    let measure = Measure { metrics: Some(registry.metrics_for(4)), inner: () };
    let (_, pending) = measure.call(request(Some(classify::Response::Grpc)), start);
    let mut body = pending.start(&response(200));
    let end = start + Duration::from_millis(9);
    let late = end + Duration::from_millis(1);
    let records = vec![
        body.poll_data(&Ok(Async::Ready(())), false, start),
        body.poll_data(&Ok(Async::Ready(())), true, end),
        body.poll_trailers(Ok(Async::Ready(None)), late),
        body.measure_err(&StreamError { message: "late".to_string() }, late),
        body.finish(late),
    ];
    for record in records.into_iter().flatten() {
        let Record { metrics, class, stream_open_at, completed_at } = record;
        let class = class.map(|_| 17);
        registry.count_record(&Record { metrics, class, stream_open_at, completed_at });
    }
    assert!(registry.metrics[0].by_class.is_empty());
    let metrics = &registry.metrics[1];
    assert_eq!(metrics.by_class.get(&17), Some(&0));
    assert_eq!(metrics.class_metrics.len(), 1);
    assert_eq!(metrics.class_metrics[0].total, 1);
    assert_eq!(metrics.class_metrics[0].latency, vec![span(start, 9)]);
    assert_eq!(metrics.unclassified.total, 0);
    assert!(metrics.unclassified.latency.is_empty());
}

#[test]
fn ends_failures_and_drops_are_classified() {
    let start = Instant::now();
    let open = |classify: Option<classify::Response>, code: u16| {
        let measure = Measure { metrics: Some(()), inner: () };
        let (_, pending) = measure.call(request(classify), start);
        pending.start(&response(code))
    };
    let http = || Some(classify::Response::default());
    let mut body = open(http(), 500);
    let record = body.poll_data(&Ok(Async::Ready(())), true, start).unwrap();
    assert!(matches!(record.class, Some(Class::Http(SuccessOrFailure::Failure, _))));
    let mut body = open(http(), 200);
    let err: Result<Async<()>, StreamError> = Err(StreamError { message: "reset".to_string() });
    let record = body.poll_data(&err, false, start).unwrap();
    assert_eq!(record.class, Some(Class::Stream(SuccessOrFailure::Failure, "reset".to_string())));
    let mut body = open(http(), 200);
    let end = start + Duration::from_millis(7);
    let record = body.finish(end).unwrap();
    assert!(matches!(record.class, Some(Class::Http(SuccessOrFailure::Success, _))));
    assert_eq!(record.latency(), span(start, 7));
    let mut body = open(None, 200);
    assert_eq!(body.finish(end).unwrap().class, None);
}

#[test]
fn reports_list_metrics_in_order() {
    let start = Instant::now();
    let mut registry = Registry::default();
    assert!(registry.fmt_metrics().is_empty());
    let two = registry.metrics_for(2);
    let one = registry.metrics_for(1);
    registry.count_request(two);
    registry.count_request(one);
    registry.count_request(two);
    registry.count_response(two, Some(6), span(start, 1));
    registry.count_response(two, Some(5), span(start, 2));
    registry.count_response(two, Some(6), span(start, 3));
    registry.count_response(one, None, span(start, 4));
    let (none, six) = (vec![], vec![span(start, 1), span(start, 3)]);
    let (five, unclassified) = (vec![span(start, 2)], vec![span(start, 4)]);
    assert_eq!(
        registry.fmt_metrics(),
        vec![
            Line::Help(Metric::RequestTotal),
            Line::Target(Metric::RequestTotal, 2, Value::Count(2)),
            Line::Target(Metric::RequestTotal, 1, Value::Count(1)),
            Line::Help(Metric::ResponseTotal),
            Line::Class(Metric::ResponseTotal, 2, 6, Value::Count(2)),
            Line::Class(Metric::ResponseTotal, 2, 5, Value::Count(1)),
            Line::Target(Metric::ResponseTotal, 2, Value::Count(0)),
            Line::Target(Metric::ResponseTotal, 1, Value::Count(1)),
            Line::Help(Metric::ResponseLatencyMs),
            Line::Class(Metric::ResponseLatencyMs, 2, 6, Value::Latency(&six)),
            Line::Class(Metric::ResponseLatencyMs, 2, 5, Value::Latency(&five)),
            Line::Target(Metric::ResponseLatencyMs, 2, Value::Latency(&none)),
            Line::Target(Metric::ResponseLatencyMs, 1, Value::Latency(&unclassified)),
        ]
    );
}
