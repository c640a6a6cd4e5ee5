use http::header::HeaderMap;
use linkerd2_proxy::message::headers::fits_header;
use linkerd2_proxy::message::uri::Uri;
use linkerd2_proxy::message::{Extensions, Method, Request, Response, StatusCode, Version};
use linkerd2_proxy::poll::Async;
use linkerd2_proxy::sender::SendWith;
use linkerd2_proxy::tap::daemon::{
    Daemon, REGISTER_BUFFER_CAPACITY, REGISTER_TAPS_BUFFER_CAPACITY, TAP_BUFFER_CAPACITY,
};
use linkerd2_proxy::tap::grpc::{next_event, observe, Claim, PER_REQUEST_BUFFER_CAPACITY};
use linkerd2_proxy::tap::service::{fail_response, respond, Body, Service, StreamStats, Tell};
use std::cell::RefCell;
use std::collections::VecDeque;
use std::time::Instant;

fn contents<T: Copy>(deque: &VecDeque<T>) -> Vec<T> {
    deque.iter().cloned().collect()
}

fn request() -> Request<u8> {
    Request {
        method: Method::new("GET"),
        uri: Uri { scheme: None, authority: None, path_and_query: None },
        version: Version::Http11,
        headers: HeaderMap::new(),
        extensions: Extensions::new(),
        body: 42,
    }
}

#[test]
fn services_and_taps_are_connected() {
    let sent = RefCell::new(Vec::new());
    let mut out = SendWith::new(|svc: &u32, tap: &u32| {
        sent.borrow_mut().push((*svc, *tap));
        *svc < 100
    });
    let live = |tap: &u32| *tap % 2 == 0;
    let mut daemon: Daemon<u32, u32> = Daemon::new();
    let polled = daemon.poll(vec![1, 2, 3], vec![10, 11, 12], &live, &mut out);
    assert!(matches!(polled, Async::NotReady));
    assert_eq!(contents(&daemon.svcs), vec![1, 2, 3]);
    assert_eq!(contents(&daemon.taps), vec![10, 12]);
    assert_eq!(*sent.borrow(), vec![(3, 10), (2, 10), (1, 10), (3, 12), (2, 12), (1, 12)]);

    // A service that comes late is told of all taps, and stays if that succeeds.
    sent.borrow_mut().clear();
    daemon.poll(vec![4, 100], vec![], &live, &mut out);
    assert_eq!(*sent.borrow(), vec![(4, 10), (4, 12), (100, 10)]);
    assert_eq!(contents(&daemon.svcs), vec![1, 2, 3, 4]);
}

#[test]
fn services_are_told_of_each_tap_once() {
    let sent = RefCell::new(Vec::new());
    let mut out = SendWith::new(|svc: &u32, tap: &u32| {
        sent.borrow_mut().push((*svc, *tap));
        !(*svc == 2 && *tap == 11)
    });
    let mut daemon: Daemon<u32, u32> = Daemon::new();
    daemon.poll(vec![1, 2], vec![10], &|_: &u32| true, &mut out);
    daemon.poll(vec![3], vec![11], &|_: &u32| true, &mut out);
    // Taps that have ended are sent to nobody.
    daemon.poll(vec![4], vec![12, 13], &|tap: &u32| *tap != 10 && *tap != 12, &mut out);
    daemon.poll(vec![], vec![], &|tap: &u32| *tap != 10, &mut out);
    assert_eq!(contents(&daemon.svcs), vec![1, 3, 4]);
    assert_eq!(contents(&daemon.taps), vec![11, 13]);
    for svc in contents(&daemon.svcs) {
        for tap in contents(&daemon.taps) {
            let told = sent.borrow().iter().filter(|told| **told == (svc, tap)).count();
            assert_eq!(told, 1);
        }
    }
    assert!(sent.borrow().iter().all(|(_, tap)| *tap != 12));
    assert_eq!(sent.borrow().len(), 10);
}

#[test]
fn unreachable_services_are_replaced_with_the_last() {
    let mut daemon: Daemon<u32, u32> = Daemon::new();
    let mut yes = SendWith::new(|_: &u32, _: &u32| true);
    for svc in 0..5 {
        daemon.register(svc, &mut yes);
    }
    let mut out = SendWith::new(|svc: &u32, _: &u32| *svc != 1 && *svc != 4);
    daemon.subscribe(7, true, &mut out);
    assert_eq!(contents(&daemon.svcs), vec![0, 3, 2]);
    assert_eq!(contents(&daemon.taps), vec![7]);
    daemon.subscribe(8, false, &mut out);
    assert_eq!(contents(&daemon.taps), vec![7]);
    daemon.drop_inactive(&|tap: &u32| *tap != 7);
    assert!(daemon.taps.is_empty());
}

#[test]
fn buffers_have_their_sizes() {
    assert_eq!(REGISTER_BUFFER_CAPACITY, 16);
    assert_eq!(TAP_BUFFER_CAPACITY, 16);
    assert_eq!(REGISTER_TAPS_BUFFER_CAPACITY, 16);
    assert_eq!(PER_REQUEST_BUFFER_CAPACITY, 40);
}

#[test]
fn taps_are_opened_or_refused() {
    let tap = observe(3, Ok("match")).unwrap();
    assert_eq!((tap.match_, tap.remaining), ("match", 3));
    assert_eq!(observe(0, Ok(())).unwrap_err().message, "limit must be positive");
    assert_eq!(
        observe::<()>(0, Err("bad".to_string())).unwrap_err().message,
        "limit must be positive"
    );
    assert_eq!(observe::<()>(1, Err("no such ip".to_string())).unwrap_err().message, "no such ip");
    assert_eq!(observe::<()>(1, Err("two\nlines".to_string())).unwrap_err().message, "invalid message");
    assert!(fits_header("tab\tand \u{e9}"));
    assert!(!fits_header("\u{7f}"));
}

#[test]
fn claims_count_down_to_the_limit() {
    let mut remaining = 2usize;
    let mut tapped = 0;
    for _ in 0..5 {
        let mut claim = Claim::start(true);
        loop {
            claim = match claim {
                Claim::Load => Claim::loaded(remaining),
                Claim::Swap { from, to } => {
                    let found = remaining;
                    if found == from {
                        remaining = to;
                    }
                    Claim::swapped(from, found)
                }
                Claim::Emit => {
                    tapped += 1;
                    break;
                }
                Claim::Skip => break,
            };
        }
    }
    assert_eq!((tapped, remaining), (2, 0));
    assert_eq!(Claim::start(false), Claim::Skip);
    assert_eq!(Claim::loaded(3), Claim::Swap { from: 3, to: 2 });
    assert_eq!(Claim::swapped(3, 2), Claim::Load);
}

#[test]
fn streams_of_events_end_when_their_channel_fails() {
    assert!(matches!(next_event::<u8>(Err(())), Async::Ready(None)));
    assert!(matches!(next_event(Ok(Async::Ready(Some(1)))), Async::Ready(Some(1))));
    assert!(matches!(next_event::<u8>(Ok(Async::NotReady)), Async::NotReady));
}

#[test]
fn requests_are_offered_to_everyone_who_taps() {
    let mut service: Service<&str, u32, ()> = Service::new((), "inspect");
    for s in 1..5 {
        service.subscribe(s);
    }
    service.drop_inactive(&|s: &u32| *s != 2);
    assert_eq!(contents(&service.subscriptions), vec![1, 3, 4]);
    let (req, rsp_taps) = service.call(request(), &|s: &u32, req: &Request<u8>, i: &&str| {
        assert_eq!((req.body, *i), (42, "inspect"));
        if *s == 3 {
            None
        } else {
            Some((*s * 10, *s * 100))
        }
    });
    assert_eq!(req.body.inner, 42);
    assert_eq!(contents(&req.body.taps), vec![10, 40]);
    assert_eq!(contents(&rsp_taps), vec![100, 400]);
    let rsp = Response {
        status: StatusCode::from_u16(200).unwrap(),
        version: Version::Http11,
        headers: HeaderMap::new(),
        body: "body",
    };
    let rsp = respond(rsp_taps, rsp, &|t: u32, rsp: &Response<&str>| {
        t + u32::from(rsp.status.as_u16())
    });
    assert_eq!(contents(&rsp.body.taps), vec![300, 600]);
    assert_eq!(rsp.body.inner, "body");
    let mut failed: VecDeque<u8> = vec![1, 2].into_iter().collect();
    assert_eq!(contents(&fail_response(&mut failed)), vec![1, 2]);
    assert!(failed.is_empty());
}

#[test]
fn taps_are_told_of_the_end_once() {
    let mut body: Body<(), u8> = Body::new(());
    body.taps.push_back(1);
    body.taps.push_back(2);
    assert!(matches!(body.poll_data::<(), ()>(&Ok(Async::NotReady)), Tell::Nothing));
    assert!(matches!(body.poll_data::<(), ()>(&Ok(Async::Ready(Some(())))), Tell::Data));
    assert!(matches!(body.poll_data::<(), ()>(&Ok(Async::Ready(None))), Tell::Nothing));
    match body.poll_trailers::<(), ()>(&Ok(Async::Ready(None))) {
        Tell::Eos(taps) => assert_eq!(contents(&taps), vec![1, 2]),
        _ => panic!("must end"),
    }
    match body.finish() {
        Tell::Eos(taps) => assert!(taps.is_empty()),
        _ => panic!("must end"),
    }
    let mut body: Body<(), u8> = Body::new(());
    body.taps.push_back(3);
    match body.poll_data::<(), ()>(&Err(())) {
        Tell::Fail(taps) => assert_eq!(contents(&taps), vec![3]),
        _ => panic!("must fail"),
    }
    match body.poll_trailers::<(), ()>(&Err(())) {
        Tell::Fail(taps) => assert!(taps.is_empty()),
        _ => panic!("must fail"),
    }
}

#[test]
fn frames_are_counted() {
    let start = Instant::now();
    let mut stats = StreamStats {
        request_open_at: start,
        response_first_frame_at: None,
        byte_count: 0,
        frame_count: 0,
        open: true,
    };
    stats.frame(None, start);
    assert_eq!((stats.frame_count, stats.response_first_frame_at), (0, Some(start)));
    let later = Instant::now();
    stats.frame(Some(7), later);
    stats.frame(Some(5), later);
    assert_eq!((stats.frame_count, stats.byte_count), (2, 12));
    assert_eq!(stats.response_first_frame_at, Some(start));
    let end = stats.tap_eos(later).unwrap();
    assert_eq!((end.request_open_at, end.request_end_at), (start, later));
    assert!(stats.tap_eos(later).is_none());
}
