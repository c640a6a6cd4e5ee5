use linkerd2_proxy::addr::{IpAddr, SocketAddr};
use linkerd2_proxy::poll::{Async, Poll};
use linkerd2_proxy::proxy::balance;
use linkerd2_proxy::proxy::resolve::{
    layer, Change, DiscoverError, HasEndpoint, Resolution, Resolve, Update as EndpointUpdate,
};
use linkerd2_proxy::sender::SendWith;
use linkerd2_proxy::shared_discover::{next_change, Arrival, Background, Update};
use linkerd2_proxy::stack::layer::Layer;
use linkerd2_proxy::stack::Stack;
use linkerd2_proxy::time::Duration;
use std::cell::RefCell;

fn addr(port: u16) -> SocketAddr {
    SocketAddr { ip: IpAddr::V4("10.0.0.1".to_string()), port }
}

fn copied(change: &Update) -> Update {
    match change {
        Change::Insert(key, service) => Change::Insert(*key, *service),
        Change::Remove(key) => Change::Remove(*key),
    }
}

#[test]
fn newcomers_are_told_of_everything() {
    let log: RefCell<Vec<(u8, Update)>> = RefCell::new(Vec::new());
    let mut out = SendWith::new(|tx: &u8, c: &Update| {
        log.borrow_mut().push((*tx, copied(c)));
        *tx != 9
    });
    let mut bg: Background<u8> = Background::new();
    assert!(!bg.is_done());
    assert!(bg.arrive(Arrival::Notify(1), &mut out));
    bg.change(Change::Insert(1, 10), &mut out);
    bg.change(Change::Insert(2, 20), &mut out);
    bg.change(Change::Insert(3, 30), &mut out);
    bg.change(Change::Insert(1, 11), &mut out);
    bg.change(Change::Remove(2), &mut out);
    assert_eq!(log.borrow().len(), 5);
    log.borrow_mut().clear();

    // What is told is what there is: the last entry has taken the place of the one removed.
    assert!(bg.arrive(Arrival::Notify(2), &mut out));
    assert_eq!(
        *log.borrow(),
        vec![(2, Change::Insert(1, 11)), (2, Change::Insert(3, 30))]
    );
    log.borrow_mut().clear();

    // Someone who cannot be told is not kept.
    assert!(bg.arrive(Arrival::Notify(9), &mut out));
    assert_eq!(bg.notifiers.len(), 2);
    assert_eq!(*log.borrow(), vec![(9, Change::Insert(1, 11))]);
    assert!(!bg.arrive(Arrival::NotReady, &mut out));
    assert!(bg.open);
}

#[test]
fn observers_know_what_there_is() {
    let log: RefCell<Vec<(u8, Update)>> = RefCell::new(Vec::new());
    let mut out = SendWith::new(|tx: &u8, c: &Update| {
        log.borrow_mut().push((*tx, copied(c)));
        true
    });
    let mut bg: Background<u8> = Background::new();
    bg.arrive(Arrival::Notify(1), &mut out);
    bg.change(Change::Insert(1, 10), &mut out);
    bg.change(Change::Insert(2, 20), &mut out);
    bg.arrive(Arrival::Notify(2), &mut out);
    bg.change(Change::Remove(1), &mut out);
    bg.change(Change::Insert(3, 30), &mut out);
    bg.arrive(Arrival::Notify(3), &mut out);
    bg.change(Change::Insert(2, 21), &mut out);
    for tx in 1..4 {
        let mut known: Vec<(u64, u64)> = Vec::new();
        for (to, change) in log.borrow().iter() {
            if *to == tx {
                match change {
                    Change::Insert(key, service) => {
                        known.retain(|e| e.0 != *key);
                        known.push((*key, *service));
                    }
                    Change::Remove(key) => known.retain(|e| e.0 != *key),
                }
            }
        }
        known.sort();
        assert_eq!(known, vec![(2, 21), (3, 30)]);
    }
    assert_eq!(log.borrow().len(), 13);
}

#[test]
fn sharing_fails_only_where_discovery_does() {
    let mut out = SendWith::new(|_: &u8, _: &Update| true);
    let mut bg: Background<u8> = Background::new();
    bg.arrive(Arrival::Notify(1), &mut out);
    let changed: Poll<Update, &str> = Ok(Async::Ready(Change::Insert(1, 10)));
    assert!(bg.discovered(changed, &mut out).is_none());
    let waits: Poll<Update, &str> = Ok(Async::NotReady);
    assert!(matches!(bg.discovered(waits, &mut out), Some(Ok(Async::NotReady))));
    let failed: Poll<Update, &str> = Err("lost");
    assert!(matches!(bg.discovered(failed, &mut out), Some(Err("lost"))));
    assert_eq!(bg.notifiers.len(), 1);
    assert_eq!(bg.cache.len(), 1);
}

#[test]
fn unreachable_observers_are_dropped_in_place() {
    let mut bg: Background<u8> = Background::new();
    let mut all = SendWith::new(|_: &u8, _: &Update| true);
    for tx in 0..4 {
        bg.arrive(Arrival::Notify(tx), &mut all);
    }
    bg.change(Change::Remove(7), &mut SendWith::new(|tx: &u8, _: &Update| *tx != 2));
    assert_eq!(bg.notifiers.iter().cloned().collect::<Vec<u8>>(), vec![0, 1, 3]);
    assert!(!bg.arrive(Arrival::Closed, &mut all));
    assert!(!bg.is_done());
    bg.change(Change::Insert(1, 1), &mut SendWith::new(|_: &u8, _: &Update| false));
    assert!(bg.is_done());
}

#[test]
fn observers_of_ended_tasks_wait() {
    assert!(matches!(next_change::<u8, ()>(Ok(Async::Ready(Some(1)))), Async::Ready(1)));
    assert!(matches!(next_change::<u8, ()>(Ok(Async::Ready(None))), Async::NotReady));
    assert!(matches!(next_change::<u8, ()>(Ok(Async::NotReady)), Async::NotReady));
    assert!(matches!(next_change::<u8, ()>(Err(())), Async::NotReady));
}

struct Updates(Vec<Poll<EndpointUpdate<u8>, &'static str>>);

impl Resolution for Updates {
    type Endpoint = u8;
    type Error = &'static str;

    fn polls(self, _: Poll<EndpointUpdate<u8>, &'static str>, _: Self) -> bool {
        true
    }

    fn poll(&mut self) -> Poll<EndpointUpdate<u8>, &'static str> {
        if self.0.is_empty() {
            Ok(Async::NotReady)
        } else {
            self.0.remove(0)
        }
    }
}

#[derive(Clone)]
struct Fixed;

impl Resolve<()> for Fixed {
    type Endpoint = u8;
    type Resolution = Updates;

    fn resolves(&self, _: (), _: Updates) -> bool {
        true
    }

    fn resolve(&self, _: &()) -> Updates {
        Updates(vec![
            Ok(Async::Ready(Change::Insert(addr(1), 5))),
            Ok(Async::Ready(Change::Insert(addr(2), 0))),
            Ok(Async::Ready(Change::Remove(addr(1)))),
            Err("gone"),
        ])
    }
}

/// Doubles endpoints, and refuses zero.
#[derive(Clone)]
struct Double;

impl Stack<u8> for Double {
    type Value = u16;
    type Error = &'static str;

    fn accepts(&self, _: u8) -> bool {
        true
    }

    fn makes(&self, target: u8, r: Result<u16, &'static str>) -> bool {
        self.make(&target) == r
    }

    fn make(&self, target: &u8) -> Result<u16, &'static str> {
        if *target == 0 {
            Err("zero")
        } else {
            Ok(u16::from(*target) * 2)
        }
    }
}

#[test]
fn endpoints_come_with_their_services() {
    let stack = layer::<(), Fixed>(Fixed).bind(Double);
    let mut discover = match stack.make(&()) {
        Ok(discover) => discover,
        Err(_) => panic!("must be built"),
    };
    match discover.poll() {
        Ok(Async::Ready(Change::Insert(a, svc))) => {
            assert_eq!((a, *svc.endpoint(), svc.service), (addr(1), 5, 10));
        }
        _ => panic!("must insert"),
    }
    assert!(matches!(discover.poll(), Err(DiscoverError::Stack("zero"))));
    match discover.poll() {
        Ok(Async::Ready(Change::Remove(a))) => assert_eq!(a, addr(1)),
        _ => panic!("must remove"),
    }
    assert!(matches!(discover.poll(), Err(DiscoverError::Resolve("gone"))));
    assert!(matches!(discover.poll(), Ok(Async::NotReady)));
}

#[test]
fn balancers_decay_in_ten_seconds_by_default() {
    let layer: balance::Layer<(), Fixed> = balance::Layer::new(Fixed);
    assert_eq!(layer.decay, Duration::from_secs(10));
    let layer = layer.with_decay(Duration::from_secs(3));
    let mut balanced = match layer.bind(Double).make(&()) {
        Ok(balanced) => balanced,
        Err(_) => panic!("must be built"),
    };
    assert_eq!(balanced.decay, Duration::from_secs(3));
    match balanced.discover.poll() {
        Ok(Async::Ready(Change::Insert(a, svc))) => assert_eq!((a, svc), (addr(1), 10)),
        _ => panic!("must insert"),
    }
    assert!(matches!(balanced.discover.poll(), Err(DiscoverError::Stack("zero"))));
}
