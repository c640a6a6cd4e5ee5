use linkerd2_proxy::stack::Stack;
use linkerd2_proxy::svc::watch::Make;

#[derive(Debug)]
struct Svc(usize);

impl Svc {
    fn call(&self) -> usize {
        self.0
    }
}

struct NewSvc;

impl Stack<((), usize)> for NewSvc {
    type Value = Svc;
    type Error = usize;

    fn accepts(&self, _: ((), usize)) -> bool {
        true
    }

    fn makes(&self, target: ((), usize), r: Result<Svc, usize>) -> bool {
        self.make(&target).map(|s| s.0) == r.map(|s| s.0)
    }

    fn make(&self, target: &((), usize)) -> Result<Svc, usize> {
        if target.1 == 0 {
            Err(0)
        } else {
            Ok(Svc(target.1))
        }
    }
}

#[test]
fn rebind() {
    let make = Make { inner: NewSvc };
    let mut svc = make.make(&(), &1usize).expect("ready");
    assert_eq!(svc.inner.call(), 1);
    assert_eq!(svc.inner.call(), 1);

    make.rebind(&mut svc, &2usize).expect("store");
    assert_eq!(svc.inner.call(), 2);

    make.rebind(&mut svc, &3usize).expect("store");
    make.rebind(&mut svc, &4usize).expect("store");
    assert_eq!(svc.inner.call(), 4);

    // There is no other value any more.
    assert_eq!(svc.inner.call(), 4);
}

#[test]
fn service_stays_when_it_cannot_be_rebuilt() {
    let make = Make { inner: NewSvc };
    let mut svc = make.make(&(), &5usize).expect("ready");
    assert_eq!(make.rebind(&mut svc, &0usize), Err(0));
    assert_eq!(svc.inner.call(), 5);
    assert_eq!(make.make(&(), &0usize).err(), Some(0));
}
