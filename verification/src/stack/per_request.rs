//! Builds a service for each request.
use crate::stack;
use std::marker::PhantomData;
use vstd::prelude::*;

verus! {

/// Makes stacks build a single-serving service for each request.
#[derive(Clone, Copy, Debug)]
pub struct Layer;

/// A stack that builds a single-serving service for each request.
pub struct Make<T, M> {
    pub inner: M,
    pub _p: PhantomData<T>,
}

impl<T, M: Clone> Clone for Make<T, M> {
    fn clone(&self) -> (r: Self)
        ensures
            cloned(self.inner, r.inner),
    {
        Make { inner: self.inner.clone(), _p: PhantomData }
    }
}

/// A service that serves each request with a service of its own.
///
/// Errors of those services are not handled, and it is expected that a service is not used
/// any more after it has failed.
pub struct Service<T, M: stack::Stack<T>> {
    /// When readiness is polled, the _next_ service to be used may be bound ahead of time.
    /// It serves only the next request.
    pub next: Option<M::Value>,
    pub make: MakeValid<T, M>,
}

/// A stack, and a target that it is known to build for.
pub struct MakeValid<T, M> {
    pub target: T,
    pub make: M,
}

impl<T: Clone, M: Clone> Clone for MakeValid<T, M> {
    fn clone(&self) -> (r: Self)
        ensures
            cloned(self.target, r.target),
            cloned(self.make, r.make),
    {
        MakeValid { target: self.target.clone(), make: self.make.clone() }
    }
}

impl<T, N> stack::layer::Layer<T, T, N> for Layer where T: Clone, N: stack::Stack<T> + Clone {
    type Value = Service<T, N>;

    type Error = N::Error;

    type Stack = Make<T, N>;

    open spec fn binds(&self, next: N, stack: Make<T, N>) -> bool {
        stack.inner == next
    }

    fn bind(&self, next: N) -> (stack: Make<T, N>) {
        Make { inner: next, _p: PhantomData }
    }
}

impl<T, N> stack::Stack<T> for Make<T, N> where T: Clone, N: stack::Stack<T> + Clone {
    type Value = Service<T, N>;

    type Error = N::Error;

    open spec fn accepts(&self, target: T) -> bool {
        self.inner.accepts(target)
    }

    open spec fn makes(&self, target: T, r: Result<Service<T, N>, N::Error>) -> bool {
        match r {
            Ok(service) => {
                &&& service.next matches Some(next)
                &&& self.inner.makes(target, Ok(next))
                &&& cloned(self.inner, service.make.make)
                &&& cloned(target, service.make.target)
            },
            Err(e) => self.inner.makes(target, Err(e)),
        }
    }

    fn make(&self, target: &T) -> (r: Result<Service<T, N>, N::Error>) {
        match self.inner.make(target) {
            Ok(next) => Ok(
                Service {
                    next: Some(next),
                    make: MakeValid { make: self.inner.clone(), target: target.clone() },
                },
            ),
            Err(e) => Err(e),
        }
    }
}

impl<T, M: stack::Stack<T>> MakeValid<T, M> {
    /// The stack builds a value for the target whenever it is asked to.
    pub open spec fn valid(self) -> bool {
        &&& self.make.accepts(self.target)
        &&& forall|r: Result<M::Value, M::Error>| #[trigger]
            self.make.makes(self.target, r) ==> r is Ok
    }

    /// Builds a value.
    pub fn make_valid(&self) -> (v: M::Value)
        requires
            self.valid(),
        ensures
            self.make.makes(self.target, Ok(v)),
    {
        match self.make.make(&self.target) {
            Ok(v) => v,
            Err(_) => vstd::pervasive::unreached(),
        }
    }
}

/// Which service to poll for readiness.
pub enum Candidate<V> {
    /// The service that is already bound.
    Bound,
    /// A new service; what came of polling it is to be reported.
    Fresh(V),
}

impl<T, M: stack::Stack<T>> Service<T, M> {
    /// Whether a service is the one that must become ready for the next request: the one that
    /// is bound, if there is one, and otherwise a new one.
    pub open spec fn offers(self, candidate: Candidate<M::Value>) -> bool {
        match candidate {
            Candidate::Bound => self.next is Some,
            Candidate::Fresh(v) => self.next is None && self.make.make.makes(
                self.make.target,
                Ok(v),
            ),
        }
    }

    /// Picks the service that must become ready for the next request, and builds one if none
    /// is bound.
    pub fn start_poll(&self) -> (r: Candidate<M::Value>)
        requires
            self.next is None ==> self.make.valid(),
        ensures
            self.offers(r),
    {
        match &self.next {
            Some(_) => Candidate::Bound,
            None => Candidate::Fresh(self.make.make_valid()),
        }
    }

    /// Whether binding a new service for the next request, unless it has failed, takes `pre` to
    /// `post`.
    pub open spec fn binds(pre: Self, service: M::Value, failed: bool, post: Self) -> bool {
        &&& post.make == pre.make
        &&& post.next == if failed {
            None
        } else {
            Some(service)
        }
    }

    /// Binds a new service for the next request, unless it has failed.
    pub fn finish_poll(&mut self, service: M::Value, failed: bool)
        requires
            old(self).next is None,
        ensures
            Self::binds(*old(self), service, failed, *final(self)),
    {
        if !failed {
            self.next = Some(service);
        }
    }

    /// Whether serving a request with `service` takes `pre` to `post`.
    pub open spec fn serves(pre: Self, service: M::Value, post: Self) -> bool {
        &&& post.make == pre.make
        &&& post.next is None
        &&& match pre.next {
            Some(next) => service == next,
            None => pre.make.make.makes(pre.make.target, Ok(service)),
        }
    }

    /// Hands out the service for a request: the one that is bound, if there is one, and
    /// otherwise a new one.
    pub fn take(&mut self) -> (service: M::Value)
        requires
            old(self).next is None ==> old(self).make.valid(),
        ensures
            Self::serves(*old(self), service, *final(self)),
    {
        match self.next.take() {
            Some(service) => service,
            None => self.make.make_valid(),
        }
    }
}

/// What happens to a service that serves each request with a service of its own.
pub enum Event<V> {
    /// The service that is bound was polled, and is `now`.
    PolledBound { now: V },
    /// A new service was built and polled, and is `now`.
    PolledFresh { built: V, now: V, failed: bool },
    /// A request was served.
    Served { service: V },
}

/// Whether an event takes `pre` to `post`.
pub open spec fn is_next<T, M: stack::Stack<T>>(
    pre: Service<T, M>,
    event: Event<M::Value>,
    post: Service<T, M>,
) -> bool {
    match event {
        Event::PolledBound { now } => {
            &&& pre.offers(Candidate::Bound)
            &&& post.make == pre.make
            &&& post.next == Some(now)
        },
        Event::PolledFresh { built, now, failed } => {
            &&& pre.offers(Candidate::Fresh(built))
            &&& Service::binds(pre, now, failed, post)
        },
        Event::Served { service } => Service::serves(pre, service, post),
    }
}

/// Whether a service that `make` builds for a target goes through `states` as events come.
pub open spec fn is_history<T: Clone, M: stack::Stack<T> + Clone>(
    make: Make<T, M>,
    target: T,
    states: Seq<Service<T, M>>,
    events: Seq<Event<M::Value>>,
) -> bool {
    &&& states.len() == events.len() + 1
    &&& stack::Stack::makes(&make, target, Ok(states[0]))
    &&& forall|i: int|
        0 <= i < events.len() ==> is_next(states[i], #[trigger] events[i], states[i + 1])
}

/// Which of the services that were built is bound after `n` events, if any. The one that was
/// built at first is number 0, and the one that the `i`th event builds is number `i + 1`.
pub open spec fn bound_after<V>(events: Seq<Event<V>>, n: int) -> Option<int>
    decreases n,
{
    if n <= 0 {
        Some(0)
    } else {
        match events[n - 1] {
            Event::PolledBound { .. } => bound_after(events, n - 1),
            Event::PolledFresh { failed, .. } => if failed {
                None
            } else {
                Some(n)
            },
            Event::Served { .. } => None,
        }
    }
}

/// Which of the services that were built serves the request of the `i`th event.
pub open spec fn served_by<V>(events: Seq<Event<V>>, i: int) -> int {
    match bound_after(events, i) {
        Some(number) => number,
        None => i + 1,
    }
}

/// Whether a service of a given number was built by the inner stack, for the target.
pub open spec fn is_built<T: Clone, M: stack::Stack<T> + Clone>(
    make: Make<T, M>,
    target: T,
    states: Seq<Service<T, M>>,
    events: Seq<Event<M::Value>>,
    number: int,
) -> bool {
    let valid = states[0].make;
    if number == 0 {
        &&& states[0].next matches Some(v)
        &&& make.inner.makes(target, Ok(v))
    } else {
        &&& 0 < number <= events.len()
        &&& cloned(make.inner, valid.make)
        &&& cloned(target, valid.target)
        &&& match events[number - 1] {
            Event::PolledBound { .. } => false,
            Event::PolledFresh { built, .. } => valid.make.makes(valid.target, Ok(built)),
            Event::Served { service } => valid.make.makes(valid.target, Ok(service)),
        }
    }
}

proof fn lemma_bound<T: Clone, M: stack::Stack<T> + Clone>(
    make: Make<T, M>,
    target: T,
    states: Seq<Service<T, M>>,
    events: Seq<Event<M::Value>>,
    n: int,
)
    requires
        is_history(make, target, states, events),
        0 <= n <= events.len(),
    ensures
        states[n].make == states[0].make,
        states[n].next is Some == bound_after(events, n) is Some,
        bound_after(events, n) matches Some(number) ==> 0 <= number <= n && is_built(
            make,
            target,
            states,
            events,
            number,
        ),
    decreases n,
{
    if n > 0 {
        lemma_bound(make, target, states, events, n - 1);
        assert(is_next(states[n - 1], events[n - 1], states[n]));
    }
}

proof fn lemma_bound_later<V>(events: Seq<Event<V>>, i: int, n: int)
    requires
        0 <= i < n <= events.len(),
        events[i] is Served,
    ensures
        bound_after(events, n) matches Some(number) ==> number > i + 1,
    decreases n,
{
    if n > i + 1 {
        lemma_bound_later(events, i, n - 1);
    }
}

/// However readiness is polled and requests are served, each request is served by a service that
/// the inner stack built for the target: the one that is bound, if there is one.
pub proof fn requests_are_served_by_the_inner_stack<T: Clone, M: stack::Stack<T> + Clone>(
    make: Make<T, M>,
    target: T,
    states: Seq<Service<T, M>>,
    events: Seq<Event<M::Value>>,
    i: int,
)
    requires
        is_history(make, target, states, events),
        0 <= i < events.len(),
        events[i] is Served,
    ensures
        is_built(make, target, states, events, served_by(events, i)),
        bound_after(events, i) is Some ==> states[i].next == Some(events[i]->service),
{
    lemma_bound(make, target, states, events, i);
    assert(is_next(states[i], events[i], states[i + 1]));
}

/// However readiness is polled and requests are served, no service serves two requests.
pub proof fn each_request_has_its_own_service<T: Clone, M: stack::Stack<T> + Clone>(
    make: Make<T, M>,
    target: T,
    states: Seq<Service<T, M>>,
    events: Seq<Event<M::Value>>,
    i: int,
    j: int,
)
    requires
        is_history(make, target, states, events),
        0 <= i < j < events.len(),
        events[i] is Served,
        events[j] is Served,
    ensures
        served_by(events, i) != served_by(events, j),
{
    lemma_bound(make, target, states, events, i);
    lemma_bound_later(events, i, j);
}

/// A service that was polled, and has not failed, serves the next request.
pub proof fn ready_services_serve_next<T: Clone, M: stack::Stack<T> + Clone>(
    make: Make<T, M>,
    target: T,
    states: Seq<Service<T, M>>,
    events: Seq<Event<M::Value>>,
    i: int,
)
    requires
        is_history(make, target, states, events),
        0 <= i < events.len() - 1,
        events[i + 1] is Served,
    ensures
        events[i] matches Event::PolledBound { now } ==> {
            &&& events[i + 1]->service == now
            &&& Some(served_by(events, i + 1)) == bound_after(events, i)
        },
        events[i] matches Event::PolledFresh { now, failed: false, .. } ==> {
            &&& events[i + 1]->service == now
            &&& served_by(events, i + 1) == i + 1
        },
{
    lemma_bound(make, target, states, events, i);
    assert(is_next(states[i], events[i], states[i + 1]));
    assert(is_next(states[i + 1], events[i + 1], states[i + 2]));
}

/// One service is built ahead of time, for the target, and a service that cannot be built is told.
pub proof fn one_service_is_built_ahead<T: Clone, N: stack::Stack<T> + Clone>(
    make: Make<T, N>,
    target: T,
    r: Result<Service<T, N>, N::Error>,
)
    requires
        call_ensures(<Make<T, N> as stack::Stack<T>>::make, (&make, &target), r),
    ensures
        r matches Ok(service) ==> service.next is Some && make.inner.makes(
            target,
            Ok(service.next->0),
        ) && cloned(target, service.make.target) && cloned(make.inner, service.make.make),
        r matches Err(e) ==> make.inner.makes(target, Err(e)),
{
}

/// A request is served with the service that is bound, if one is, and with a new one otherwise.
/// Either way none is bound after it, so that the next request is not served with it.
pub proof fn served_services_are_given_up<T, M: stack::Stack<T>>(
    service: &mut Service<T, M>,
    r: M::Value,
)
    requires
        call_ensures(Service::<T, M>::take, (service,), r),
    ensures
        final(service).next is None,
        final(service).make == old(service).make,
        old(service).next matches Some(next) ==> r == next,
        old(service).next is None ==> old(service).make.make.makes(
            old(service).make.target,
            Ok(r),
        ),
{
}

/// The service that is bound is polled, if one is, and a new one otherwise. A new one is bound for
/// the next request exactly if it did not fail.
pub proof fn failed_services_are_not_bound<T, M: stack::Stack<T>>(
    service: Service<T, M>,
    candidate: Candidate<M::Value>,
    after: &mut Service<T, M>,
    fresh: M::Value,
    failed: bool,
)
    requires
        call_ensures(Service::<T, M>::start_poll, (&service,), candidate),
        call_ensures(Service::<T, M>::finish_poll, (after, fresh, failed), ()),
    ensures
        candidate is Bound <==> service.next is Some,
        candidate matches Candidate::Fresh(v) ==> service.make.make.makes(
            service.make.target,
            Ok(v),
        ),
        failed ==> final(after).next is None,
        !failed ==> final(after).next == Some(fresh),
        final(after).make == old(after).make,
{
}

} // verus!
