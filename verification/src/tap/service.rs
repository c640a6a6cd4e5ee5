//! Records the requests that a service handles.
//!
//! Whoever taps a service is told of each request, of the frames of its body and of its end,
//! and likewise of the response. Taps themselves are opaque here: the caller hands in how they
//! are opened, and tells them what it is asked to.
use crate::message::{Request, Response};
use crate::poll::{Async, Poll};
use crate::stack;
use crate::tap::daemon::retain_live;
use crate::tap::event::StreamRequestEnd;
use std::collections::VecDeque;
use std::marker::PhantomData;
use std::time::Instant;
use vstd::prelude::*;

verus! {

/// Wraps services to record taps.
#[derive(Debug)]
pub struct Layer<S> {
    pub _p: PhantomData<S>,
}

impl<S> Clone for Layer<S> {
    fn clone(&self) -> (r: Self)
        ensures
            r == *self,
    {
        Layer { _p: PhantomData }
    }
}

/// A stack whose services record taps.
#[derive(Debug)]
pub struct Stack<M, S> {
    pub inner: M,
    pub _p: PhantomData<S>,
}

impl<M: Clone, S> Clone for Stack<M, S> {
    fn clone(&self) -> (r: Self)
        ensures
            cloned(self.inner, r.inner),
    {
        Stack { inner: self.inner.clone(), _p: PhantomData }
    }
}

/// A service that records taps.
pub struct Service<I, S, V> {
    /// Who taps the service.
    pub subscriptions: VecDeque<S>,
    pub inner: V,
    /// What the service is for.
    pub inspect: I,
}

/// A body whose frames are recorded.
pub struct Body<B, T> {
    pub inner: B,
    pub taps: VecDeque<T>,
}

/// What taps are to be told. Those that are handed out are not told anything more.
pub enum Tell<T> {
    Nothing,
    /// All are told of a frame.
    Data,
    /// These are told of the end of the stream.
    Eos(VecDeque<T>),
    /// These are told of a failure.
    Fail(VecDeque<T>),
}

impl<T: Clone, S, M: stack::Stack<T>> stack::layer::Layer<T, T, M> for Layer<S> {
    type Value = Service<T, S, M::Value>;

    type Error = M::Error;

    type Stack = Stack<M, S>;

    open spec fn binds(&self, next: M, stack: Stack<M, S>) -> bool {
        stack.inner == next
    }

    fn bind(&self, next: M) -> (stack: Stack<M, S>) {
        Stack { inner: next, _p: PhantomData }
    }
}

impl<T: Clone, S, M: stack::Stack<T>> stack::Stack<T> for Stack<M, S> {
    type Value = Service<T, S, M::Value>;

    type Error = M::Error;

    open spec fn accepts(&self, target: T) -> bool {
        self.inner.accepts(target)
    }

    open spec fn makes(&self, target: T, r: Result<Self::Value, M::Error>) -> bool {
        match r {
            Ok(service) => {
                &&& self.inner.makes(target, Ok(service.inner))
                &&& cloned(target, service.inspect)
                &&& service.subscriptions@.len() == 0
            },
            Err(e) => self.inner.makes(target, Err(e)),
        }
    }

    fn make(&self, target: &T) -> (r: Result<Self::Value, M::Error>) {
        match self.inner.make(target) {
            Ok(inner) => Ok(Service::new(inner, target.clone())),
            Err(e) => Err(e),
        }
    }
}

/// The taps that were opened for requests and for responses, in order.
pub open spec fn opened<Q, P>(outcomes: Seq<Option<(Q, P)>>) -> (Seq<Q>, Seq<P>)
    decreases outcomes.len(),
{
    if outcomes.len() == 0 {
        (Seq::empty(), Seq::empty())
    } else {
        let (requests, responses) = opened(outcomes.drop_last());
        match outcomes.last() {
            Some((q, p)) => (requests.push(q), responses.push(p)),
            None => (requests, responses),
        }
    }
}

/// Whether `outcomes` may be what comes of offering a request to each subscription.
pub open spec fn offers<S, A, I, Q, P, F: Fn(&S, &Request<A>, &I) -> Option<(Q, P)>>(
    tap: F,
    subscriptions: Seq<S>,
    req: Request<A>,
    inspect: I,
    outcomes: Seq<Option<(Q, P)>>,
) -> bool {
    &&& outcomes.len() == subscriptions.len()
    &&& forall|i: int|
        0 <= i < subscriptions.len() ==> call_ensures(
            tap,
            (&subscriptions[i], &req, &inspect),
            #[trigger] outcomes[i],
        )
}

/// Whether a request with taps is the original one.
pub open spec fn is_same_request<A, Q>(req: Request<A>, new: Request<Body<A, Q>>) -> bool {
    &&& new.method == req.method
    &&& new.uri == req.uri
    &&& new.version == req.version
    &&& new.headers == req.headers
    &&& new.extensions == req.extensions
    &&& new.body.inner == req.body
}

impl<I, S, V> Service<I, S, V> {
    /// A service that nobody taps yet.
    pub fn new(inner: V, inspect: I) -> (s: Self)
        ensures
            s.inner == inner,
            s.inspect == inspect,
            s.subscriptions@.len() == 0,
    {
        Service { subscriptions: VecDeque::new(), inner, inspect }
    }

    /// Someone has begun to tap the service.
    pub fn subscribe(&mut self, subscription: S)
        ensures
            final(self).subscriptions@ == old(self).subscriptions@.push(subscription),
            final(self).inner == old(self).inner,
            final(self).inspect == old(self).inspect,
    {
        self.subscriptions.push_back(subscription);
    }

    /// Forgets those who do not tap the service any more.
    pub fn drop_inactive<L: Fn(&S) -> bool>(&mut self, is_live: &L)
        requires
            forall|s: S| #[trigger] call_requires(*is_live, (&s,)),
        ensures
            crate::tap::daemon::is_retained(
                *is_live,
                old(self).subscriptions@,
                final(self).subscriptions@,
            ),
            final(self).inner == old(self).inner,
            final(self).inspect == old(self).inspect,
    {
        retain_live(&mut self.subscriptions, is_live);
    }

    /// Offers a request to everyone who taps the service. Those who take it are told of its
    /// body, and of the response.
    pub fn call<A, Q, P, F: Fn(&S, &Request<A>, &I) -> Option<(Q, P)>>(
        &self,
        req: Request<A>,
        tap: &F,
    ) -> (r: (Request<Body<A, Q>>, VecDeque<P>))
        requires
            forall|s: S| #[trigger] call_requires(*tap, (&s, &req, &self.inspect)),
        ensures
            is_same_request(req, r.0),
            exists|outcomes: Seq<Option<(Q, P)>>| #[trigger]
                offers(*tap, self.subscriptions@, req, self.inspect, outcomes) && (
                r.0.body.taps@,
                r.1@,
                ) == opened(outcomes),
    {
        let ghost all = self.subscriptions@;
        let ghost mut outcomes: Seq<Option<(Q, P)>> = Seq::empty();
        let mut req_taps: VecDeque<Q> = VecDeque::with_capacity(self.subscriptions.len());
        let mut rsp_taps: VecDeque<P> = VecDeque::with_capacity(self.subscriptions.len());
        for i in 0..self.subscriptions.len()
            invariant
                all == self.subscriptions@,
                forall|s: S| #[trigger] call_requires(*tap, (&s, &req, &self.inspect)),
                offers(*tap, all.take(i as int), req, self.inspect, outcomes),
                (req_taps@, rsp_taps@) == opened(outcomes),
        {
            let ghost before = outcomes;
            let outcome = tap(&self.subscriptions[i], &req, &self.inspect);
            proof {
                outcomes = outcomes.push(outcome);
                assert(outcomes.drop_last() =~= before);
                assert forall|j: int| 0 <= j < all.take(i + 1).len() implies call_ensures(
                    *tap,
                    (&all.take(i + 1)[j], &req, &self.inspect),
                    #[trigger] outcomes[j],
                ) by {
                    if j < i {
                        assert(call_ensures(
                            *tap,
                            (&all.take(i as int)[j], &req, &self.inspect),
                            before[j],
                        ));
                    }
                }
            }
            if let Some((req_tap, rsp_tap)) = outcome {
                req_taps.push_back(req_tap);
                rsp_taps.push_back(rsp_tap);
            }
        }
        assert(all.take(all.len() as int) =~= all);
        let new = Request {
            method: req.method,
            uri: req.uri,
            version: req.version,
            headers: req.headers,
            extensions: req.extensions,
            body: Body { inner: req.body, taps: req_taps },
        };
        (new, rsp_taps)
    }
}

/// Whether `taps` may be what comes of telling each tap of a response.
pub open spec fn opens<P, B, T, F: Fn(P, &Response<B>) -> T>(
    tap: F,
    rsp_taps: Seq<P>,
    rsp: Response<B>,
    taps: Seq<T>,
) -> bool {
    &&& taps.len() == rsp_taps.len()
    &&& forall|i: int|
        0 <= i < rsp_taps.len() ==> call_ensures(tap, (rsp_taps[i], &rsp), #[trigger] taps[i])
}

/// Whether a response with taps is the original one.
pub open spec fn is_same_response<B, T>(rsp: Response<B>, new: Response<Body<B, T>>) -> bool {
    &&& new.status == rsp.status
    &&& new.version == rsp.version
    &&& new.headers == rsp.headers
    &&& new.body.inner == rsp.body
}

/// Tells all taps of a response, in order, and has them told of its body.
pub fn respond<P, B, T, F: Fn(P, &Response<B>) -> T>(
    rsp_taps: VecDeque<P>,
    rsp: Response<B>,
    tap: &F,
) -> (r: Response<Body<B, T>>)
    requires
        forall|p: P| #[trigger] call_requires(*tap, (p, &rsp)),
    ensures
        is_same_response(rsp, r),
        opens(*tap, rsp_taps@, rsp, r.body.taps@),
{
    let ghost all = rsp_taps@;
    let mut rsp_taps = rsp_taps;
    let mut taps: VecDeque<T> = VecDeque::new();
    let n: usize = rsp_taps.len();
    assert(all.skip(0) =~= all);
    for i in 0..n
        invariant
            n == all.len(),
            rsp_taps@ == all.skip(i as int),
            forall|p: P| #[trigger] call_requires(*tap, (p, &rsp)),
            opens(*tap, all.take(i as int), rsp, taps@),
    {
        let ghost before = taps@;
        assert(rsp_taps@[0] == all[i as int]);
        let p: P = match rsp_taps.pop_front() {
            Some(p) => p,
            None => vstd::pervasive::unreached(),
        };
        assert(rsp_taps@ =~= all.skip(i + 1));
        let t = tap(p, &rsp);
        taps.push_back(t);
        assert forall|j: int| 0 <= j < all.take(i + 1).len() implies call_ensures(
            *tap,
            (all.take(i + 1)[j], &rsp),
            #[trigger] taps@[j],
        ) by {
            if j < i {
                assert(call_ensures(*tap, (all.take(i as int)[j], &rsp), before[j]));
            }
        }
    }
    assert(all.take(all.len() as int) =~= all);
    Response {
        status: rsp.status,
        version: rsp.version,
        headers: rsp.headers,
        body: Body { inner: rsp.body, taps },
    }
}

/// Hands out all taps of a response that failed, to be told so, and leaves none.
pub fn fail_response<P>(rsp_taps: &mut VecDeque<P>) -> (r: VecDeque<P>)
    ensures
        r@ == old(rsp_taps)@,
        final(rsp_taps)@.len() == 0,
{
    let mut taps = VecDeque::new();
    taps.append(rsp_taps);
    assert(taps@ =~= old(rsp_taps)@);
    taps
}

impl<B, T> Body<B, T> {
    /// Hands out all taps, and leaves none.
    fn drain(&mut self) -> (r: VecDeque<T>)
        ensures
            r@ == old(self).taps@,
            final(self).taps@.len() == 0,
            final(self).inner == old(self).inner,
    {
        fail_response(&mut self.taps)
    }

    /// A body without taps.
    pub fn new(inner: B) -> (b: Self)
        ensures
            b.inner == inner,
            b.taps@.len() == 0,
    {
        Body { inner, taps: VecDeque::new() }
    }

    /// Decides what taps are told when the inner body was asked for a frame.
    pub fn poll_data<D, E>(&mut self, polled: &Poll<Option<D>, E>) -> (r: Tell<T>)
        ensures
            final(self).inner == old(self).inner,
            match polled {
                Err(_) => r is Fail,
                Ok(Async::Ready(Some(_))) => r is Data,
                _ => r is Nothing,
            },
            tells(*old(self), r, *final(self)),
    {
        match polled {
            Err(_) => Tell::Fail(self.drain()),
            Ok(Async::Ready(Some(_))) => Tell::Data,
            _ => Tell::Nothing,
        }
    }

    /// Decides what taps are told when the inner body was asked for trailers.
    pub fn poll_trailers<H, E>(&mut self, polled: &Poll<Option<H>, E>) -> (r: Tell<T>)
        ensures
            final(self).inner == old(self).inner,
            match polled {
                Err(_) => r is Fail,
                Ok(Async::Ready(_)) => r is Eos,
                Ok(Async::NotReady) => r is Nothing,
            },
            tells(*old(self), r, *final(self)),
    {
        match polled {
            Err(_) => Tell::Fail(self.drain()),
            Ok(Async::Ready(_)) => Tell::Eos(self.drain()),
            Ok(Async::NotReady) => Tell::Nothing,
        }
    }

    /// Decides what taps are told when the body is dropped: the stream has ended for all that
    /// were not told so before.
    pub fn finish(&mut self) -> (r: Tell<T>)
        ensures
            r is Eos,
            tells(*old(self), r, *final(self)),
            final(self).inner == old(self).inner,
    {
        Tell::Eos(self.drain())
    }
}

/// Whether what taps are told takes a body from `pre` to `post`: all taps are told of the end or
/// the failure of the stream, and none is left then.
pub open spec fn tells<B, T>(pre: Body<B, T>, tell: Tell<T>, post: Body<B, T>) -> bool {
    match ended(tell) {
        Some(taps) => taps == pre.taps@ && post.taps@.len() == 0,
        None => post.taps == pre.taps,
    }
}

/// The taps that are told that the stream has ended or failed, where it has.
pub open spec fn ended<T>(tell: Tell<T>) -> Option<Seq<T>> {
    match tell {
        Tell::Fail(taps) => Some(taps@),
        Tell::Eos(taps) => Some(taps@),
        _ => None,
    }
}

/// Each tap is told once that the stream has ended or failed: when it first does, all taps of
/// the body are, and whatever comes after that, none is told again.
pub proof fn taps_are_told_of_one_end<B, T>(
    bodies: Seq<Body<B, T>>,
    told: Seq<Tell<T>>,
    i: int,
    j: int,
)
    requires
        bodies.len() == told.len() + 1,
        forall|k: int|
            0 <= k < told.len() ==> tells(bodies[k], #[trigger] told[k], bodies[k + 1]),
        0 <= i <= j < told.len(),
        ended(told[i]) is Some,
        forall|k: int| 0 <= k < i ==> ended(#[trigger] told[k]) is None,
    ensures
        ended(told[i]) == Some(bodies[0].taps@),
        j > i ==> (ended(told[j]) matches Some(taps) ==> taps.len() == 0),
        bodies[j + 1].taps@.len() == 0,
    decreases j,
{
    assert(tells(bodies[j], told[j], bodies[j + 1]));
    if j > i {
        taps_are_told_of_one_end(bodies, told, i, j - 1);
    } else {
        lemma_untold(bodies, told, i);
    }
}

proof fn lemma_untold<B, T>(bodies: Seq<Body<B, T>>, told: Seq<Tell<T>>, n: int)
    requires
        bodies.len() == told.len() + 1,
        forall|k: int|
            0 <= k < told.len() ==> tells(bodies[k], #[trigger] told[k], bodies[k + 1]),
        0 <= n <= told.len(),
        forall|k: int| 0 <= k < n ==> ended(#[trigger] told[k]) is None,
    ensures
        bodies[n].taps == bodies[0].taps,
    decreases n,
{
    if n > 0 {
        lemma_untold(bodies, told, n - 1);
        assert(tells(bodies[n - 1], told[n - 1], bodies[n]));
        assert(ended(told[n - 1]) is None);
    }
}

/// The times and sizes that are known of a body.
#[derive(Debug)]
pub struct StreamStats {
    pub request_open_at: Instant,
    pub response_first_frame_at: Option<Instant>,
    pub byte_count: usize,
    pub frame_count: usize,
    /// Whether the end of the stream is yet to be reported.
    pub open: bool,
}

impl StreamStats {
    /// Records that a frame of the given size, or none, came at a given time.
    pub fn frame(&mut self, size: Option<usize>, now: Instant)
        requires
            size matches Some(n) ==> old(self).byte_count + n <= usize::MAX && old(self).frame_count
                < usize::MAX,
        ensures
            final(self).request_open_at == old(self).request_open_at,
            final(self).open == old(self).open,
            final(self).response_first_frame_at == match old(self).response_first_frame_at {
                Some(at) => Some(at),
                None => Some(now),
            },
            match size {
                Some(n) => final(self).byte_count == old(self).byte_count + n && final(self).frame_count == old(self).frame_count + 1,
                None => final(self).byte_count == old(self).byte_count && final(self).frame_count
                    == old(self).frame_count,
            },
    {
        if self.response_first_frame_at.is_none() {
            self.response_first_frame_at = Some(now);
        }
        if let Some(n) = size {
            self.frame_count = self.frame_count + 1;
            self.byte_count = self.byte_count + n;
        }
    }

    /// Reports the end of a request, once.
    pub fn tap_eos(&mut self, now: Instant) -> (r: Option<StreamRequestEnd>)
        ensures
            *final(self) == (StreamStats { open: false, ..*old(self) }),
            r == if old(self).open {
                Some(
                    StreamRequestEnd {
                        request_open_at: old(self).request_open_at,
                        request_end_at: now,
                    },
                )
            } else {
                None
            },
    {
        if self.open {
            self.open = false;
            Some(StreamRequestEnd { request_open_at: self.request_open_at, request_end_at: now })
        } else {
            None
        }
    }
}

/// Whoever begins to tap a service comes last, and nobody else is lost.
pub proof fn subscriptions_come_last<I, S, V>(service: &mut Service<I, S, V>, subscription: S)
    requires
        call_ensures(Service::<I, S, V>::subscribe, (service, subscription), ()),
    ensures
        final(service).subscriptions@.len() == old(service).subscriptions@.len() + 1,
        final(service).subscriptions@.last() == subscription,
        final(service).subscriptions@.drop_last() == old(service).subscriptions@,
        final(service).inner == old(service).inner,
{
    assert(final(service).subscriptions@.drop_last() =~= old(service).subscriptions@);
}

/// Tapping leaves a request as it is, and opens at most one tap for each subscription, as many
/// for the response as for the request. Where everybody declines, there are none, and where
/// everybody accepts, there is one for each.
pub proof fn tapped_requests_are_unchanged<
    I,
    S,
    V,
    A,
    Q,
    P,
    F: Fn(&S, &Request<A>, &I) -> Option<(Q, P)>,
>(service: Service<I, S, V>, req: Request<A>, tap: F, r: (Request<Body<A, Q>>, VecDeque<P>))
    requires
        call_ensures(Service::<I, S, V>::call::<A, Q, P, F>, (&service, req, &tap), r),
    ensures
        r.0.method == req.method,
        r.0.uri == req.uri,
        r.0.version == req.version,
        r.0.headers == req.headers,
        r.0.extensions == req.extensions,
        r.0.body.inner == req.body,
        r.0.body.taps@.len() == r.1@.len(),
        r.1@.len() <= service.subscriptions@.len(),
        (forall|s: S, x: Option<(Q, P)>| #[trigger]
            call_ensures(tap, (&s, &req, &service.inspect), x) ==> x is None) ==> r.1@.len() == 0,
        (forall|s: S, x: Option<(Q, P)>| #[trigger]
            call_ensures(tap, (&s, &req, &service.inspect), x) ==> x is Some) ==> r.1@.len()
            == service.subscriptions@.len(),
{
    let outcomes = choose|outcomes: Seq<Option<(Q, P)>>| #[trigger]
        offers(tap, service.subscriptions@, req, service.inspect, outcomes) && (
        r.0.body.taps@,
        r.1@,
        ) == opened(outcomes);
    lemma_opened(outcomes);
    assert forall|i: int| 0 <= i < outcomes.len() implies call_ensures(
        tap,
        (&service.subscriptions@[i], &req, &service.inspect),
        #[trigger] outcomes[i],
    ) by {}
}

proof fn lemma_opened<Q, P>(outcomes: Seq<Option<(Q, P)>>)
    ensures
        opened(outcomes).0.len() == opened(outcomes).1.len(),
        opened(outcomes).1.len() <= outcomes.len(),
        (forall|i: int| 0 <= i < outcomes.len() ==> (#[trigger] outcomes[i]) is None) ==> opened(
            outcomes,
        ).1.len() == 0,
        (forall|i: int| 0 <= i < outcomes.len() ==> (#[trigger] outcomes[i]) is Some) ==> opened(
            outcomes,
        ).1.len() == outcomes.len(),
    decreases outcomes.len(),
{
    if outcomes.len() > 0 {
        let init = outcomes.drop_last();
        lemma_opened(init);
        let n = outcomes.len() - 1;
        assert(forall|i: int| 0 <= i < init.len() ==> #[trigger] init[i] == outcomes[i]);
        if forall|i: int| 0 <= i < outcomes.len() ==> (#[trigger] outcomes[i]) is None {
            assert(outcomes[n] is None);
            assert forall|i: int| 0 <= i < init.len() implies (#[trigger] init[i]) is None by {
                assert(outcomes[i] is None);
            }
        }
        if forall|i: int| 0 <= i < outcomes.len() ==> (#[trigger] outcomes[i]) is Some {
            assert(outcomes[n] is Some);
            assert forall|i: int| 0 <= i < init.len() implies (#[trigger] init[i]) is Some by {
                assert(outcomes[i] is Some);
            }
        }
    }
}

/// Tapping leaves a response as it is, and each tap is told of it, in order.
pub proof fn tapped_responses_are_unchanged<P, B, T, F: Fn(P, &Response<B>) -> T>(
    rsp_taps: VecDeque<P>,
    rsp: Response<B>,
    tap: F,
    r: Response<Body<B, T>>,
)
    requires
        call_ensures(respond::<P, B, T, F>, (rsp_taps, rsp, &tap), r),
    ensures
        r.status == rsp.status,
        r.version == rsp.version,
        r.headers == rsp.headers,
        r.body.inner == rsp.body,
        r.body.taps@.len() == rsp_taps@.len(),
        forall|i: int|
            0 <= i < rsp_taps@.len() ==> call_ensures(
                tap,
                (rsp_taps@[i], &rsp),
                #[trigger] r.body.taps@[i],
            ),
{
}

/// All taps of a response that failed are told so, and none is left to be told anything else.
pub proof fn all_taps_are_told_of_failures<P>(rsp_taps: &mut VecDeque<P>, r: VecDeque<P>)
    requires
        call_ensures(fail_response::<P>, (rsp_taps,), r),
    ensures
        r@ == old(rsp_taps)@,
        final(rsp_taps)@.len() == 0,
{
}

/// Taps are told of each frame, of a failure where asking for one fails, and of nothing while
/// there is nothing. They are told of the end with the trailers, whether there are any or not, or
/// when the body is dropped.
pub proof fn taps_are_told_what_happens<B, T, D, H, E>(
    a: &mut Body<B, T>,
    b: &mut Body<B, T>,
    c: &mut Body<B, T>,
    frame: Poll<Option<D>, E>,
    trailers: Poll<Option<H>, E>,
    x: Tell<T>,
    y: Tell<T>,
    z: Tell<T>,
)
    requires
        call_ensures(Body::<B, T>::poll_data::<D, E>, (a, &frame), x),
        call_ensures(Body::<B, T>::poll_trailers::<H, E>, (b, &trailers), y),
        call_ensures(Body::<B, T>::finish, (c,), z),
    ensures
        x is Fail <==> frame is Err,
        x is Data <==> (frame matches Ok(Async::Ready(Some(_)))),
        !(x is Eos),
        y is Fail <==> trailers is Err,
        y is Eos <==> (trailers matches Ok(Async::Ready(_))),
        !(y is Data),
        z matches Tell::Eos(taps) && taps@ == old(c).taps@,
        x matches Tell::Fail(taps) ==> taps@ == old(a).taps@ && final(a).taps@.len() == 0,
        y matches Tell::Fail(taps) ==> taps@ == old(b).taps@ && final(b).taps@.len() == 0,
        y matches Tell::Eos(taps) ==> taps@ == old(b).taps@ && final(b).taps@.len() == 0,
        x is Data || x is Nothing ==> final(a).taps == old(a).taps,
        y is Nothing ==> final(b).taps == old(b).taps,
        final(a).inner == old(a).inner,
        final(b).inner == old(b).inner,
{
}

/// Frames and bytes are counted as they come, and the time of the first frame stands. The end of
/// a request is reported once, with the times of its beginning and its end.
pub proof fn streams_are_measured(
    a: &mut StreamStats,
    size: Option<usize>,
    now: Instant,
    b: &mut StreamStats,
    r: Option<StreamRequestEnd>,
)
    requires
        call_ensures(StreamStats::frame, (a, size, now), ()),
        call_ensures(StreamStats::tap_eos, (b, now), r),
    ensures
        size matches Some(n) ==> final(a).byte_count == old(a).byte_count + n
            && final(a).frame_count == old(a).frame_count + 1,
        size is None ==> final(a).byte_count == old(a).byte_count && final(a).frame_count
            == old(a).frame_count,
        old(a).response_first_frame_at is Some ==> final(a).response_first_frame_at
            == old(a).response_first_frame_at,
        old(a).response_first_frame_at is None ==> final(a).response_first_frame_at == Some(now),
        r is Some <==> old(b).open,
        r matches Some(end) ==> end.request_open_at == old(b).request_open_at
            && end.request_end_at == now,
        !final(b).open,
{
}

/// Where everybody takes a request, taps are in the order of those who opened them: the tap for
/// the request and the one for the response at a place are both of the subscription there.
pub proof fn taps_are_in_order<
    I,
    S,
    V,
    A,
    Q,
    P,
    F: Fn(&S, &Request<A>, &I) -> Option<(Q, P)>,
>(
    service: Service<I, S, V>,
    req: Request<A>,
    tap: F,
    r: (Request<Body<A, Q>>, VecDeque<P>),
    i: int,
)
    requires
        call_ensures(Service::<I, S, V>::call::<A, Q, P, F>, (&service, req, &tap), r),
        forall|s: S, x: Option<(Q, P)>| #[trigger]
            call_ensures(tap, (&s, &req, &service.inspect), x) ==> x is Some,
        0 <= i < service.subscriptions@.len(),
    ensures
        call_ensures(
            tap,
            (&service.subscriptions@[i], &req, &service.inspect),
            Some((r.0.body.taps@[i], r.1@[i])),
        ),
{
    let outcomes = choose|outcomes: Seq<Option<(Q, P)>>| #[trigger]
        offers(tap, service.subscriptions@, req, service.inspect, outcomes) && (
        r.0.body.taps@,
        r.1@,
        ) == opened(outcomes);
    assert forall|j: int| 0 <= j < outcomes.len() implies (#[trigger] outcomes[j]) is Some by {
        assert(call_ensures(
            tap,
            (&service.subscriptions@[j], &req, &service.inspect),
            outcomes[j],
        ));
    }
    lemma_opened_in_order(outcomes, i);
    assert(call_ensures(
        tap,
        (&service.subscriptions@[i], &req, &service.inspect),
        outcomes[i],
    ));
}

proof fn lemma_opened_in_order<Q, P>(outcomes: Seq<Option<(Q, P)>>, i: int)
    requires
        forall|j: int| 0 <= j < outcomes.len() ==> (#[trigger] outcomes[j]) is Some,
        0 <= i < outcomes.len(),
    ensures
        opened(outcomes).0.len() == outcomes.len(),
        opened(outcomes).1.len() == outcomes.len(),
        outcomes[i] == Some((opened(outcomes).0[i], opened(outcomes).1[i])),
    decreases outcomes.len(),
{
    let init = outcomes.drop_last();
    let n = outcomes.len() - 1;
    assert(outcomes[n] is Some);
    assert forall|j: int| 0 <= j < init.len() implies (#[trigger] init[j]) is Some by {
        assert(outcomes[j] is Some);
    }
    lemma_opened(init);
    if i < n {
        lemma_opened_in_order(init, i);
        assert(init[i] == outcomes[i]);
    }
}

/// Whoever does not tap a service any more is forgotten, and nobody else is.
pub proof fn only_the_inactive_are_forgotten<I, S, V, L: Fn(&S) -> bool>(
    service: &mut Service<I, S, V>,
    is_live: L,
)
    requires
        call_ensures(Service::<I, S, V>::drop_inactive::<L>, (service, &is_live), ()),
        forall|s: S, x: bool| #[trigger] call_ensures(is_live, (&s,), x) ==> x,
    ensures
        final(service).subscriptions@ == old(service).subscriptions@,
        final(service).inner == old(service).inner,
        final(service).inspect == old(service).inspect,
{
    crate::tap::daemon::lemma_all_live(
        is_live,
        old(service).subscriptions@,
        final(service).subscriptions@,
    );
}

/// Whether `places` tells, in order, which of the offers were taken, and all others were declined.
pub open spec fn are_places<Q, P>(
    outcomes: Seq<Option<(Q, P)>>,
    requests: Seq<Q>,
    responses: Seq<P>,
    places: Seq<int>,
) -> bool {
    &&& places.len() == requests.len()
    &&& places.len() == responses.len()
    &&& forall|i: int, j: int| 0 <= i < j < places.len() ==> #[trigger] places[i]
        < #[trigger] places[j]
    &&& forall|i: int|
        0 <= i < places.len() ==> 0 <= #[trigger] places[i] < outcomes.len() && outcomes[places[i]]
            == Some((requests[i], responses[i]))
    &&& forall|k: int|
        0 <= k < outcomes.len() ==> places.contains(k) || (#[trigger] outcomes[k]) is None
}

proof fn lemma_places<Q, P>(outcomes: Seq<Option<(Q, P)>>) -> (places: Seq<int>)
    ensures
        are_places(outcomes, opened(outcomes).0, opened(outcomes).1, places),
    decreases outcomes.len(),
{
    if outcomes.len() == 0 {
        Seq::empty()
    } else {
        let n = outcomes.len() - 1;
        let init = outcomes.drop_last();
        let some = lemma_places(init);
        let places = if outcomes[n] is Some {
            some.push(n)
        } else {
            some
        };
        let (requests, responses) = opened(outcomes);
        assert forall|i: int| 0 <= i < places.len() implies 0 <= #[trigger] places[i]
            < outcomes.len() && outcomes[places[i]] == Some((requests[i], responses[i])) by {
            if i < some.len() {
                assert(places[i] == some[i]);
                assert(init[some[i]] == outcomes[some[i]]);
            }
        }
        assert forall|i: int, j: int| 0 <= i < j < places.len() implies #[trigger] places[i]
            < #[trigger] places[j] by {
            assert(places[i] == some[i]);
            if j < some.len() {
                assert(some[i] < some[j]);
            }
        }
        assert forall|k: int| 0 <= k < outcomes.len() implies places.contains(k) || (
        #[trigger] outcomes[k]) is None by {
            if k == n {
                if outcomes[n] is Some {
                    assert(places[some.len() as int] == n);
                }
            } else {
                assert(init[k] == outcomes[k]);
                if some.contains(k) {
                    let i = choose|i: int| 0 <= i < some.len() && some[i] == k;
                    assert(places[i] == k);
                }
            }
        }
        places
    }
}

/// Everybody who taps a service is offered each request, and those who take it are told of it, in
/// their order: nobody who takes it is passed over, and nobody else is told.
pub proof fn nobody_is_passed_over<
    I,
    S,
    V,
    A,
    Q,
    P,
    F: Fn(&S, &Request<A>, &I) -> Option<(Q, P)>,
>(
    service: Service<I, S, V>,
    req: Request<A>,
    tap: F,
    r: (Request<Body<A, Q>>, VecDeque<P>),
) -> (told: (Seq<Option<(Q, P)>>, Seq<int>))
    requires
        call_ensures(Service::<I, S, V>::call::<A, Q, P, F>, (&service, req, &tap), r),
    ensures
        told.0.len() == service.subscriptions@.len(),
        forall|i: int|
            0 <= i < told.0.len() ==> call_ensures(
                tap,
                (&service.subscriptions@[i], &req, &service.inspect),
                #[trigger] told.0[i],
            ),
        are_places(told.0, r.0.body.taps@, r.1@, told.1),
{
    let outcomes = choose|outcomes: Seq<Option<(Q, P)>>| #[trigger]
        offers(tap, service.subscriptions@, req, service.inspect, outcomes) && (
        r.0.body.taps@,
        r.1@,
        ) == opened(outcomes);
    (outcomes, lemma_places(outcomes))
}

} // verus!
