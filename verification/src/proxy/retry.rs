//! Retries requests.
//!
//! Sending requests anew is up to the caller, who asks here whether to do so.
use crate::message::headers::copy_headers;
use crate::message::{Extensions, Request, Response, StatusCode, Version};
use crate::stack;
use crate::stack::either::Either;
use http::header::{HeaderMap, HeaderValue};
use std::marker::PhantomData;
use std::time::Instant;
use vstd::prelude::*;

verus! {

/// Something whose requests may be retried.
pub trait CanRetry: Sized {
    type Retry: Retry;

    /// Whether `r` may say how requests are retried.
    spec fn retries(self, r: Option<Self::Retry>) -> bool;

    /// How requests are retried, if they are.
    fn can_retry(&self) -> (r: Option<Self::Retry>)
        ensures
            self.retries(r),
    ;
}

/// Decides whether a request is retried.
pub trait Retry: Sized {
    /// Whether `r` may be decided on a response to a request that was first sent at a given
    /// time.
    spec fn decides(
        self,
        started_at: Instant,
        status: StatusCode,
        version: Version,
        headers: HeaderMap<HeaderValue>,
        r: Result<(), NoRetry>,
    ) -> bool;

    /// Decides whether a request is retried.
    fn retry<B>(&self, started_at: Instant, res: &Response<B>) -> (r: Result<(), NoRetry>)
        ensures
            self.decides(started_at, res.status, res.version, res.headers, r),
    ;
}

/// Why a request is not retried.
#[derive(Clone, Copy, Debug, PartialEq, Eq, Structural)]
pub enum NoRetry {
    Success,
    Budget,
    Timeout,
}

/// Something that can be cloned in some states.
pub trait TryClone: Sized {
    /// Whether trying to clone may give `r`.
    spec fn clones(self, r: Option<Self>) -> bool;

    /// Clones, if possible.
    fn try_clone(&self) -> (r: Option<Self>)
        ensures
            self.clones(r),
    ;
}

/// Gives out a scope of statistics for each key.
pub trait Scoped<K>: Sized {
    type Scope;

    /// Whether `scope` may be the scope of a key.
    spec fn scopes(self, key: K, scope: Self::Scope) -> bool;

    /// The scope of a key.
    fn scoped(&self, key: K) -> (scope: Self::Scope)
        ensures
            self.scopes(key, scope),
    ;
}

/// Makes stacks retry requests.
#[derive(Debug)]
pub struct Layer<S, K> {
    pub registry: S,
    pub _p: PhantomData<K>,
}

/// A stack whose services retry requests, if their target allows it.
#[derive(Debug)]
pub struct Stack<M, S, K> {
    pub inner: M,
    pub registry: S,
    pub _p: PhantomData<K>,
}

/// A service that retries requests.
#[derive(Debug)]
pub struct Service<R, Svc, St> {
    pub policy: Policy<R, St>,
    pub inner: Svc,
}

/// Decides whether requests are retried, and counts those that are not.
#[derive(Debug)]
pub struct Policy<R, S> {
    pub retry: R,
    pub stats: S,
}

/// What became of a request.
#[derive(Clone, Copy, Debug, PartialEq, Eq, Structural)]
pub enum Decision {
    /// The request is sent again.
    Retry,
    /// The request is done.
    Done,
    /// The request is done, and counted as one for which there was no budget.
    SkippedBudget,
    /// The request is done, and counted as one for which there was no time.
    SkippedTimeout,
}

/// Makes stacks retry requests, and count in `registry` those that are not.
pub fn layer<S, K>(registry: S) -> (l: Layer<S, K>)
    ensures
        l.registry == registry,
{
    Layer { registry, _p: PhantomData }
}

impl<S: Clone, K> Clone for Layer<S, K> {
    fn clone(&self) -> (r: Self)
        ensures
            cloned(self.registry, r.registry),
    {
        Layer { registry: self.registry.clone(), _p: PhantomData }
    }
}

impl<M: Clone, S: Clone, K> Clone for Stack<M, S, K> {
    fn clone(&self) -> (r: Self)
        ensures
            cloned(self.inner, r.inner),
            cloned(self.registry, r.registry),
    {
        Stack { inner: self.inner.clone(), registry: self.registry.clone(), _p: PhantomData }
    }
}

impl<R: Clone, S: Clone> Clone for Policy<R, S> {
    fn clone(&self) -> (r: Self)
        ensures
            cloned(self.retry, r.retry),
            cloned(self.stats, r.stats),
    {
        Policy { retry: self.retry.clone(), stats: self.stats.clone() }
    }
}

impl<T, M, S, K> stack::layer::Layer<T, T, M> for Layer<S, K> where
    T: CanRetry + Clone,
    M: stack::Stack<T>,
    S: Scoped<K> + Clone,
    K: From<T>,
 {
    type Value = Either<Service<T::Retry, M::Value, S::Scope>, M::Value>;

    type Error = M::Error;

    type Stack = Stack<M, S, K>;

    open spec fn binds(&self, next: M, stack: Stack<M, S, K>) -> bool {
        stack.inner == next && cloned(self.registry, stack.registry)
    }

    fn bind(&self, next: M) -> (stack: Stack<M, S, K>) {
        Stack { inner: next, registry: self.registry.clone(), _p: PhantomData }
    }
}

/// Whether `scope` may be the scope of the key of `target`.
pub open spec fn is_scope_of<T: Clone, K: From<T>, S: Scoped<K>>(
    registry: S,
    target: T,
    scope: S::Scope,
) -> bool {
    exists|key: K| is_key_of(target, key) && #[trigger] registry.scopes(key, scope)
}

/// Whether `key` may be the key of `target`.
pub open spec fn is_key_of<T: Clone, K: From<T>>(target: T, key: K) -> bool {
    exists|t: T| cloned(target, t) && #[trigger] call_ensures(<K as From<T>>::from, (t,), key)
}

impl<T, M, S, K> stack::Stack<T> for Stack<M, S, K> where
    T: CanRetry + Clone,
    M: stack::Stack<T>,
    S: Scoped<K>,
    K: From<T>,
 {
    type Value = Either<Service<T::Retry, M::Value, S::Scope>, M::Value>;

    type Error = M::Error;

    open spec fn accepts(&self, target: T) -> bool {
        self.inner.accepts(target)
    }

    /// Exactly the services of targets that can be retried are wrapped.
    open spec fn makes(&self, target: T, r: Result<Self::Value, M::Error>) -> bool {
        match r {
            Ok(Either::A(service)) => {
                &&& self.inner.makes(target, Ok(service.inner))
                &&& target.retries(Some(service.policy.retry))
                &&& is_scope_of::<T, K, S>(self.registry, target, service.policy.stats)
            },
            Ok(Either::B(service)) => {
                &&& self.inner.makes(target, Ok(service))
                &&& target.retries(None)
            },
            Err(e) => self.inner.makes(target, Err(e)),
        }
    }

    fn make(&self, target: &T) -> (r: Result<Self::Value, M::Error>) {
        let inner = match self.inner.make(target) {
            Ok(inner) => inner,
            Err(e) => {
                return Err(e);
            },
        };
        match target.can_retry() {
            Some(retry) => {
                let key = K::from(target.clone());
                let ghost k = key;
                assert(is_key_of(*target, k));
                let stats = self.registry.scoped(key);
                assert(self.registry.scopes(k, stats));
                assert(is_scope_of::<T, K, S>(self.registry, *target, stats));
                Ok(Either::A(Service { policy: Policy { retry, stats }, inner }))
            },
            None => Ok(Either::B(inner)),
        }
    }
}

impl<R, Svc, St> Service<R, Svc, St> {
    /// Prepares a request to be sent for the first time: it is marked with the time.
    pub fn call<A>(&self, req: &mut Request<A>, now: Instant)
        ensures
            *final(req) == (Request {
                extensions: Extensions {
                    first_request_started_at: Some(now),
                    ..old(req).extensions
                },
                ..*old(req)
            }),
    {
        req.extensions.first_request_started_at = Some(now);
    }
}

/// What is decided on a request for which it was decided whether to retry.
pub open spec fn decision(r: Result<(), NoRetry>) -> Decision {
    match r {
        Ok(()) => Decision::Retry,
        Err(NoRetry::Budget) => Decision::SkippedBudget,
        Err(NoRetry::Timeout) => Decision::SkippedTimeout,
        Err(NoRetry::Success) => Decision::Done,
    }
}

/// Whether `r` may be decided by `retry` about a request that was answered.
pub open spec fn decides_on<R: Retry, B>(
    retry: R,
    started_at: Instant,
    res: Response<B>,
    r: Decision,
) -> bool {
    exists|decided: Result<(), NoRetry>| #[trigger]
        retry.decides(started_at, res.status, res.version, res.headers, decided) && r == decision(
            decided,
        )
}

impl<R: Retry, S> Policy<R, S> {
    /// Decides whether a request is sent again. Transport errors are not retried, nor are
    /// requests of which it is not known when they were sent first.
    pub fn retry<A, B, E>(&self, req: &Request<A>, result: Result<&Response<B>, &E>) -> (r:
        Decision)
        ensures
            match (result, req.extensions.first_request_started_at) {
                (Ok(res), Some(started_at)) => decides_on(self.retry, started_at, *res, r),
                _ => r == Decision::Done,
            },
    {
        match result {
            Ok(res) => match req.extensions.first_request_started_at {
                Some(started_at) => {
                    let decided = self.retry.retry(started_at, res);
                    let ghost d = decided;
                    assert(self.retry.decides(started_at, res.status, res.version, res.headers, d));
                    let r: Decision = match decided {
                        Ok(_) => Decision::Retry,
                        Err(NoRetry::Budget) => Decision::SkippedBudget,
                        Err(NoRetry::Timeout) => Decision::SkippedTimeout,
                        Err(NoRetry::Success) => Decision::Done,
                    };
                    assert(decides_on(self.retry, started_at, *res, r));
                    r
                },
                None => Decision::Done,
            },
            Err(_) => Decision::Done,
        }
    }

    /// Clones a request, to have it when it is to be sent again.
    pub fn clone_request<A: TryClone>(&self, req: &Request<A>) -> (r: Option<Request<A>>)
        ensures
            req.clones(r),
    {
        req.try_clone()
    }
}

impl<B: TryClone> TryClone for Request<B> {
    /// A request can be cloned if its body can. The clone has the default version.
    open spec fn clones(self, r: Option<Self>) -> bool {
        match r {
            Some(clone) => {
                &&& self.body.clones(Some(clone.body))
                &&& clone.method == self.method
                &&& clone.uri == self.uri
                &&& clone.version == Version::Http11
                &&& crate::message::headers::header_values(clone.headers)
                    == crate::message::headers::header_values(self.headers)
                &&& clone.extensions == self.extensions
            },
            None => self.body.clones(None),
        }
    }

    fn try_clone(&self) -> (r: Option<Self>) {
        match self.body.try_clone() {
            Some(body) => Some(
                Request {
                    method: self.method.clone(),
                    uri: self.uri.clone(),
                    version: Version::Http11,
                    headers: copy_headers(&self.headers),
                    extensions: self.extensions.clone(),
                    body,
                },
            ),
            None => None,
        }
    }
}

/// A request is sent again exactly if it was answered, it is known when it was first sent, and
/// the retry that the policy has decides in favour. What the retry refuses for want of budget or
/// of time is counted as such, and nothing else is.
pub proof fn only_retries_decide<R: Retry, S, A, B, E>(
    policy: Policy<R, S>,
    req: Request<A>,
    res: Response<B>,
    started_at: Instant,
    decided: Result<(), NoRetry>,
    r: Decision,
)
    requires
        req.extensions.first_request_started_at == Some(started_at),
        call_ensures(
            Policy::<R, S>::retry::<A, B, E>,
            (&policy, &req, Ok::<&Response<B>, &E>(&res)),
            r,
        ),
        forall|x: Result<(), NoRetry>| #[trigger]
            policy.retry.decides(started_at, res.status, res.version, res.headers, x) ==> x
                == decided,
    ensures
        r == Decision::Retry <==> decided is Ok,
        r == Decision::SkippedBudget <==> decided == Err::<(), NoRetry>(NoRetry::Budget),
        r == Decision::SkippedTimeout <==> decided == Err::<(), NoRetry>(NoRetry::Timeout),
        r == Decision::Done <==> decided == Err::<(), NoRetry>(NoRetry::Success),
{
}

/// A request that failed without an answer is not sent again, nor is one of which it is not
/// known when it was first sent. Neither is counted as refused.
pub proof fn transport_errors_are_not_retried<R: Retry, S, A, B, E>(
    policy: Policy<R, S>,
    req: Request<A>,
    result: Result<&Response<B>, &E>,
    r: Decision,
)
    requires
        call_ensures(Policy::<R, S>::retry::<A, B, E>, (&policy, &req, result), r),
        result is Err || req.extensions.first_request_started_at is None,
    ensures
        r == Decision::Done,
{
}

/// A request that is sent for the first time is marked with the time, whatever mark it had, and
/// changes in nothing else.
pub proof fn first_requests_are_marked<R, Svc, St, A>(
    service: Service<R, Svc, St>,
    req: &mut Request<A>,
    now: Instant,
)
    requires
        call_ensures(Service::<R, Svc, St>::call::<A>, (&service, req, now), ()),
    ensures
        final(req).extensions.first_request_started_at == Some(now),
        final(req).extensions.source == old(req).extensions.source,
        final(req).extensions.classify == old(req).extensions.classify,
        final(req).method == old(req).method,
        final(req).uri == old(req).uri,
        final(req).version == old(req).version,
        final(req).headers == old(req).headers,
        final(req).body == old(req).body,
{
}

/// A request can be cloned exactly if its body can. The clone has the method, the target, the
/// headers and the notes of the request, the time at which it was first sent among them.
pub proof fn clones_are_the_same_request<R: Retry, S, A: TryClone>(
    policy: Policy<R, S>,
    req: Request<A>,
    r: Option<Request<A>>,
)
    requires
        call_ensures(Policy::<R, S>::clone_request::<A>, (&policy, &req), r),
    ensures
        r is None ==> req.body.clones(None),
        r matches Some(clone) ==> {
            &&& req.body.clones(Some(clone.body))
            &&& clone.method == req.method
            &&& clone.uri == req.uri
            &&& crate::message::headers::header_values(clone.headers)
                == crate::message::headers::header_values(req.headers)
            &&& clone.extensions.first_request_started_at
                == req.extensions.first_request_started_at
            &&& clone.extensions.source == req.extensions.source
            &&& clone.extensions.classify == req.extensions.classify
            &&& clone.version == Version::Http11
        },
{
}

/// Services of targets that can be retried are wrapped, with the retry that the target has, and
/// those of other targets are not.
pub proof fn retryable_targets_are_wrapped<T, M, S, K>(
    stack: Stack<M, S, K>,
    target: T,
    r: Result<Either<Service<T::Retry, M::Value, S::Scope>, M::Value>, M::Error>,
) where T: CanRetry + Clone, M: stack::Stack<T>, S: Scoped<K>, K: From<T>
    requires
        call_ensures(<Stack<M, S, K> as stack::Stack<T>>::make, (&stack, &target), r),
    ensures
        !target.retries(None) ==> !(r matches Ok(Either::B(_))),
        (forall|x: T::Retry| !#[trigger] target.retries(Some(x))) ==> !(r matches Ok(
            Either::A(_),
        )),
        r matches Ok(Either::A(service)) ==> target.retries(Some(service.policy.retry))
            && stack.inner.makes(target, Ok(service.inner)),
        r matches Ok(Either::B(service)) ==> stack.inner.makes(target, Ok(service)),
        r matches Err(e) ==> stack.inner.makes(target, Err(e)),
{
}

/// What is not retried is counted in the scope of its target.
pub proof fn retries_are_counted_for_their_target<T, M, S, K>(
    stack: Stack<M, S, K>,
    target: T,
    service: Service<T::Retry, M::Value, S::Scope>,
) -> (key: K) where T: CanRetry + Clone, M: stack::Stack<T>, S: Scoped<K>, K: From<T>
    requires
        call_ensures(
            <Stack<M, S, K> as stack::Stack<T>>::make,
            (&stack, &target),
            Ok(Either::A(service)),
        ),
    ensures
        stack.registry.scopes(key, service.policy.stats),
        exists|t: T|
            cloned(target, t) && #[trigger] call_ensures(<K as From<T>>::from, (t,), key),
{
    choose|key: K|
        is_key_of(target, key) && #[trigger] stack.registry.scopes(key, service.policy.stats)
}

} // verus!
