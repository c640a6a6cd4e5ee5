//! Resolves destinations to their canonical names.
//!
//! A name may be relative to search domains that only the DNS resolver knows. The canonical
//! name is looked up again as answers expire, and the service is built anew where it changes.
//! Lookups and timers are up to the caller, who reports what came of them.
use crate::addr::{Addr, NameAddr};
use crate::app::outbound::{CanonicalDstAddr, DstAddr};
use crate::dns::{Refine, ResolveError};
use crate::poll::{Async, Poll};
use crate::stack;
use crate::stack::either::Either;
use crate::time::Duration;
use std::time::Instant;
use vstd::prelude::*;

verus! {

/// How many seconds to wait before polling DNS again after an error (or a NXDOMAIN
/// response with no TTL).
pub const DNS_ERROR_TTL_SECS: u64 = 5;

/// Makes stacks build services for the canonical names of their targets.
#[derive(Debug)]
pub struct Layer<R> {
    /// Looks up names.
    pub resolver: R,
}

/// A stack that builds services for the canonical names of its targets.
#[derive(Debug)]
pub struct Stack<R, M> {
    pub resolver: R,
    pub inner: M,
}

/// A service for the canonical form of a name.
pub struct Service<R, M: stack::Stack<CanonicalDstAddr>> {
    pub original_addr: NameAddr,
    /// Looks up the original name.
    pub resolver: R,
    /// The service for the name that was looked up last.
    pub service: Option<M::Value>,
    /// What the service is for.
    pub service_name: Option<CanonicalDstAddr>,
    pub stack: M,
    pub state: State,
}

/// What a service waits for.
#[derive(Debug)]
pub enum State {
    /// The canonical name is being looked up.
    Pending,
    /// The answer is still valid.
    ValidUntil(Deadline),
}

/// Until when an answer is valid.
#[derive(Debug)]
pub enum Deadline {
    At(Instant),
    /// For some time from now on.
    After(Duration),
}

/// Why a service failed.
#[derive(Debug)]
pub enum CanonicalizeError<M, S> {
    Stack(M),
    Service(S),
}

/// What is to be done next.
#[derive(Clone, Copy, Debug, PartialEq, Eq, Structural)]
pub enum Progress {
    /// Nothing, until what the service waits for is there.
    Wait,
    /// A timer must be set for the deadline of the state.
    StartTimer,
    /// The original name must be looked up.
    StartLookup,
}

/// Until when a failed lookup stands. That there are no records may be known for some time.
pub open spec fn error_deadline<E>(e: ResolveError<E>) -> Deadline {
    match e {
        ResolveError::NoRecordsFound { valid_until: Some(at) } => Deadline::At(at),
        _ => Deadline::After(Duration { secs: DNS_ERROR_TTL_SECS, nanos: 0 }),
    }
}

/// Resolves destinations to their canonical names, which are looked up with `resolver`.
pub fn layer<R>(resolver: R) -> (l: Layer<R>)
    ensures
        l.resolver == resolver,
{
    Layer { resolver }
}

impl<R: Clone, M: stack::Stack<CanonicalDstAddr> + Clone> stack::layer::Layer<
    DstAddr,
    CanonicalDstAddr,
    M,
> for Layer<R> {
    type Value = Either<Service<R, M>, M::Value>;

    type Error = M::Error;

    type Stack = Stack<R, M>;

    open spec fn binds(&self, next: M, stack: Stack<R, M>) -> bool {
        stack.inner == next && cloned(self.resolver, stack.resolver)
    }

    fn bind(&self, next: M) -> (stack: Stack<R, M>) {
        Stack { resolver: self.resolver.clone(), inner: next }
    }
}

impl<R: Clone, M: stack::Stack<CanonicalDstAddr> + Clone> stack::Stack<DstAddr> for Stack<R, M> {
    type Value = Either<Service<R, M>, M::Value>;

    type Error = M::Error;

    open spec fn accepts(&self, target: DstAddr) -> bool {
        target.addr is Socket ==> self.inner.accepts(CanonicalDstAddr { addr: target.addr })
    }

    /// The service for a name starts with a lookup. An address is canonical by itself.
    open spec fn makes(&self, target: DstAddr, r: Result<Self::Value, M::Error>) -> bool {
        match target.addr {
            Addr::Name(name) => {
                &&& r matches Ok(Either::A(service))
                &&& service.original_addr == name
                &&& cloned(self.inner, service.stack)
                &&& cloned(self.resolver, service.resolver)
                &&& service.state is Pending
                &&& service.service is None
                &&& service.service_name is None
            },
            Addr::Socket(_) => match r {
                Ok(Either::A(_)) => false,
                Ok(Either::B(service)) => self.inner.makes(
                    CanonicalDstAddr { addr: target.addr },
                    Ok(service),
                ),
                Err(e) => self.inner.makes(CanonicalDstAddr { addr: target.addr }, Err(e)),
            },
        }
    }

    fn make(&self, dst_addr: &DstAddr) -> (r: Result<Self::Value, M::Error>) {
        match &dst_addr.addr {
            Addr::Name(name) => Ok(
                Either::A(
                    Service {
                        original_addr: name.clone(),
                        stack: self.inner.clone(),
                        resolver: self.resolver.clone(),
                        state: State::Pending,
                        service: None,
                        service_name: None,
                    },
                ),
            ),
            Addr::Socket(_) => {
                let target = CanonicalDstAddr { addr: dst_addr.addr.clone() };
                match self.inner.make(&target) {
                    Ok(service) => Ok(Either::B(service)),
                    Err(e) => Err(e),
                }
            },
        }
    }
}

impl<R, M: stack::Stack<CanonicalDstAddr>> Service<R, M> {
    /// There is a service exactly if it has a name, and then it was built for that name.
    pub open spec fn wf(self) -> bool {
        match (self.service, self.service_name) {
            (Some(service), Some(name)) => self.stack.makes(name, Ok(service)),
            (None, None) => true,
            _ => false,
        }
    }

    /// Whether the service is the one for a given name.
    pub open spec fn serves(self, name: Seq<char>, port: u16) -> bool {
        self.service_name matches Some(dst) && dst.addr matches Addr::Name(addr) && addr.name@
            == name && addr.port == port
    }

    /// Whether no service could be built for a given name.
    pub open spec fn fails_for(self, name: Seq<char>, e: M::Error) -> bool {
        exists|dst: CanonicalDstAddr|
            dst.addr matches Addr::Name(addr) && addr.name@ == name && addr.port
                == self.original_addr.port && #[trigger] self.stack.makes(dst, Err(e))
    }

    /// Whether `post` keeps the service of `pre`.
    pub open spec fn keeps_service(pre: Self, post: Self) -> bool {
        post.service == pre.service && post.service_name == pre.service_name
    }

    /// Whether nothing but the service and the state differs.
    pub open spec fn same_target(pre: Self, post: Self) -> bool {
        &&& post.original_addr == pre.original_addr
        &&& post.resolver == pre.resolver
        &&& post.stack == pre.stack
    }

    /// Builds the service for a name, unless that is the one there is.
    fn use_name(&mut self, service_name: CanonicalDstAddr) -> (r: Result<(), M::Error>)
        requires
            old(self).wf(),
            old(self).stack.accepts(service_name),
        ensures
            final(self).wf(),
            Self::same_target(*old(self), *final(self)),
            final(self).state == old(self).state,
            match r {
                Ok(()) => if old(self).service_name matches Some(name) && name.same(service_name) {
                    Self::keeps_service(*old(self), *final(self))
                } else {
                    final(self).service_name == Some(service_name)
                },
                Err(e) => {
                    &&& !(old(self).service_name matches Some(name) && name.same(service_name))
                    &&& old(self).stack.makes(service_name, Err(e))
                    &&& Self::keeps_service(*old(self), *final(self))
                },
            },
    {
        let same: bool = match &self.service_name {
            Some(name) => name.is_same(&service_name),
            None => false,
        };
        if !same {
            match self.stack.make(&service_name) {
                Ok(service) => {
                    self.service = Some(service);
                    self.service_name = Some(service_name);
                },
                Err(e) => {
                    return Err(e);
                },
            }
        }
        Ok(())
    }

    /// Handles what came of looking up the original name.
    ///
    /// Where the canonical name has changed, the service is built anew. If the lookup fails,
    /// the service that there is stays, and only if there is none yet, one is built for the
    /// original name.
    pub fn lookup<E>(&mut self, polled: Poll<Refine, ResolveError<E>>) -> (r: Result<
        Progress,
        M::Error,
    >)
        requires
            old(self).wf(),
            old(self).state is Pending,
            forall|name: CanonicalDstAddr| #[trigger] old(self).stack.accepts(name),
        ensures
            final(self).wf(),
            Self::same_target(*old(self), *final(self)),
            r is Err ==> final(self).state is Pending && Self::keeps_service(
                *old(self),
                *final(self),
            ),
            r matches Err(e) ==> old(self).fails_for(
                match polled {
                    Ok(Async::Ready(refine)) => refine.name.text@,
                    _ => old(self).original_addr.name@,
                },
                e,
            ),
            match polled {
                Ok(Async::NotReady) => r == Ok::<Progress, M::Error>(Progress::Wait) && *final(self)
                    == *old(self),
                Ok(Async::Ready(refine)) => r is Ok ==> {
                    &&& r == Ok::<Progress, M::Error>(Progress::StartTimer)
                    &&& final(self).state == State::ValidUntil(Deadline::At(refine.valid_until))
                    &&& final(self).serves(refine.name.text@, old(self).original_addr.port)
                    &&& old(self).serves(refine.name.text@, old(self).original_addr.port)
                        ==> Self::keeps_service(*old(self), *final(self))
                },
                Err(e) => r is Ok ==> {
                    &&& r == Ok::<Progress, M::Error>(Progress::StartTimer)
                    &&& final(self).state == State::ValidUntil(error_deadline(e))
                    &&& if old(self).service is Some {
                        Self::keeps_service(*old(self), *final(self))
                    } else {
                        final(self).service_name == Some(
                            CanonicalDstAddr { addr: Addr::Name(old(self).original_addr) },
                        )
                    }
                },
            },
            polled is Err && old(self).service is Some ==> r is Ok,
            polled matches Ok(Async::Ready(refine)) ==> old(self).serves(
                refine.name.text@,
                old(self).original_addr.port,
            ) ==> r is Ok,
            old(self).service is Some ==> final(self).service is Some,
    {
        match polled {
            Ok(Async::NotReady) => Ok(Progress::Wait),
            Ok(Async::Ready(refine)) => {
                let addr = NameAddr { name: refine.name.text, port: self.original_addr.port };
                let service_name = CanonicalDstAddr { addr: Addr::Name(addr) };
                let ghost dst = service_name;
                match self.use_name(service_name) {
                    Ok(()) => {
                        self.state = State::ValidUntil(Deadline::At(refine.valid_until));
                        Ok(Progress::StartTimer)
                    },
                    Err(e) => {
                        assert(old(self).stack.makes(dst, Err(e)));
                        Err(e)
                    },
                }
            },
            Err(e) => {
                if self.service.is_none() {
                    let service_name = CanonicalDstAddr {
                        addr: Addr::Name(self.original_addr.clone()),
                    };
                    let ghost dst = service_name;
                    match self.use_name(service_name) {
                        Ok(()) => {},
                        Err(e) => {
                            assert(old(self).stack.makes(dst, Err(e)));
                            return Err(e);
                        },
                    }
                }
                let deadline = match e {
                    ResolveError::NoRecordsFound { valid_until: Some(at) } => Deadline::At(at),
                    _ => Deadline::After(Duration::from_secs(DNS_ERROR_TTL_SECS)),
                };
                self.state = State::ValidUntil(deadline);
                Ok(Progress::StartTimer)
            },
        }
    }

    /// Handles what came of polling the timer: when an answer has expired, the name is looked
    /// up again.
    pub fn timer(&mut self, expired: bool) -> (r: Progress)
        requires
            old(self).wf(),
            old(self).state is ValidUntil,
        ensures
            final(self).wf(),
            Self::same_target(*old(self), *final(self)),
            Self::keeps_service(*old(self), *final(self)),
            if expired {
                r == Progress::StartLookup && final(self).state is Pending
            } else {
                r == Progress::Wait && *final(self) == *old(self)
            },
    {
        if expired {
            self.state = State::Pending;
            Progress::StartLookup
        } else {
            Progress::Wait
        }
    }

    /// Lends out the service, if there is one yet.
    pub fn service(&self) -> (r: Option<&M::Value>)
        ensures
            r == match self.service {
                Some(service) => Some(&service),
                None => None,
            },
    {
        match &self.service {
            Some(service) => Some(service),
            None => None,
        }
    }
}

/// An answer is used: once it has come, the service is the one for the name in it, with the port
/// of the original, and the answer stands until the time in it. If there was a service for that
/// name already, it stays.
pub proof fn canonical_names_are_used<R, M: stack::Stack<CanonicalDstAddr>, E>(
    service: &mut Service<R, M>,
    refine: Refine,
    progress: Progress,
)
    requires
        call_ensures(
            Service::<R, M>::lookup::<E>,
            (service, Ok::<Async<Refine>, ResolveError<E>>(Async::Ready(refine))),
            Ok(progress),
        ),
    ensures
        progress == Progress::StartTimer,
        final(service).state == State::ValidUntil(Deadline::At(refine.valid_until)),
        final(service).service is Some,
        final(service).service_name matches Some(dst) && dst.addr matches Addr::Name(addr)
            && addr.name@ == refine.name.text@ && addr.port == old(service).original_addr.port,
        final(service).stack.makes(
            final(service).service_name->0,
            Ok(final(service).service->0),
        ),
        old(service).service_name matches Some(dst) ==> dst.addr matches Addr::Name(addr)
            ==> addr.name@ == refine.name.text@ ==> addr.port == old(service).original_addr.port
            ==> final(service).service == old(service).service,
        final(service).original_addr == old(service).original_addr,
{
}

/// A lookup that fails costs nothing: the service that there is stays. Only if there is none yet,
/// one is built for the original name. The name is looked up again in five seconds, or when the
/// answer that there are no records expires, if that is told.
pub proof fn failed_lookups_keep_the_service<R, M: stack::Stack<CanonicalDstAddr>, E>(
    service: &mut Service<R, M>,
    err: ResolveError<E>,
    r: Result<Progress, M::Error>,
)
    requires
        call_ensures(
            Service::<R, M>::lookup::<E>,
            (service, Err::<Async<Refine>, ResolveError<E>>(err)),
            r,
        ),
    ensures
        old(service).service is Some ==> r == Ok::<Progress, M::Error>(Progress::StartTimer)
            && final(service).service == old(service).service && final(service).service_name
            == old(service).service_name,
        old(service).service is None && r is Ok ==> final(service).service_name == Some(
            CanonicalDstAddr { addr: Addr::Name(old(service).original_addr) },
        ),
        r is Ok ==> (err matches ResolveError::NoRecordsFound { valid_until: Some(at) }
            ==> final(service).state == State::ValidUntil(Deadline::At(at))),
        r is Ok ==> !(err matches ResolveError::NoRecordsFound { valid_until: Some(_) })
            ==> final(service).state == State::ValidUntil(
            Deadline::After(Duration { secs: 5, nanos: 0 }),
        ),
        final(service).original_addr == old(service).original_addr,
{
}

/// Nothing changes while there is no answer. No service is ever lost, and one that cannot be built
/// leaves the one that there is in place, still waiting for an answer.
pub proof fn services_are_never_lost<R, M: stack::Stack<CanonicalDstAddr>, E>(
    service: &mut Service<R, M>,
    polled: Poll<Refine, ResolveError<E>>,
    r: Result<Progress, M::Error>,
)
    requires
        call_ensures(Service::<R, M>::lookup::<E>, (service, polled), r),
    ensures
        polled matches Ok(Async::NotReady) ==> r == Ok::<Progress, M::Error>(Progress::Wait)
            && *final(service) == *old(service),
        old(service).service is Some ==> final(service).service is Some,
        r is Err ==> final(service).service == old(service).service
            && final(service).service_name == old(service).service_name
            && final(service).state is Pending,
        r == Ok::<Progress, M::Error>(Progress::Wait) ==> (polled matches Ok(Async::NotReady)),
        r != Ok::<Progress, M::Error>(Progress::StartLookup),
{
}

/// The name is looked up again exactly when an answer has expired, and the service stays
/// meanwhile.
pub proof fn expired_answers_are_looked_up_again<R, M: stack::Stack<CanonicalDstAddr>>(
    service: &mut Service<R, M>,
    expired: bool,
    r: Progress,
)
    requires
        call_ensures(Service::<R, M>::timer, (service, expired), r),
    ensures
        expired <==> r == Progress::StartLookup,
        !expired <==> r == Progress::Wait,
        expired ==> final(service).state is Pending,
        !expired ==> final(service).state == old(service).state,
        final(service).service == old(service).service,
        final(service).service_name == old(service).service_name,
        final(service).original_addr == old(service).original_addr,
{
}

/// Names are looked up before a service is built for them, and addresses are used as they are.
pub proof fn only_names_are_looked_up<R: Clone, M: stack::Stack<CanonicalDstAddr> + Clone>(
    stack: Stack<R, M>,
    dst: DstAddr,
    r: Result<Either<Service<R, M>, M::Value>, M::Error>,
)
    requires
        call_ensures(<Stack<R, M> as stack::Stack<DstAddr>>::make, (&stack, &dst), r),
    ensures
        dst.addr matches Addr::Name(name) ==> (r matches Ok(Either::A(service))
            && service.original_addr == name && service.service is None && service.state
            is Pending),
        dst.addr is Socket ==> match r {
            Ok(Either::A(_)) => false,
            Ok(Either::B(service)) => stack.inner.makes(
                CanonicalDstAddr { addr: dst.addr },
                Ok(service),
            ),
            Err(e) => stack.inner.makes(CanonicalDstAddr { addr: dst.addr }, Err(e)),
        },
{
}

} // verus!
