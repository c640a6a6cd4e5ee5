//! Connections that are established anew when they fail.
use crate::stack::new_service::MakeNewService;
use crate::stack::Stack;
use vstd::prelude::*;

verus! {

/// Builds services that reconnect.
#[derive(Debug)]
pub struct Reconnect<N> {
    pub inner: N,
}

impl<N: Clone> Clone for Reconnect<N> {
    fn clone(&self) -> (r: Self)
        ensures
            cloned(self.inner, r.inner),
    {
        Reconnect { inner: self.inner.clone() }
    }
}

/// A service that reconnects.
pub struct ReconnectService<T, N> {
    /// Establishes connections.
    pub new_service: MakeNewService<T, N>,
    /// Prevents logging repeated connect errors.
    ///
    /// Set back to false after a connect succeeds, to log about future errors.
    pub mute_connect_error_log: bool,
}

impl<N> Reconnect<N> {
    /// Builds a service that connects to a target.
    pub fn make_service<T: Clone>(&self, config: &T) -> (s: ReconnectService<T, N>) where
        N: Stack<T> + Clone,

        ensures
            cloned(self.inner, s.new_service.make),
            cloned(*config, s.new_service.target),
            !s.mute_connect_error_log,
    {
        ReconnectService {
            new_service: MakeNewService::new(self.inner.clone(), config.clone()),
            mute_connect_error_log: false,
        }
    }
}

/// What came of polling the connection for readiness.
#[derive(Debug)]
pub enum Polled<I, C> {
    NotReady,
    Ready,
    /// The established connection failed.
    Inner(I),
    /// No connection could be established.
    Connect(C),
}

/// How a connect error is logged.
#[derive(Clone, Copy, Debug, PartialEq, Eq, Structural)]
pub enum Level {
    Warn,
    Debug,
}

/// What to report of readiness.
#[derive(Debug)]
pub enum Readiness<I, C> {
    NotReady,
    Ready,
    Failed(I),
    /// Not ready. The error is logged, and the task is scheduled to be polled again, so
    /// that a new connection is attempted only if the caller decides not to drop the
    /// service. This prevents busy-looping when the connect error is instantaneous.
    Retry { err: C, level: Level },
}

/// Whether a connect error is still to be muted after `polled`, if it was before.
pub open spec fn mutes<I, C>(muted: bool, polled: Polled<I, C>) -> bool {
    match polled {
        Polled::NotReady => muted,
        Polled::Ready => false,
        Polled::Inner(_) => false,
        Polled::Connect(_) => true,
    }
}

/// What is reported of `polled`. Connect errors are no failures, and only the first of
/// them warns.
pub open spec fn readiness<I, C>(muted: bool, polled: Polled<I, C>) -> Readiness<I, C> {
    match polled {
        Polled::NotReady => Readiness::NotReady,
        Polled::Ready => Readiness::Ready,
        Polled::Inner(err) => Readiness::Failed(err),
        Polled::Connect(err) => Readiness::Retry {
            err,
            level: if muted {
                Level::Debug
            } else {
                Level::Warn
            },
        },
    }
}

impl<T, N> ReconnectService<T, N> {
    /// Decides what to report when the connection has been polled for readiness.
    pub fn poll_ready<I, C>(&mut self, polled: Polled<I, C>) -> (r: Readiness<I, C>)
        ensures
            r == readiness(old(self).mute_connect_error_log, polled),
            final(self).mute_connect_error_log == mutes(old(self).mute_connect_error_log, polled),
            final(self).new_service == old(self).new_service,
    {
        match polled {
            Polled::NotReady => Readiness::NotReady,
            Polled::Ready => {
                self.mute_connect_error_log = false;
                Readiness::Ready
            },
            Polled::Inner(err) => {
                self.mute_connect_error_log = false;
                Readiness::Failed(err)
            },
            Polled::Connect(err) => if !self.mute_connect_error_log {
                self.mute_connect_error_log = true;
                Readiness::Retry { err, level: Level::Warn }
            } else {
                Readiness::Retry { err, level: Level::Debug }
            },
        }
    }
}

/// Whether a report warns.
pub open spec fn is_warning<I, C>(r: Readiness<I, C>) -> bool {
    r matches Readiness::Retry { level: Level::Warn, .. }
}

/// Whether a connect error is muted after a number of polls.
pub open spec fn muted_after<I, C>(muted: bool, polls: Seq<Polled<I, C>>) -> bool
    decreases polls.len(),
{
    if polls.len() == 0 {
        muted
    } else {
        mutes(muted_after(muted, polls.drop_last()), polls.last())
    }
}

/// What is reported of the last of a number of polls.
pub open spec fn last_report<I, C>(muted: bool, polls: Seq<Polled<I, C>>) -> Readiness<I, C>
    recommends
        polls.len() > 0,
{
    readiness(muted_after(muted, polls.drop_last()), polls.last())
}

/// As long as no connection is established, connect errors warn at most once: if the `i`th
/// poll warned and there was none since that found a connection, the `j`th does not warn.
pub proof fn warns_once_per_outage<I, C>(muted: bool, polls: Seq<Polled<I, C>>, i: int, j: int)
    requires
        0 <= i < j < polls.len(),
        is_warning(last_report(muted, polls.take(i + 1))),
        forall|k: int|
            i < k < j ==> (#[trigger] polls[k] is NotReady || polls[k] is Connect),
    ensures
        !is_warning(last_report(muted, polls.take(j + 1))),
{
    lemma_stays_muted(muted, polls, i, j);
    assert(polls.take(j + 1).drop_last() =~= polls.take(j));
}

/// The first connect error warns: the first of all, unless they are muted to begin with, and
/// the first since a poll that found a connection, be it ready or failed.
pub proof fn first_error_of_an_outage_warns<I, C>(
    muted: bool,
    polls: Seq<Polled<I, C>>,
    i: int,
    j: int,
)
    requires
        -1 <= i < j < polls.len(),
        i == -1 ==> !muted,
        i >= 0 ==> (polls[i] is Ready || polls[i] is Inner),
        forall|k: int| i < k < j ==> !(#[trigger] polls[k] is Connect),
        polls[j] is Connect,
    ensures
        is_warning(last_report(muted, polls.take(j + 1))),
{
    lemma_stays_unmuted(muted, polls, i, j);
    assert(polls.take(j + 1).drop_last() =~= polls.take(j));
}

proof fn lemma_stays_unmuted<I, C>(muted: bool, polls: Seq<Polled<I, C>>, i: int, j: int)
    requires
        -1 <= i < j <= polls.len(),
        i == -1 ==> !muted,
        i >= 0 ==> (polls[i] is Ready || polls[i] is Inner),
        forall|k: int| i < k < j ==> !(#[trigger] polls[k] is Connect),
    ensures
        !muted_after(muted, polls.take(j)),
    decreases j,
{
    if j > 0 {
        assert(polls.take(j).drop_last() =~= polls.take(j - 1));
        assert(polls.take(j).last() == polls[j - 1]);
        if i + 1 < j {
            lemma_stays_unmuted(muted, polls, i, j - 1);
        }
    }
}

proof fn lemma_stays_muted<I, C>(muted: bool, polls: Seq<Polled<I, C>>, i: int, j: int)
    requires
        0 <= i < j < polls.len(),
        polls[i] is Connect,
        forall|k: int|
            i < k < j ==> (#[trigger] polls[k] is NotReady || polls[k] is Connect),
    ensures
        muted_after(muted, polls.take(j)),
    decreases j,
{
    assert(polls.take(j).drop_last() =~= polls.take(j - 1));
    assert(polls.take(j).last() == polls[j - 1]);
    if i + 1 < j {
        lemma_stays_muted(muted, polls, i, j - 1);
    }
}

/// A service that fails to connect is not failed: it is not ready, and will try again. Only a
/// connection that breaks makes it fail, and only one that is there makes it ready.
pub proof fn connect_errors_are_no_failures<T, N, I, C>(
    service: &mut ReconnectService<T, N>,
    polled: Polled<I, C>,
    r: Readiness<I, C>,
)
    requires
        call_ensures(ReconnectService::<T, N>::poll_ready::<I, C>, (service, polled), r),
    ensures
        r is Ready <==> polled is Ready,
        r is NotReady <==> polled is NotReady,
        r is Failed <==> polled is Inner,
        r is Retry <==> polled is Connect,
        polled matches Polled::Inner(e) ==> r == Readiness::<I, C>::Failed(e),
        polled matches Polled::Connect(e) ==> r matches Readiness::Retry { err, .. } ==> err == e,
        final(service).new_service == old(service).new_service,
{
}

/// Of two connect errors with nothing but waiting in between, the first may warn and the second
/// does not. After a connection was there, ready or broken, the next connect error warns.
pub proof fn warnings_follow_connections<T, N, I, C>(
    service: &mut ReconnectService<T, N>,
    polled: Polled<I, C>,
    r: Readiness<I, C>,
    after: &mut ReconnectService<T, N>,
    e: C,
    s: Readiness<I, C>,
)
    requires
        call_ensures(ReconnectService::<T, N>::poll_ready::<I, C>, (service, polled), r),
        *old(after) == *final(service),
        call_ensures(
            ReconnectService::<T, N>::poll_ready::<I, C>,
            (after, Polled::<I, C>::Connect(e)),
            s,
        ),
    ensures
        polled is Connect ==> s == (Readiness::<I, C>::Retry { err: e, level: Level::Debug }),
        polled is Ready || polled is Inner ==> s == (Readiness::<I, C>::Retry {
            err: e,
            level: Level::Warn,
        }),
        polled is NotReady ==> *final(service) == *old(service),
{
}

/// A service that reconnects connects to its target, and the first connect error of a new one
/// warns.
pub proof fn new_services_warn_first<N: Stack<T> + Clone, T: Clone, I, C>(
    reconnect: Reconnect<N>,
    config: T,
    service: ReconnectService<T, N>,
    polled: &mut ReconnectService<T, N>,
    e: C,
    r: Readiness<I, C>,
)
    requires
        call_ensures(Reconnect::<N>::make_service::<T>, (&reconnect, &config), service),
        *old(polled) == service,
        call_ensures(
            ReconnectService::<T, N>::poll_ready::<I, C>,
            (polled, Polled::<I, C>::Connect(e)),
            r,
        ),
    ensures
        cloned(config, service.new_service.target),
        cloned(reconnect.inner, service.new_service.make),
        r == (Readiness::<I, C>::Retry { err: e, level: Level::Warn }),
{
}

} // verus!
