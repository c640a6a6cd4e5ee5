//! Connects taps to the services that record them.
//!
//! Services and taps come and go. The daemon tells each service of every active tap, and each
//! new tap to every service. Reaching a service and telling whether a tap is still active are
//! up to the caller.
use crate::poll::Async;
use crate::sender::{Sender, Sent};
use std::collections::VecDeque;
use vstd::prelude::*;

verus! {

/// The number of pending registrations that may be buffered.
pub const REGISTER_BUFFER_CAPACITY: usize = 16;

/// The number of pending taps that may be buffered.
pub const TAP_BUFFER_CAPACITY: usize = 16;

/// The number of tap requests a given layer may buffer before consuming.
pub const REGISTER_TAPS_BUFFER_CAPACITY: usize = 16;

/// What a deque holds after an element is removed and the last takes its place.
pub open spec fn swap_removed<T>(s: Seq<T>, i: int) -> Seq<T> {
    s.update(i, s.last()).drop_last()
}

/// Calls `VecDeque::swap_remove_back`, which removes an element from anywhere in the deque,
/// replacing it with the last element.
#[verifier::external_body]
fn swap_remove_back<T>(deque: &mut VecDeque<T>, i: usize) -> (r: Option<T>)
    requires
        i < old(deque)@.len(),
    ensures
        final(deque)@ == swap_removed(old(deque)@, i as int),
        r == Some(old(deque)@[i as int]),
{
    deque.swap_remove_back(i)
}

/// Knows all services, each by an `S` through which it is reached, and all taps.
pub struct Daemon<S, T> {
    pub svcs: VecDeque<S>,
    pub taps: VecDeque<T>,
}

/// The elements for which a test gave `true`, in order.
pub open spec fn selected<T>(s: Seq<T>, keep: Seq<bool>) -> Seq<T>
    decreases s.len(),
{
    if s.len() == 0 {
        Seq::empty()
    } else {
        let before = selected(s.drop_last(), keep.drop_last());
        if keep.last() {
            before.push(s.last())
        } else {
            before
        }
    }
}

/// What a deque holds once the first `n` elements have been tested from the back, and each for
/// which the test gave `false` was replaced with the last.
pub open spec fn swept<T>(s: Seq<T>, keep: Seq<bool>, n: int) -> Seq<T>
    decreases n,
{
    if n <= 0 {
        s
    } else if keep[n - 1] {
        swept(s, keep, n - 1)
    } else {
        swept(swap_removed(s, n - 1), keep, n - 1)
    }
}

/// Whether `live` may be the outcomes of testing each of the taps.
pub open spec fn tests<T, L: Fn(&T) -> bool>(is_live: L, taps: Seq<T>, live: Seq<bool>) -> bool {
    &&& live.len() == taps.len()
    &&& forall|i: int|
        0 <= i < taps.len() ==> call_ensures(is_live, (&taps[i],), #[trigger] live[i])
}

/// Whether `post` may be what remains of `pre` after those that are not active were dropped.
pub open spec fn is_retained<T, L: Fn(&T) -> bool>(is_live: L, pre: Seq<T>, post: Seq<T>) -> bool {
    exists|live: Seq<bool>| #[trigger] tests(is_live, pre, live) && post == selected(pre, live)
}

/// Drops those that are not active from a deque. The others keep their order.
pub fn retain_live<T, L: Fn(&T) -> bool>(deque: &mut VecDeque<T>, is_live: &L)
    requires
        forall|t: T| #[trigger] call_requires(*is_live, (&t,)),
    ensures
        is_retained(*is_live, old(deque)@, final(deque)@),
{
    let ghost all = deque@;
    let ghost mut live: Seq<bool> = Seq::empty();
    let n: usize = deque.len();
    assert(all.take(0) =~= Seq::empty());
    assert(all.skip(0) =~= all);
    for i in 0..n
        invariant
            n == all.len(),
            forall|t: T| #[trigger] call_requires(*is_live, (&t,)),
            tests(*is_live, all.take(i as int), live),
            deque@ == all.skip(i as int) + selected(all.take(i as int), live),
    {
        let ghost before = live;
        assert(deque@[0] == all[i as int]);
        let t: T = match deque.pop_front() {
            Some(t) => t,
            None => vstd::pervasive::unreached(),
        };
        let keep: bool = is_live(&t);
        proof {
            live = live.push(keep);
            assert(live.drop_last() =~= before);
            assert(all.take(i + 1).drop_last() =~= all.take(i as int));
            assert forall|j: int| 0 <= j < all.take(i + 1).len() implies call_ensures(
                *is_live,
                (&all.take(i + 1)[j],),
                #[trigger] live[j],
            ) by {
                if j < i {
                    assert(call_ensures(*is_live, (&all.take(i as int)[j],), before[j]));
                }
            }
        }
        if keep {
            deque.push_back(t);
        }
        assert(deque@ =~= all.skip(i + 1) + selected(all.take(i + 1), live));
    }
    assert(all.take(all.len() as int) =~= all);
    assert(deque@ =~= selected(all, live));
}

/// Whether registering a service sends `sent`, and takes the services from `pre` to `post`: it
/// stays if it could be told of all taps.
pub open spec fn registers<S, T>(
    pre: Seq<S>,
    taps: Seq<T>,
    svc: S,
    sent: Seq<Sent<S, T>>,
    post: Seq<S>,
) -> bool {
    ||| crate::sender::delivers(svc, taps, sent, true) && post == pre.push(svc)
    ||| crate::sender::delivers(svc, taps, sent, false) && post == pre
}

/// Whether `sent` is what is sent to announce a tap: once to each service, from the last to the
/// first.
pub open spec fn announces<S, T>(svcs: Seq<S>, tap: T, sent: Seq<Sent<S, T>>) -> bool {
    &&& sent.len() == svcs.len()
    &&& forall|i: int|
        0 <= i < sent.len() ==> (#[trigger] sent[i]).to == svcs[svcs.len() - 1 - i]
            && sent[i].message == tap
}

/// The outcomes of an announcement, by service.
pub open spec fn outcomes<S, T>(sent: Seq<Sent<S, T>>) -> Seq<bool> {
    Seq::new(sent.len(), |i: int| sent[sent.len() - 1 - i].ok)
}

/// Whether subscribing a tap sends `sent`, and takes the services from `pre` to `post`.
pub open spec fn subscribes<S, T>(
    pre: Seq<S>,
    tap: T,
    sent: Seq<Sent<S, T>>,
    post: Seq<S>,
) -> bool {
    announces(pre, tap, sent) && post == swept(pre, outcomes(sent), sent.len() as int)
}

/// Whether registering services one after the other sends `sent`, and takes the services from
/// `pre` to `post`.
pub open spec fn registers_all<S, T>(
    pre: Seq<S>,
    taps: Seq<T>,
    svcs: Seq<S>,
    sent: Seq<Sent<S, T>>,
    post: Seq<S>,
) -> bool
    decreases svcs.len(),
{
    if svcs.len() == 0 {
        post == pre && sent.len() == 0
    } else {
        exists|mid: Seq<S>, n: int|
            0 <= n <= sent.len() && registers_all(
                pre,
                taps,
                svcs.drop_last(),
                sent.take(n),
                mid,
            ) && #[trigger] registers(mid, taps, svcs.last(), sent.skip(n), post)
    }
}

/// Whether subscribing taps one after the other sends `sent`, and takes the services from `pre`
/// to `post`.
pub open spec fn subscribes_all<S, T>(
    pre: Seq<S>,
    taps: Seq<T>,
    sent: Seq<Sent<S, T>>,
    post: Seq<S>,
) -> bool
    decreases taps.len(),
{
    if taps.len() == 0 {
        post == pre && sent.len() == 0
    } else {
        exists|mid: Seq<S>, n: int|
            0 <= n <= sent.len() && subscribes_all(pre, taps.drop_last(), sent.take(n), mid)
                && #[trigger] subscribes(mid, taps.last(), sent.skip(n), post)
    }
}

/// Whether new services and then new taps send `sent`, and take the daemon from `pre` to `post`,
/// where `kept` are the taps that were active before and `added` those that are active now.
pub open spec fn connects<S, T>(
    pre: Seq<S>,
    kept: Seq<T>,
    svcs: Seq<S>,
    added: Seq<T>,
    sent: Seq<Sent<S, T>>,
    post: Daemon<S, T>,
) -> bool {
    &&& post.taps@ == kept + added
    &&& exists|mid: Seq<S>, n: int|
        0 <= n <= sent.len() && #[trigger] registers_all(pre, kept, svcs, sent.take(n), mid)
            && subscribes_all(mid, added, sent.skip(n), post.svcs@)
}

/// Whether polling the daemon with new services and taps sends `sent`, and takes it from `pre`
/// to `post`.
pub open spec fn polls<S, T, L: Fn(&T) -> bool>(
    pre: Daemon<S, T>,
    svcs: Seq<S>,
    taps: Seq<T>,
    is_live: L,
    sent: Seq<Sent<S, T>>,
    post: Daemon<S, T>,
) -> bool {
    exists|kept: Seq<T>, added: Seq<T>| #[trigger]
        is_retained(is_live, pre.taps@, kept) && #[trigger] is_retained(is_live, taps, added)
            && connects(pre.svcs@, kept, svcs, added, sent, post)
}

impl<S, T> Daemon<S, T> {
    /// No services, and no taps.
    pub fn new() -> (d: Self)
        ensures
            d.svcs@.len() == 0,
            d.taps@.len() == 0,
    {
        Daemon { svcs: VecDeque::new(), taps: VecDeque::new() }
    }

    /// Drops taps that are no longer active.
    pub fn drop_inactive<L: Fn(&T) -> bool>(&mut self, is_live: &L)
        requires
            forall|tap: T| #[trigger] call_requires(*is_live, (&tap,)),
        ensures
            final(self).svcs == old(self).svcs,
            is_retained(*is_live, old(self).taps@, final(self).taps@),
    {
        retain_live(&mut self.taps, is_live);
    }

    /// Connects a newly-created service to active taps.
    ///
    /// The service is notified of all active taps. If there's an error, the
    /// registration is dropped.
    pub fn register<X: Sender<S, T>>(&mut self, svc: S, out: &mut X)
        requires
            old(out).is_open(),
        ensures
            final(out).is_open(),
            final(self).taps == old(self).taps,
            exists|sent: Seq<Sent<S, T>>| #[trigger]
                registers(old(self).svcs@, old(self).taps@, svc, sent, final(self).svcs@)
                    && final(out).log() == old(out).log() + sent,
    {
        let ghost log = out.log();
        let ghost mut sent: Seq<Sent<S, T>> = Seq::empty();
        let mut is_ok: bool = true;
        for i in 0..self.taps.len()
            invariant
                out.is_open(),
                *self == *old(self),
                out.log() == log + sent,
                is_ok ==> sent.len() == i,
                !is_ok ==> 0 < sent.len() <= i,
                forall|j: int|
                    0 <= j < sent.len() ==> #[trigger] sent[j] == (Sent {
                        to: svc,
                        message: self.taps@[j],
                        ok: is_ok || j < sent.len() - 1,
                    }),
        {
            if is_ok {
                is_ok = out.send(&svc, &self.taps[i]);
                proof {
                    sent = sent.push(Sent { to: svc, message: self.taps@[i as int], ok: is_ok });
                    assert(out.log() =~= log + sent);
                }
            }
        }
        let ghost svc_ = svc;
        if is_ok {
            self.svcs.push_back(svc);
        }
        assert(crate::sender::delivers(svc_, self.taps@, sent, is_ok));
        assert(registers(old(self).svcs@, old(self).taps@, svc_, sent, self.svcs@));
    }

    /// Connects a newly-created tap to existing services.
    ///
    /// If the tap can't be sent to a given service, it's assumed that the service has been
    /// dropped, so it is removed from the registry. A tap that is not active any more is
    /// ignored.
    pub fn subscribe<X: Sender<S, T>>(&mut self, tap: T, is_live: bool, out: &mut X)
        requires
            old(out).is_open(),
        ensures
            final(out).is_open(),
            !is_live ==> *final(self) == *old(self) && final(out).log() == old(out).log(),
            is_live ==> {
                &&& final(self).taps@ == old(self).taps@.push(tap)
                &&& exists|sent: Seq<Sent<S, T>>| #[trigger]
                    subscribes(old(self).svcs@, tap, sent, final(self).svcs@)
                        && final(out).log() == old(out).log() + sent
            },
    {
        if !is_live {
            return ;
        }
        let ghost log = out.log();
        let ghost all = self.svcs@;
        let ghost taps = self.taps@;
        let ghost mut sent: Seq<Sent<S, T>> = Seq::empty();
        let n: usize = self.svcs.len();
        let mut idx: usize = n;
        assert(out.log() =~= log + sent);
        while idx > 0
            invariant
                out.is_open(),
                out.log() == log + sent,
                idx <= n,
                n == all.len(),
                sent.len() == n - idx,
                self.taps@ == taps,
                taps == old(self).taps@,
                all == old(self).svcs@,
                idx <= self.svcs@.len() <= n,
                forall|j: int| 0 <= j < idx ==> self.svcs@[j] == all[j],
                forall|j: int|
                    0 <= j < sent.len() ==> (#[trigger] sent[j]).to == all[n - 1 - j]
                        && sent[j].message == tap,
                forall|done: Seq<bool>|
                    done.len() == n && (forall|j: int|
                        idx <= j < n ==> done[j] == (#[trigger] sent[n - 1 - j]).ok)
                        ==> #[trigger] swept(all, done, n as int) == swept(
                        self.svcs@,
                        done,
                        idx as int,
                    ),
            decreases idx,
        {
            let ghost before = self.svcs@;
            let ghost known = sent;
            let ghost from = idx as int;
            idx = idx - 1;
            let ok: bool = out.send(&self.svcs[idx], &tap);
            proof {
                sent = sent.push(Sent { to: all[idx as int], message: tap, ok });
                assert(out.log() =~= log + sent);
            }
            if !ok {
                let _ = swap_remove_back(&mut self.svcs, idx);
            }
            proof {
                assert forall|done: Seq<bool>|
                    done.len() == n && (forall|j: int|
                        idx <= j < n ==> done[j] == (#[trigger] sent[n - 1 - j]).ok) implies
                    #[trigger] swept(all, done, n as int) == swept(
                    self.svcs@,
                    done,
                    idx as int,
                ) by {
                    assert forall|j: int| from <= j < n implies done[j] == (
                    #[trigger] known[n - 1 - j]).ok by {
                        assert(sent[n - 1 - j] == known[n - 1 - j]);
                    }
                    assert(sent[n - 1 - idx].ok == ok);
                    assert(done[idx as int] == ok);
                    assert(swept(all, done, n as int) == swept(before, done, from));
                }
            }
        }
        let ghost tap_ = tap;
        self.taps.push_back(tap);
        proof {
            let done = outcomes(sent);
            assert forall|j: int| 0 <= j < n implies done[j] == (#[trigger] sent[n - 1 - j]).ok by {}
            assert(swept(all, done, n as int) == swept(self.svcs@, done, 0));
            assert(announces(all, tap_, sent));
            assert(subscribes(all, tap_, sent, self.svcs@));
        }
    }

    /// Drops taps that are no longer active, connects newly-created services to active taps,
    /// and then newly-created taps to existing services. There is always more to come.
    pub fn poll<L: Fn(&T) -> bool, X: Sender<S, T>>(
        &mut self,
        new_svcs: Vec<S>,
        new_taps: Vec<T>,
        is_live: &L,
        out: &mut X,
    ) -> (r: Async<()>)
        requires
            old(out).is_open(),
            forall|tap: T| #[trigger] call_requires(*is_live, (&tap,)),
        ensures
            r is NotReady,
            final(out).is_open(),
            exists|sent: Seq<Sent<S, T>>| #[trigger]
                polls(*old(self), new_svcs@, new_taps@, *is_live, sent, *final(self))
                    && final(out).log() == old(out).log() + sent,
    {
        let ghost log = out.log();
        let ghost pre = self.svcs@;
        let ghost svcs = new_svcs@;
        let ghost taps = new_taps@;
        self.drop_inactive(is_live);
        let ghost kept = self.taps@;
        let ghost mut sent: Seq<Sent<S, T>> = Seq::empty();
        assert(out.log() =~= log + sent);
        for svc in it: new_svcs
            invariant
                out.is_open(),
                it.seq() == svcs,
                self.taps@ == kept,
                out.log() == log + sent,
                registers_all(pre, kept, svcs.take(it.index()), sent, self.svcs@),
        {
            let ghost i = it.index();
            let ghost mid = self.svcs@;
            let ghost before = sent;
            self.register(svc, out);
            proof {
                let more = choose|more: Seq<Sent<S, T>>| #[trigger]
                    registers(mid, kept, svcs[i], more, self.svcs@) && out.log() == (log + before)
                        + more;
                sent = before + more;
                assert(out.log() =~= log + sent);
                assert(sent.take(before.len() as int) =~= before);
                assert(sent.skip(before.len() as int) =~= more);
                assert(svcs.take(i + 1).drop_last() =~= svcs.take(i));
                assert(registers(
                    mid,
                    kept,
                    svcs.take(i + 1).last(),
                    sent.skip(before.len() as int),
                    self.svcs@,
                ));
            }
        }
        assert(svcs.take(svcs.len() as int) =~= svcs);
        let ghost mid = self.svcs@;
        let ghost first = sent;
        let ghost mut second: Seq<Sent<S, T>> = Seq::empty();
        let ghost mut live: Seq<bool> = Seq::empty();
        assert(taps.take(0) =~= Seq::empty());
        assert(kept + selected(taps.take(0), live) =~= kept);
        assert(out.log() =~= log + first + second);
        for tap in it: new_taps
            invariant
                out.is_open(),
                it.seq() == taps,
                tests(*is_live, taps.take(it.index()), live),
                self.taps@ == kept + selected(taps.take(it.index()), live),
                out.log() == log + first + second,
                subscribes_all(mid, selected(taps.take(it.index()), live), second, self.svcs@),
                forall|tap: T| #[trigger] call_requires(*is_live, (&tap,)),
        {
            let ghost i = it.index();
            let ghost before = live;
            let ghost sent_before = second;
            let ghost added = selected(taps.take(i), live);
            let ghost from = self.svcs@;
            let keep: bool = is_live(&tap);
            proof {
                live = live.push(keep);
                assert(live.drop_last() =~= before);
                assert(taps.take(i + 1).drop_last() =~= taps.take(i));
                assert forall|j: int| 0 <= j < taps.take(i + 1).len() implies call_ensures(
                    *is_live,
                    (&taps.take(i + 1)[j],),
                    #[trigger] live[j],
                ) by {
                    if j < i {
                        assert(call_ensures(*is_live, (&taps.take(i)[j],), before[j]));
                    }
                }
            }
            let ghost new_tap = tap;
            self.subscribe(tap, keep, out);
            proof {
                if keep {
                    let more = selected(taps.take(i + 1), live);
                    let news = choose|news: Seq<Sent<S, T>>| #[trigger]
                        subscribes(from, new_tap, news, self.svcs@) && out.log() == (log + first
                            + sent_before) + news;
                    second = sent_before + news;
                    assert(out.log() =~= log + first + second);
                    assert(second.take(sent_before.len() as int) =~= sent_before);
                    assert(second.skip(sent_before.len() as int) =~= news);
                    assert(more =~= added.push(new_tap));
                    assert(more.drop_last() =~= added);
                    assert(subscribes(
                        from,
                        more.last(),
                        second.skip(sent_before.len() as int),
                        self.svcs@,
                    ));
                    assert(self.taps@ =~= kept + more);
                }
            }
        }
        proof {
            assert(taps.take(taps.len() as int) =~= taps);
            let added = selected(taps, live);
            let all = first + second;
            assert(all.take(first.len() as int) =~= first);
            assert(all.skip(first.len() as int) =~= second);
            assert(is_retained(*is_live, taps, added));
            assert(registers_all(pre, kept, svcs, all.take(first.len() as int), mid));
            assert(connects(pre, kept, svcs, added, all, *self));
            assert(polls(*old(self), svcs, taps, *is_live, all, *self));
            assert(out.log() =~= log + all);
        }
        Async::NotReady
    }
}

/// What remains after those that are not active were dropped was there before, and is active.
proof fn lemma_retained<T, L: Fn(&T) -> bool>(is_live: L, pre: Seq<T>, post: Seq<T>)
    requires
        is_retained(is_live, pre, post),
        distinct(pre),
    ensures
        forall|j: int| 0 <= j < post.len() ==> pre.contains(#[trigger] post[j]),
        forall|j: int| 0 <= j < post.len() ==> call_ensures(is_live, (&#[trigger] post[j],), true),
        distinct(post),
{
    let live = choose|live: Seq<bool>| #[trigger]
        tests(is_live, pre, live) && post == selected(pre, live);
    lemma_selected(pre, live);
    lemma_selected_distinct(pre, live);
    let n = pre.len() as int;
    assert forall|j: int| 0 <= j < post.len() implies call_ensures(
        is_live,
        (&#[trigger] post[j],),
        true,
    ) by {
        assert(stays(pre, live, n, post[j]));
        let k = choose|k: int| is_kept_at(pre, live, n, post[j], k);
        assert(call_ensures(is_live, (&pre[k],), live[k]));
    }
}

proof fn lemma_selected<T>(s: Seq<T>, keep: Seq<bool>)
    requires
        s.len() == keep.len(),
    ensures
        forall|j: int|
            0 <= j < selected(s, keep).len() ==> stays(
                s,
                keep,
                s.len() as int,
                #[trigger] selected(s, keep)[j],
            ),
        forall|j: int|
            0 <= j < selected(s, keep).len() ==> s.contains(#[trigger] selected(s, keep)[j]),
    decreases s.len(),
{
    if s.len() > 0 {
        let init = s.drop_last();
        let n = init.len() as int;
        lemma_selected(init, keep.drop_last());
        let before = selected(init, keep.drop_last());
        assert forall|j: int| 0 <= j < selected(s, keep).len() implies stays(
            s,
            keep,
            s.len() as int,
            #[trigger] selected(s, keep)[j],
        ) && s.contains(selected(s, keep)[j]) by {
            if j < before.len() {
                assert(stays(init, keep.drop_last(), n, before[j]));
                let k = choose|k: int| is_kept_at(init, keep.drop_last(), n, before[j], k);
                assert(s[k] == before[j]);
                assert(is_kept_at(s, keep, s.len() as int, before[j], k));
            } else {
                assert(is_kept_at(s, keep, s.len() as int, selected(s, keep)[j], s.len() - 1));
            }
        }
    }
}

proof fn lemma_swept<T>(s: Seq<T>, keep: Seq<bool>, n: int)
    requires
        0 <= n <= s.len(),
        n <= keep.len(),
    ensures
        swept(s, keep, n).to_multiset() == selected(s.take(n), keep.take(n)).to_multiset().add(
            s.skip(n).to_multiset(),
        ),
    decreases n,
{
    if n == 0 {
        assert(s.skip(0) =~= s);
        assert(selected(s.take(0), keep.take(0)) =~= Seq::empty());
        selected(s.take(0), keep.take(0)).to_multiset_ensures();
        assert(swept(s, keep, n).to_multiset() =~= selected(
            s.take(n),
            keep.take(n),
        ).to_multiset().add(s.skip(n).to_multiset()));
    } else {
        let m = n - 1;
        let before = selected(s.take(m), keep.take(m));
        assert(s.take(n).drop_last() =~= s.take(m));
        assert(keep.take(n).drop_last() =~= keep.take(m));
        if keep[m] {
            lemma_swept(s, keep, m);
            assert(s.skip(m) =~= seq![s[m]] + s.skip(n));
            vstd::seq_lib::lemma_multiset_commutative(seq![s[m]], s.skip(n));
            assert(before.push(s[m]) =~= before + seq![s[m]]);
            vstd::seq_lib::lemma_multiset_commutative(before, seq![s[m]]);
            assert(swept(s, keep, n).to_multiset() =~= selected(
                s.take(n),
                keep.take(n),
            ).to_multiset().add(s.skip(n).to_multiset()));
        } else {
            let t = swap_removed(s, m);
            lemma_swept(t, keep, m);
            assert(t.take(m) =~= s.take(m));
            if n == s.len() {
                assert(t.skip(m) =~= s.skip(n));
            } else {
                let middle = s.subrange(n, s.len() - 1);
                assert(t.skip(m) =~= seq![s.last()] + middle);
                assert(s.skip(n) =~= middle + seq![s.last()]);
                vstd::seq_lib::lemma_multiset_commutative(seq![s.last()], middle);
                vstd::seq_lib::lemma_multiset_commutative(middle, seq![s.last()]);
                assert(t.skip(m).to_multiset() =~= s.skip(n).to_multiset());
            }
        }
    }
}

/// A new tap costs no service its registration but those that could not be told of it: all
/// others stay, in some order.
pub proof fn reachable_services_stay<S, T>(
    svcs: Seq<S>,
    tap: T,
    sent: Seq<Sent<S, T>>,
    post: Seq<S>,
)
    requires
        subscribes(svcs, tap, sent, post),
    ensures
        post.to_multiset() == selected(svcs, outcomes(sent)).to_multiset(),
{
    let n = sent.len() as int;
    let keep = outcomes(sent);
    lemma_swept(svcs, keep, n);
    assert(svcs.take(n) =~= svcs);
    assert(keep.take(n) =~= keep);
    assert(svcs.skip(n) =~= Seq::empty());
    svcs.skip(n).to_multiset_ensures();
    assert(swept(svcs, keep, n).to_multiset() =~= selected(svcs, keep).to_multiset());
}

/// No element occurs twice.
pub open spec fn distinct<A>(s: Seq<A>) -> bool {
    forall|i: int, j: int| 0 <= i < j < s.len() ==> #[trigger] s[i] != #[trigger] s[j]
}

/// Whether the `i`th thing that was sent is a tap, to a service.
pub open spec fn tells_at<S, T>(log: Seq<Sent<S, T>>, i: int, svc: S, tap: T) -> bool {
    0 <= i < log.len() && log[i].to == svc && log[i].message == tap
}

/// Whether a service was told of a tap, exactly once.
pub open spec fn told_once<S, T>(log: Seq<Sent<S, T>>, svc: S, tap: T) -> bool {
    &&& exists|i: int| #[trigger] tells_at(log, i, svc, tap)
    &&& forall|i: int, j: int| #[trigger]
        tells_at(log, i, svc, tap) && #[trigger] tells_at(log, j, svc, tap) ==> i == j
}

/// Whether nothing that was sent to a service failed.
pub open spec fn is_reached<S, T>(log: Seq<Sent<S, T>>, svc: S) -> bool {
    forall|i: int| 0 <= i < log.len() && (#[trigger] log[i]).to == svc ==> log[i].ok
}

/// Each service was told of each tap exactly once, and nothing that was sent to it failed.
pub open spec fn informed<S, T>(svcs: Seq<S>, taps: Seq<T>, log: Seq<Sent<S, T>>) -> bool {
    &&& distinct(svcs)
    &&& distinct(taps)
    &&& forall|i: int, j: int|
        0 <= i < svcs.len() && 0 <= j < taps.len() ==> told_once(
            log,
            #[trigger] svcs[i],
            #[trigger] taps[j],
        )
    &&& forall|i: int| 0 <= i < svcs.len() ==> is_reached(log, #[trigger] svcs[i])
}

/// Whether services are new: none of them is registered, and nothing was sent to one.
pub open spec fn new_services<S, T>(svcs: Seq<S>, more: Seq<S>, log: Seq<Sent<S, T>>) -> bool {
    &&& distinct(more)
    &&& forall|i: int, j: int|
        0 <= i < more.len() && 0 <= j < svcs.len() ==> #[trigger] more[i] != #[trigger] svcs[j]
    &&& forall|i: int, j: int|
        0 <= i < more.len() && 0 <= j < log.len() ==> #[trigger] more[i] != (#[trigger] log[j]).to
}

/// Whether taps are new: none of them is known, and none was sent to anyone.
pub open spec fn new_taps<S, T>(taps: Seq<T>, more: Seq<T>, log: Seq<Sent<S, T>>) -> bool {
    &&& distinct(more)
    &&& forall|i: int, j: int|
        0 <= i < more.len() && 0 <= j < taps.len() ==> #[trigger] more[i] != #[trigger] taps[j]
    &&& forall|i: int, j: int|
        0 <= i < more.len() && 0 <= j < log.len() ==> #[trigger] more[i] != (
        #[trigger] log[j]).message
}

proof fn lemma_selected_distinct<T>(s: Seq<T>, keep: Seq<bool>)
    requires
        s.len() == keep.len(),
        distinct(s),
    ensures
        distinct(selected(s, keep)),
    decreases s.len(),
{
    if s.len() > 0 {
        let init = s.drop_last();
        assert(distinct(init)) by {
            assert forall|i: int, j: int| 0 <= i < j < init.len() implies #[trigger] init[i]
                != #[trigger] init[j] by {
                assert(s[i] != s[j]);
            }
        }
        lemma_selected_distinct(init, keep.drop_last());
        lemma_selected(init, keep.drop_last());
        let before = selected(init, keep.drop_last());
        let all = selected(s, keep);
        assert forall|i: int, j: int| 0 <= i < j < all.len() implies #[trigger] all[i]
            != #[trigger] all[j] by {
            assert(all[i] == before[i]);
            if j == before.len() {
                assert(init.contains(before[i]));
                let k = choose|k: int| 0 <= k < init.len() && init[k] == before[i];
                assert(s[k] == before[i]);
                assert(s[k] != s[s.len() - 1]);
            } else {
                assert(before[i] != before[j]);
            }
        }
    }
}

/// What is left was there before and passed its test, or was not tested. It stays distinct.
proof fn lemma_swept_distinct<S>(s: Seq<S>, keep: Seq<bool>, n: int)
    requires
        distinct(s),
        0 <= n <= s.len(),
        n <= keep.len(),
    ensures
        distinct(swept(s, keep, n)),
        forall|j: int|
            0 <= j < swept(s, keep, n).len() ==> stays(s, keep, n, #[trigger] swept(s, keep, n)[j]),
    decreases n,
{
    if n == 0 {
        assert forall|j: int| 0 <= j < s.len() implies stays(s, keep, n, #[trigger] s[j]) by {
            assert(is_kept_at(s, keep, n, s[j], j));
        }
    } else if keep[n - 1] {
        lemma_swept_distinct(s, keep, n - 1);
        let r = swept(s, keep, n);
        assert forall|j: int| 0 <= j < r.len() implies stays(s, keep, n, #[trigger] r[j]) by {
            assert(stays(s, keep, n - 1, r[j]));
            let last = n - 1;
            let k = choose|k: int| is_kept_at(s, keep, last, r[j], k);
            assert(is_kept_at(s, keep, n, r[j], k));
        }
    } else {
        let t = swap_removed(s, n - 1);
        assert forall|i: int, j: int| 0 <= i < j < t.len() implies #[trigger] t[i]
            != #[trigger] t[j] by {
            assert(s[i] != s[j]);
            assert(s[i] != s[s.len() - 1]);
            assert(s[j] != s[s.len() - 1]);
        }
        lemma_swept_distinct(t, keep, n - 1);
        let r = swept(s, keep, n);
        assert forall|j: int| 0 <= j < r.len() implies stays(s, keep, n, #[trigger] r[j]) by {
            assert(stays(t, keep, n - 1, r[j]));
            let last = n - 1;
            let k = choose|k: int| is_kept_at(t, keep, last, r[j], k);
            let from = if k == n - 1 {
                s.len() - 1
            } else {
                k
            };
            assert(is_kept_at(s, keep, n, r[j], from));
        }
    }
}

/// Whether an element is at a given place, and passed its test or was not tested.
spec fn is_kept_at<S>(s: Seq<S>, keep: Seq<bool>, n: int, x: S, k: int) -> bool {
    0 <= k < s.len() && s[k] == x && (k >= n || keep[k])
}

/// Whether an element passed its test, or was not tested.
spec fn stays<S>(s: Seq<S>, keep: Seq<bool>, n: int, x: S) -> bool {
    exists|k: int| is_kept_at(s, keep, n, x, k)
}

/// What was sent before is where it was.
proof fn lemma_told_before<S, T>(log: Seq<Sent<S, T>>, more: Seq<Sent<S, T>>, svc: S, tap: T)
    requires
        told_once(log, svc, tap),
        forall|i: int|
            0 <= i < more.len() ==> (#[trigger] more[i]).to != svc || more[i].message != tap,
    ensures
        told_once(log + more, svc, tap),
{
    let all = log + more;
    let i = choose|i: int| #[trigger] tells_at(log, i, svc, tap);
    assert(tells_at(all, i, svc, tap));
    assert forall|j: int| #[trigger] tells_at(all, j, svc, tap) implies tells_at(
        log,
        j,
        svc,
        tap,
    ) by {
        if j >= log.len() {
            assert(all[j] == more[j - log.len()]);
        }
    }
    assert forall|j: int, k: int| #[trigger]
        tells_at(all, j, svc, tap) && #[trigger] tells_at(all, k, svc, tap) implies j == k by {
        assert(tells_at(log, j, svc, tap) && tells_at(log, k, svc, tap));
    }
}

/// What was sent for the first time is in the news.
proof fn lemma_told_now<S, T>(
    log: Seq<Sent<S, T>>,
    more: Seq<Sent<S, T>>,
    svc: S,
    tap: T,
    i: int,
)
    requires
        tells_at(more, i, svc, tap),
        forall|j: int| tells_at(more, j, svc, tap) ==> j == i,
        forall|j: int|
            0 <= j < log.len() ==> (#[trigger] log[j]).to != svc || log[j].message != tap,
    ensures
        told_once(log + more, svc, tap),
{
    let all = log + more;
    assert(all[log.len() + i] == more[i]);
    assert(tells_at(all, log.len() + i, svc, tap));
    assert forall|j: int| #[trigger] tells_at(all, j, svc, tap) implies j == log.len() + i by {
        if j < log.len() {
            assert(all[j] == log[j]);
        } else {
            assert(all[j] == more[j - log.len()]);
            assert(tells_at(more, j - log.len(), svc, tap));
        }
    }
}

proof fn lemma_register<S, T>(
    pre: Seq<S>,
    taps: Seq<T>,
    svc: S,
    sent: Seq<Sent<S, T>>,
    post: Seq<S>,
    log: Seq<Sent<S, T>>,
)
    requires
        informed(pre, taps, log),
        new_services(pre, seq![svc], log),
        registers(pre, taps, svc, sent, post),
    ensures
        informed(post, taps, log + sent),
{
    let all = log + sent;
    let one = seq![svc];
    assert(one[0] == svc);
    assert forall|i: int, j: int| 0 <= i < j < post.len() implies #[trigger] post[i]
        != #[trigger] post[j] by {
        assert(post[i] == pre[i]);
        if j < pre.len() {
            assert(pre[i] != pre[j]);
        } else {
            assert(one[0] != pre[i]);
        }
    }
    assert forall|i: int, j: int| 0 <= i < post.len() && 0 <= j < taps.len() implies told_once(
        all,
        #[trigger] post[i],
        #[trigger] taps[j],
    ) by {
        if i < pre.len() {
            assert(post[i] == pre[i] && one[0] != pre[i]);
            assert(told_once(log, pre[i], taps[j]));
            lemma_told_before(log, sent, pre[i], taps[j]);
        } else {
            assert(sent[j].to == svc && sent[j].message == taps[j]);
            assert(tells_at(sent, j, svc, taps[j]));
            assert forall|k: int| tells_at(sent, k, svc, taps[j]) implies k == j by {
                assert(sent[k].message == taps[k]);
                if k < j {
                    assert(taps[k] != taps[j]);
                } else if j < k {
                    assert(taps[j] != taps[k]);
                }
            }
            assert forall|k: int| 0 <= k < log.len() implies (#[trigger] log[k]).to != svc
                || log[k].message != taps[j] by {
                assert(one[0] != log[k].to);
            }
            lemma_told_now(log, sent, svc, taps[j], j);
        }
    }
    assert forall|i: int| 0 <= i < post.len() implies is_reached(all, #[trigger] post[i]) by {
        assert forall|k: int|
            0 <= k < all.len() && (#[trigger] all[k]).to == post[i] implies all[k].ok by {
            if k < log.len() {
                assert(all[k] == log[k]);
                if i < pre.len() {
                    assert(is_reached(log, pre[i]));
                } else {
                    assert(one[0] != log[k].to);
                }
            } else {
                assert(all[k] == sent[k - log.len()]);
                if i < pre.len() {
                    assert(one[0] != pre[i]);
                }
            }
        }
    }
}

proof fn lemma_subscribe<S, T>(
    pre: Seq<S>,
    taps: Seq<T>,
    tap: T,
    sent: Seq<Sent<S, T>>,
    post: Seq<S>,
    log: Seq<Sent<S, T>>,
)
    requires
        informed(pre, taps, log),
        new_taps(taps, seq![tap], log),
        subscribes(pre, tap, sent, post),
    ensures
        informed(post, taps.push(tap), log + sent),
        forall|j: int| 0 <= j < post.len() ==> pre.contains(#[trigger] post[j]),
{
    let n = sent.len() as int;
    let all = log + sent;
    let one = seq![tap];
    let more = taps.push(tap);
    assert(one[0] == tap);
    lemma_swept_distinct(pre, outcomes(sent), n);
    assert forall|i: int, j: int| 0 <= i < j < more.len() implies #[trigger] more[i]
        != #[trigger] more[j] by {
        if j < taps.len() {
            assert(taps[i] != taps[j]);
        } else {
            assert(one[0] != taps[i]);
        }
    }
    assert forall|i: int| 0 <= i < post.len() implies {
        &&& pre.contains(#[trigger] post[i])
        &&& is_reached(all, post[i])
        &&& forall|j: int| 0 <= j < more.len() ==> told_once(all, post[i], #[trigger] more[j])
    } by {
        assert(stays(pre, outcomes(sent), n, post[i]));
        let k = choose|k: int| is_kept_at(pre, outcomes(sent), n, post[i], k);
        let at = n - 1 - k;
        assert(pre[k] == post[i]);
        assert(outcomes(sent)[k] == sent[at].ok);
        assert(sent[at].to == pre[k]);
        assert forall|m: int| 0 <= m < n && sent[m].to == pre[k] implies m == at by {
            let q = n - 1 - m;
            assert(sent[m].to == pre[q]);
            if q < k {
                assert(pre[q] != pre[k]);
            } else if k < q {
                assert(pre[k] != pre[q]);
            }
        }
        assert forall|m: int|
            0 <= m < all.len() && (#[trigger] all[m]).to == post[i] implies all[m].ok by {
            if m < log.len() {
                assert(all[m] == log[m]);
                assert(is_reached(log, pre[k]));
            } else {
                assert(all[m] == sent[m - log.len()]);
                assert(sent[m - log.len()].to == pre[k]);
            }
        }
        assert forall|j: int| 0 <= j < more.len() implies told_once(
            all,
            post[i],
            #[trigger] more[j],
        ) by {
            if j < taps.len() {
                assert(one[0] != taps[j]);
                assert(told_once(log, pre[k], taps[j]));
                lemma_told_before(log, sent, pre[k], taps[j]);
            } else {
                assert(tells_at(sent, at, pre[k], tap));
                assert forall|m: int| 0 <= m < log.len() implies (#[trigger] log[m]).to != pre[k]
                    || log[m].message != tap by {
                    assert(one[0] != log[m].message);
                }
                lemma_told_now(log, sent, pre[k], tap, at);
            }
        }
    }
}

proof fn lemma_register_all<S, T>(
    pre: Seq<S>,
    taps: Seq<T>,
    svcs: Seq<S>,
    sent: Seq<Sent<S, T>>,
    post: Seq<S>,
    log: Seq<Sent<S, T>>,
)
    requires
        informed(pre, taps, log),
        new_services(pre, svcs, log),
        registers_all(pre, taps, svcs, sent, post),
    ensures
        informed(post, taps, log + sent),
        forall|i: int| 0 <= i < sent.len() ==> svcs.contains((#[trigger] sent[i]).to),
        forall|i: int| 0 <= i < sent.len() ==> taps.contains((#[trigger] sent[i]).message),
        forall|i: int|
            0 <= i < post.len() ==> pre.contains(#[trigger] post[i]) || svcs.contains(post[i]),
    decreases svcs.len(),
{
    if svcs.len() == 0 {
        assert(log + sent =~= log);
    } else {
        let init = svcs.drop_last();
        let svc = svcs.last();
        let last = svcs.len() - 1;
        let (mid, n) = choose|mid: Seq<S>, n: int|
            0 <= n <= sent.len() && registers_all(pre, taps, init, sent.take(n), mid)
                && #[trigger] registers(mid, taps, svc, sent.skip(n), post);
        let first = sent.take(n);
        let second = sent.skip(n);
        assert(new_services(pre, init, log)) by {
            assert forall|i: int, j: int| 0 <= i < j < init.len() implies #[trigger] init[i]
                != #[trigger] init[j] by {
                assert(svcs[i] != svcs[j]);
            }
            assert forall|i: int, j: int|
                0 <= i < init.len() && 0 <= j < pre.len() implies #[trigger] init[i]
                != #[trigger] pre[j] by {
                assert(svcs[i] != pre[j]);
            }
            assert forall|i: int, j: int|
                0 <= i < init.len() && 0 <= j < log.len() implies #[trigger] init[i] != (
            #[trigger] log[j]).to by {
                assert(svcs[i] != log[j].to);
            }
        }
        lemma_register_all(pre, taps, init, first, mid, log);
        let between = log + first;
        assert(new_services(mid, seq![svc], between)) by {
            let one = seq![svc];
            assert forall|i: int, j: int| 0 <= i < one.len() && 0 <= j < mid.len() implies
                #[trigger] one[i] != #[trigger] mid[j] by {
                if pre.contains(mid[j]) {
                    let k = choose|k: int| 0 <= k < pre.len() && pre[k] == mid[j];
                    assert(svcs[last] != pre[k]);
                } else {
                    let k = choose|k: int| 0 <= k < init.len() && init[k] == mid[j];
                    assert(svcs[k] != svcs[last]);
                }
            }
            assert forall|i: int, j: int| 0 <= i < one.len() && 0 <= j < between.len() implies
                #[trigger] one[i] != (#[trigger] between[j]).to by {
                if j < log.len() {
                    assert(between[j] == log[j]);
                    assert(svcs[last] != log[j].to);
                } else {
                    assert(between[j] == first[j - log.len()]);
                    assert(init.contains(first[j - log.len()].to));
                    let k = choose|k: int| 0 <= k < init.len() && init[k] == between[j].to;
                    assert(svcs[k] != svcs[last]);
                }
            }
        }
        lemma_register(mid, taps, svc, second, post, between);
        assert(log + sent =~= between + second);
        assert forall|i: int| 0 <= i < sent.len() implies svcs.contains((#[trigger] sent[i]).to)
            && taps.contains(sent[i].message) by {
            if i < n {
                assert(sent[i] == first[i]);
                assert(init.contains(first[i].to));
                let k = choose|k: int| 0 <= k < init.len() && init[k] == first[i].to;
                assert(svcs[k] == sent[i].to);
            } else {
                assert(sent[i] == second[i - n]);
                assert(svcs[last] == second[i - n].to);
                assert(taps[i - n] == second[i - n].message);
            }
        }
        assert forall|i: int| 0 <= i < post.len() implies pre.contains(#[trigger] post[i])
            || svcs.contains(post[i]) by {
            if i < mid.len() {
                assert(post[i] == mid[i]);
                if !pre.contains(mid[i]) {
                    let k = choose|k: int| 0 <= k < init.len() && init[k] == mid[i];
                    assert(svcs[k] == post[i]);
                }
            } else {
                assert(svcs[last] == post[i]);
            }
        }
    }
}

proof fn lemma_subscribe_all<S, T>(
    pre: Seq<S>,
    kept: Seq<T>,
    taps: Seq<T>,
    sent: Seq<Sent<S, T>>,
    post: Seq<S>,
    log: Seq<Sent<S, T>>,
)
    requires
        informed(pre, kept, log),
        new_taps(kept, taps, log),
        subscribes_all(pre, taps, sent, post),
    ensures
        informed(post, kept + taps, log + sent),
        forall|i: int| 0 <= i < sent.len() ==> taps.contains((#[trigger] sent[i]).message),
    decreases taps.len(),
{
    if taps.len() == 0 {
        assert(log + sent =~= log);
        assert(kept + taps =~= kept);
    } else {
        let init = taps.drop_last();
        let tap = taps.last();
        let last = taps.len() - 1;
        let (mid, n) = choose|mid: Seq<S>, n: int|
            0 <= n <= sent.len() && subscribes_all(pre, init, sent.take(n), mid)
                && #[trigger] subscribes(mid, tap, sent.skip(n), post);
        let first = sent.take(n);
        let second = sent.skip(n);
        assert(new_taps(kept, init, log)) by {
            assert forall|i: int, j: int| 0 <= i < j < init.len() implies #[trigger] init[i]
                != #[trigger] init[j] by {
                assert(taps[i] != taps[j]);
            }
            assert forall|i: int, j: int|
                0 <= i < init.len() && 0 <= j < kept.len() implies #[trigger] init[i]
                != #[trigger] kept[j] by {
                assert(taps[i] != kept[j]);
            }
            assert forall|i: int, j: int|
                0 <= i < init.len() && 0 <= j < log.len() implies #[trigger] init[i] != (
            #[trigger] log[j]).message by {
                assert(taps[i] != log[j].message);
            }
        }
        lemma_subscribe_all(pre, kept, init, first, mid, log);
        let between = log + first;
        let known = kept + init;
        assert(new_taps(known, seq![tap], between)) by {
            let one = seq![tap];
            assert forall|i: int, j: int| 0 <= i < one.len() && 0 <= j < known.len() implies
                #[trigger] one[i] != #[trigger] known[j] by {
                if j < kept.len() {
                    assert(taps[last] != kept[j]);
                } else {
                    assert(taps[j - kept.len()] != taps[last]);
                }
            }
            assert forall|i: int, j: int| 0 <= i < one.len() && 0 <= j < between.len() implies
                #[trigger] one[i] != (#[trigger] between[j]).message by {
                if j < log.len() {
                    assert(between[j] == log[j]);
                    assert(taps[last] != log[j].message);
                } else {
                    assert(between[j] == first[j - log.len()]);
                    assert(init.contains(first[j - log.len()].message));
                    let k = choose|k: int| 0 <= k < init.len() && init[k] == between[j].message;
                    assert(taps[k] != taps[last]);
                }
            }
        }
        lemma_subscribe(mid, known, tap, second, post, between);
        assert(log + sent =~= between + second);
        assert(kept + taps =~= known.push(tap));
        assert forall|i: int| 0 <= i < sent.len() implies taps.contains(
            (#[trigger] sent[i]).message,
        ) by {
            if i < n {
                assert(sent[i] == first[i]);
                assert(init.contains(first[i].message));
                let k = choose|k: int| 0 <= k < init.len() && init[k] == first[i].message;
                assert(taps[k] == sent[i].message);
            } else {
                assert(sent[i] == second[i - n]);
                assert(taps[last] == second[i - n].message);
            }
        }
    }
}

/// Polling keeps every service informed: each was told of each tap exactly once, and whoever
/// could not be told is not held any more. The taps that are held, which are all that is sent
/// to anyone, were found to be active.
pub proof fn polling_keeps_informed<S, T, L: Fn(&T) -> bool>(
    pre: Daemon<S, T>,
    svcs: Seq<S>,
    taps: Seq<T>,
    is_live: L,
    sent: Seq<Sent<S, T>>,
    post: Daemon<S, T>,
    log: Seq<Sent<S, T>>,
)
    requires
        polls(pre, svcs, taps, is_live, sent, post),
        informed(pre.svcs@, pre.taps@, log),
        new_services(pre.svcs@, svcs, log),
        new_taps(pre.taps@, taps, log),
    ensures
        informed(post.svcs@, post.taps@, log + sent),
        forall|i: int|
            0 <= i < sent.len() ==> post.taps@.contains((#[trigger] sent[i]).message),
        forall|i: int|
            0 <= i < post.taps@.len() ==> call_ensures(
                is_live,
                (&#[trigger] post.taps@[i],),
                true,
            ),
{
    let (kept, added) = choose|kept: Seq<T>, added: Seq<T>| #[trigger]
        is_retained(is_live, pre.taps@, kept) && #[trigger] is_retained(is_live, taps, added)
            && connects(pre.svcs@, kept, svcs, added, sent, post);
    lemma_retained(is_live, pre.taps@, kept);
    lemma_retained(is_live, taps, added);
    assert forall|i: int| 0 <= i < post.taps@.len() implies call_ensures(
        is_live,
        (&#[trigger] post.taps@[i],),
        true,
    ) by {
        if i < kept.len() {
            assert(post.taps@[i] == kept[i]);
        } else {
            assert(post.taps@[i] == added[i - kept.len()]);
        }
    }
    let (mid, n) = choose|mid: Seq<S>, n: int|
        0 <= n <= sent.len() && #[trigger] registers_all(
            pre.svcs@,
            kept,
            svcs,
            sent.take(n),
            mid,
        ) && subscribes_all(mid, added, sent.skip(n), post.svcs@);
    let first = sent.take(n);
    let second = sent.skip(n);
    assert(informed(pre.svcs@, kept, log)) by {
        assert forall|i: int, j: int|
            0 <= i < pre.svcs@.len() && 0 <= j < kept.len() implies told_once(
            log,
            #[trigger] pre.svcs@[i],
            #[trigger] kept[j],
        ) by {
            assert(pre.taps@.contains(kept[j]));
            let k = choose|k: int| 0 <= k < pre.taps@.len() && pre.taps@[k] == kept[j];
            assert(told_once(log, pre.svcs@[i], pre.taps@[k]));
        }
    }
    lemma_register_all(pre.svcs@, kept, svcs, first, mid, log);
    let between = log + first;
    assert(new_taps(kept, added, between)) by {
        assert forall|i: int, j: int| 0 <= i < added.len() && 0 <= j < kept.len() implies
            #[trigger] added[i] != #[trigger] kept[j] by {
            let a = choose|a: int| 0 <= a < taps.len() && taps[a] == added[i];
            assert(pre.taps@.contains(kept[j]));
            let k = choose|k: int| 0 <= k < pre.taps@.len() && pre.taps@[k] == kept[j];
            assert(taps[a] != pre.taps@[k]);
        }
        assert forall|i: int, j: int| 0 <= i < added.len() && 0 <= j < between.len() implies
            #[trigger] added[i] != (#[trigger] between[j]).message by {
            if j < log.len() {
                assert(between[j] == log[j]);
                assert(taps.contains(added[i]));
                let a = choose|a: int| 0 <= a < taps.len() && taps[a] == added[i];
                assert(taps[a] != log[j].message);
            } else {
                assert(between[j] == first[j - log.len()]);
                assert(kept.contains(first[j - log.len()].message));
                let k = choose|k: int| 0 <= k < kept.len() && kept[k] == between[j].message;
                assert(added[i] != kept[k]);
            }
        }
    }
    lemma_subscribe_all(mid, kept, added, second, post.svcs@, between);
    assert(log + sent =~= between + second);
    assert forall|i: int| 0 <= i < sent.len() implies post.taps@.contains(
        (#[trigger] sent[i]).message,
    ) by {
        if i < n {
            assert(sent[i] == first[i]);
            assert(kept.contains(first[i].message));
            let k = choose|k: int| 0 <= k < kept.len() && kept[k] == first[i].message;
            assert(post.taps@[k] == sent[i].message);
        } else {
            assert(sent[i] == second[i - n]);
            assert(added.contains(second[i - n].message));
            let k = choose|k: int| 0 <= k < added.len() && added[k] == second[i - n].message;
            assert(post.taps@[kept.len() + k] == sent[i].message);
        }
    }
}

/// A poll of the daemon: who and what came up since the one before, which of the taps were found
/// to be active, and what was sent.
pub struct Polled<S, T, L> {
    pub svcs: Seq<S>,
    pub taps: Seq<T>,
    pub is_live: L,
    pub sent: Seq<Sent<S, T>>,
}

/// All that was sent in a number of polls, in order.
pub open spec fn sent_in<S, T, L>(polled: Seq<Polled<S, T, L>>) -> Seq<Sent<S, T>>
    decreases polled.len(),
{
    if polled.len() == 0 {
        Seq::empty()
    } else {
        sent_in(polled.drop_last()) + polled.last().sent
    }
}

/// Whether a daemon that began with nothing goes through `states` as it is polled, where each
/// service and each tap comes up once.
pub open spec fn is_history<S, T, L: Fn(&T) -> bool>(
    states: Seq<Daemon<S, T>>,
    polled: Seq<Polled<S, T, L>>,
) -> bool {
    &&& states.len() == polled.len() + 1
    &&& states[0].svcs@.len() == 0
    &&& states[0].taps@.len() == 0
    &&& forall|i: int|
        0 <= i < polled.len() ==> is_next(
            states[i],
            #[trigger] polled[i],
            states[i + 1],
            sent_in(polled.take(i)),
        )
}

/// Whether a poll takes the daemon from `pre` to `post`, where what came up is new.
pub open spec fn is_next<S, T, L: Fn(&T) -> bool>(
    pre: Daemon<S, T>,
    polled: Polled<S, T, L>,
    post: Daemon<S, T>,
    log: Seq<Sent<S, T>>,
) -> bool {
    &&& polls(pre, polled.svcs, polled.taps, polled.is_live, polled.sent, post)
    &&& new_services(pre.svcs@, polled.svcs, log)
    &&& new_taps(pre.taps@, polled.taps, log)
}

/// However often the daemon is polled, each service that it holds was told of each tap that it
/// holds exactly once over all polls, and nothing that was sent to such a service failed.
pub proof fn services_are_told_once<S, T, L: Fn(&T) -> bool>(
    states: Seq<Daemon<S, T>>,
    polled: Seq<Polled<S, T, L>>,
)
    requires
        is_history(states, polled),
    ensures
        informed(states.last().svcs@, states.last().taps@, sent_in(polled)),
    decreases polled.len(),
{
    if polled.len() > 0 {
        let n = polled.len() - 1;
        let init = polled.drop_last();
        let before = states.drop_last();
        assert forall|i: int| 0 <= i < init.len() implies is_next(
            before[i],
            #[trigger] init[i],
            before[i + 1],
            sent_in(init.take(i)),
        ) by {
            assert(init.take(i) =~= polled.take(i));
            assert(is_next(states[i], polled[i], states[i + 1], sent_in(polled.take(i))));
        }
        services_are_told_once(before, init);
        assert(polled.take(n) =~= init);
        let p = polled[n];
        assert(is_next(states[n], p, states[n + 1], sent_in(init)));
        polling_keeps_informed(
            states[n],
            p.svcs,
            p.taps,
            p.is_live,
            p.sent,
            states[n + 1],
            sent_in(init),
        );
    }
}

/// Services that stay are in the order in which they came: a service that registers comes last, if
/// it could be told of all taps, and is not there otherwise. No tap and no other service is lost.
pub proof fn registering_loses_nobody<S, T, X: Sender<S, T>>(
    daemon: &mut Daemon<S, T>,
    svc: S,
    out: &mut X,
)
    requires
        call_ensures(Daemon::<S, T>::register::<X>, (daemon, svc, out), ()),
    ensures
        final(daemon).taps == old(daemon).taps,
        final(daemon).svcs@ == old(daemon).svcs@ || final(daemon).svcs@
            == old(daemon).svcs@.push(svc),
        final(out).log().len() >= old(out).log().len(),
        old(daemon).taps@.len() == 0 ==> final(daemon).svcs@ == old(daemon).svcs@.push(svc)
            && final(out).log() == old(out).log(),
        forall|i: int|
            old(out).log().len() <= i < final(out).log().len() ==> (
            #[trigger] final(out).log()[i]).to == svc && final(out).log()[i].message
                == old(daemon).taps@[i - old(out).log().len()],
        final(daemon).svcs@.len() > old(daemon).svcs@.len() ==> final(out).log().len()
            == old(out).log().len() + old(daemon).taps@.len() && forall|i: int|
            old(out).log().len() <= i < final(out).log().len() ==> (
            #[trigger] final(out).log()[i]).ok,
        final(daemon).svcs@.len() == old(daemon).svcs@.len() ==> final(out).log().len()
            > old(out).log().len() && !final(out).log().last().ok,
{
    let sent = choose|sent: Seq<Sent<S, T>>| #[trigger]
        registers(old(daemon).svcs@, old(daemon).taps@, svc, sent, final(daemon).svcs@)
            && final(out).log() == old(out).log() + sent;
    assert(final(out).log().len() == old(out).log().len() + sent.len());
    assert forall|i: int| old(out).log().len() <= i < final(out).log().len() implies (
    #[trigger] final(out).log()[i]) == sent[i - old(out).log().len()] by {}
    if sent.len() == 0 {
        assert(final(out).log() =~= old(out).log());
    }
}

/// A tap that is not active changes nothing, and is sent to nobody. An active one comes last, and
/// is tried to be sent once to each service. Only services that it could not be sent to are gone.
pub proof fn inactive_taps_are_ignored<S, T, X: Sender<S, T>>(
    daemon: &mut Daemon<S, T>,
    tap: T,
    is_live: bool,
    out: &mut X,
)
    requires
        call_ensures(Daemon::<S, T>::subscribe::<X>, (daemon, tap, is_live, out), ()),
    ensures
        !is_live ==> *final(daemon) == *old(daemon) && final(out).log() == old(out).log(),
        is_live ==> final(daemon).taps@ == old(daemon).taps@.push(tap),
        is_live ==> final(out).log().len() == old(out).log().len() + old(daemon).svcs@.len(),
        is_live ==> forall|i: int|
            old(out).log().len() <= i < final(out).log().len() ==> (
            #[trigger] final(out).log()[i]).message == tap && final(out).log()[i].to
                == old(daemon).svcs@[final(out).log().len() - 1 - i],
        is_live && (forall|i: int|
            old(out).log().len() <= i < final(out).log().len() ==> (
            #[trigger] final(out).log()[i]).ok) ==> final(daemon).svcs@ == old(daemon).svcs@,
{
    if is_live {
        let sent = choose|sent: Seq<Sent<S, T>>| #[trigger]
            subscribes(old(daemon).svcs@, tap, sent, final(daemon).svcs@) && final(out).log()
                == old(out).log() + sent;
        let n = old(out).log().len();
        assert forall|i: int| n <= i < final(out).log().len() implies (
        #[trigger] final(out).log()[i]) == sent[i - n] by {}
        if forall|i: int| n <= i < final(out).log().len() ==> (#[trigger] final(out).log()[i]).ok {
            assert forall|i: int| 0 <= i < sent.len() implies (#[trigger] sent[i]).ok by {
                assert(final(out).log()[n + i].ok);
            }
            lemma_all_kept(old(daemon).svcs@, outcomes(sent), sent.len() as int);
        }
    }
}

proof fn lemma_all_kept<S>(s: Seq<S>, keep: Seq<bool>, n: int)
    requires
        0 <= n <= keep.len(),
        forall|i: int| 0 <= i < keep.len() ==> #[trigger] keep[i],
    ensures
        swept(s, keep, n) == s,
    decreases n,
{
    if n > 0 {
        lemma_all_kept(s, keep, n - 1);
    }
}

/// Taps that are no longer active are dropped, the others stay in their order, and services are
/// not affected: if all are active all stay, and if none is none does.
pub proof fn inactive_taps_are_dropped<S, T, L: Fn(&T) -> bool>(
    daemon: &mut Daemon<S, T>,
    is_live: L,
)
    requires
        call_ensures(Daemon::<S, T>::drop_inactive::<L>, (daemon, &is_live), ()),
    ensures
        final(daemon).svcs == old(daemon).svcs,
        (forall|t: T, x: bool| #[trigger] call_ensures(is_live, (&t,), x) ==> x)
            ==> final(daemon).taps@ == old(daemon).taps@,
        (forall|t: T, x: bool| #[trigger] call_ensures(is_live, (&t,), x) ==> !x)
            ==> final(daemon).taps@.len() == 0,
        forall|i: int|
            0 <= i < final(daemon).taps@.len() ==> call_ensures(
                is_live,
                (&#[trigger] final(daemon).taps@[i],),
                true,
            ) && old(daemon).taps@.contains(final(daemon).taps@[i]),
{
    let pre = old(daemon).taps@;
    let post = final(daemon).taps@;
    let live = choose|live: Seq<bool>| #[trigger]
        tests(is_live, pre, live) && post == selected(pre, live);
    lemma_selected(pre, live);
    lemma_selected_all(pre, live);
    let n = pre.len() as int;
    assert forall|j: int| 0 <= j < post.len() implies call_ensures(
        is_live,
        (&#[trigger] post[j],),
        true,
    ) by {
        assert(stays(pre, live, n, post[j]));
        let k = choose|k: int| is_kept_at(pre, live, n, post[j], k);
        assert(call_ensures(is_live, (&pre[k],), live[k]));
    }
}

proof fn lemma_selected_all<T>(s: Seq<T>, keep: Seq<bool>)
    requires
        s.len() == keep.len(),
    ensures
        (forall|i: int| 0 <= i < keep.len() ==> #[trigger] keep[i]) ==> selected(s, keep) == s,
        (forall|i: int| 0 <= i < keep.len() ==> !#[trigger] keep[i]) ==> selected(
            s,
            keep,
        ).len() == 0,
    decreases s.len(),
{
    if s.len() > 0 {
        let init = keep.drop_last();
        lemma_selected_all(s.drop_last(), init);
        if forall|i: int| 0 <= i < keep.len() ==> #[trigger] keep[i] {
            assert forall|i: int| 0 <= i < init.len() implies #[trigger] init[i] by {
                assert(keep[i]);
            }
            assert(keep[keep.len() - 1]);
            assert(selected(s, keep) =~= s);
        }
        if forall|i: int| 0 <= i < keep.len() ==> !#[trigger] keep[i] {
            assert forall|i: int| 0 <= i < init.len() implies !#[trigger] init[i] by {
                assert(!keep[i]);
            }
            assert(!keep[keep.len() - 1]);
        }
    } else {
        assert(selected(s, keep) =~= s);
    }
}

/// Nobody is forgotten: where all taps are active and everything that is sent arrives, polling
/// keeps all services and all taps in their order, and the new ones come after them.
pub proof fn polling_forgets_nobody<S, T, L: Fn(&T) -> bool, X: Sender<S, T>>(
    daemon: &mut Daemon<S, T>,
    svcs: Vec<S>,
    taps: Vec<T>,
    is_live: L,
    out: &mut X,
    r: Async<()>,
)
    requires
        call_ensures(Daemon::<S, T>::poll::<L, X>, (daemon, svcs, taps, &is_live, out), r),
        forall|t: T, x: bool| #[trigger] call_ensures(is_live, (&t,), x) ==> x,
        forall|i: int|
            old(out).log().len() <= i < final(out).log().len() ==> (
            #[trigger] final(out).log()[i]).ok,
    ensures
        r is NotReady,
        final(daemon).svcs@ == old(daemon).svcs@ + svcs@,
        final(daemon).taps@ == old(daemon).taps@ + taps@,
{
    let sent = choose|sent: Seq<Sent<S, T>>| #[trigger]
        polls(*old(daemon), svcs@, taps@, is_live, sent, *final(daemon)) && final(out).log()
            == old(out).log() + sent;
    let base = old(out).log().len();
    assert forall|i: int| 0 <= i < sent.len() implies (#[trigger] sent[i]).ok by {
        assert(final(out).log()[base + i].ok);
    }
    let (kept, added) = choose|kept: Seq<T>, added: Seq<T>| #[trigger]
        is_retained(is_live, old(daemon).taps@, kept) && #[trigger] is_retained(
            is_live,
            taps@,
            added,
        ) && connects(old(daemon).svcs@, kept, svcs@, added, sent, *final(daemon));
    lemma_all_live(is_live, old(daemon).taps@, kept);
    lemma_all_live(is_live, taps@, added);
    let (mid, n) = choose|mid: Seq<S>, n: int|
        0 <= n <= sent.len() && #[trigger] registers_all(
            old(daemon).svcs@,
            kept,
            svcs@,
            sent.take(n),
            mid,
        ) && subscribes_all(mid, added, sent.skip(n), final(daemon).svcs@);
    lemma_all_registered(old(daemon).svcs@, kept, svcs@, sent.take(n), mid);
    assert forall|i: int| 0 <= i < sent.skip(n).len() implies (#[trigger] sent.skip(n)[i]).ok by {
        assert(sent[n + i].ok);
    }
    lemma_all_subscribed(mid, added, sent.skip(n), final(daemon).svcs@);
}

/// What is active throughout stays as it is.
pub proof fn lemma_all_live<T, L: Fn(&T) -> bool>(is_live: L, pre: Seq<T>, post: Seq<T>)
    requires
        is_retained(is_live, pre, post),
        forall|t: T, x: bool| #[trigger] call_ensures(is_live, (&t,), x) ==> x,
    ensures
        post == pre,
{
    let live = choose|live: Seq<bool>| #[trigger]
        tests(is_live, pre, live) && post == selected(pre, live);
    lemma_selected_all(pre, live);
}

proof fn lemma_all_registered<S, T>(
    pre: Seq<S>,
    taps: Seq<T>,
    svcs: Seq<S>,
    sent: Seq<Sent<S, T>>,
    post: Seq<S>,
)
    requires
        registers_all(pre, taps, svcs, sent, post),
        forall|i: int| 0 <= i < sent.len() ==> (#[trigger] sent[i]).ok,
    ensures
        post == pre + svcs,
    decreases svcs.len(),
{
    if svcs.len() == 0 {
        assert(pre + svcs =~= pre);
    } else {
        let init = svcs.drop_last();
        let (mid, n) = choose|mid: Seq<S>, n: int|
            0 <= n <= sent.len() && registers_all(pre, taps, init, sent.take(n), mid)
                && #[trigger] registers(mid, taps, svcs.last(), sent.skip(n), post);
        lemma_all_registered(pre, taps, init, sent.take(n), mid);
        let rest = sent.skip(n);
        if rest.len() > 0 {
            assert(rest.last() == sent[sent.len() - 1]);
            assert(rest[rest.len() - 1].ok);
        }
        assert(pre + svcs =~= (pre + init).push(svcs.last()));
    }
}

proof fn lemma_all_subscribed<S, T>(
    pre: Seq<S>,
    taps: Seq<T>,
    sent: Seq<Sent<S, T>>,
    post: Seq<S>,
)
    requires
        subscribes_all(pre, taps, sent, post),
        forall|i: int| 0 <= i < sent.len() ==> (#[trigger] sent[i]).ok,
    ensures
        post == pre,
    decreases taps.len(),
{
    if taps.len() > 0 {
        let init = taps.drop_last();
        let (mid, n) = choose|mid: Seq<S>, n: int|
            0 <= n <= sent.len() && subscribes_all(pre, init, sent.take(n), mid)
                && #[trigger] subscribes(mid, taps.last(), sent.skip(n), post);
        lemma_all_subscribed(pre, init, sent.take(n), mid);
        let rest = sent.skip(n);
        assert forall|i: int| 0 <= i < outcomes(rest).len() implies #[trigger] outcomes(
            rest,
        )[i] by {
            assert(rest[rest.len() - 1 - i] == sent[n + rest.len() - 1 - i]);
        }
        lemma_all_kept(mid, outcomes(rest), rest.len() as int);
    }
}

/// Whether `places` tells, in order, which elements of `s` are in `post`, and all others failed
/// their test.
pub open spec fn are_places<T>(
    s: Seq<T>,
    keep: Seq<bool>,
    post: Seq<T>,
    places: Seq<int>,
) -> bool {
    &&& places.len() == post.len()
    &&& forall|i: int, j: int| 0 <= i < j < places.len() ==> #[trigger] places[i]
        < #[trigger] places[j]
    &&& forall|i: int|
        0 <= i < places.len() ==> 0 <= #[trigger] places[i] < s.len() && s[places[i]] == post[i]
            && keep[places[i]]
    &&& forall|k: int| 0 <= k < s.len() ==> places.contains(k) || !#[trigger] keep[k]
}

proof fn lemma_places<T>(s: Seq<T>, keep: Seq<bool>) -> (places: Seq<int>)
    requires
        s.len() == keep.len(),
    ensures
        are_places(s, keep, selected(s, keep), places),
    decreases s.len(),
{
    if s.len() == 0 {
        Seq::empty()
    } else {
        let n = s.len() - 1;
        let init = s.drop_last();
        let before = keep.drop_last();
        let some = lemma_places(init, before);
        let places = if keep[n] {
            some.push(n)
        } else {
            some
        };
        let post = selected(s, keep);
        assert forall|i: int| 0 <= i < places.len() implies 0 <= #[trigger] places[i] < s.len()
            && s[places[i]] == post[i] && keep[places[i]] by {
            if i < some.len() {
                assert(places[i] == some[i]);
                assert(init[some[i]] == s[some[i]]);
                assert(before[some[i]] == keep[some[i]]);
            }
        }
        assert forall|i: int, j: int| 0 <= i < j < places.len() implies #[trigger] places[i]
            < #[trigger] places[j] by {
            assert(places[i] == some[i]);
            if j < some.len() {
                assert(some[i] < some[j]);
            }
        }
        assert forall|k: int| 0 <= k < s.len() implies places.contains(k) || !#[trigger] keep[k] by {
            if k == n {
                if keep[n] {
                    assert(places[some.len() as int] == n);
                }
            } else {
                assert(before[k] == keep[k]);
                if some.contains(k) {
                    let i = choose|i: int| 0 <= i < some.len() && some[i] == k;
                    assert(places[i] == k);
                }
            }
        }
        places
    }
}

/// Each tap is tested once, and exactly those that are found to be active stay, in their order.
pub proof fn exactly_the_active_stay<T, L: Fn(&T) -> bool>(deque: &mut VecDeque<T>, is_live: L)
    requires
        call_ensures(retain_live::<T, L>, (deque, &is_live), ()),
    ensures
        exists|live: Seq<bool>, places: Seq<int>|
            tests(is_live, old(deque)@, live) && #[trigger] are_places(
                old(deque)@,
                live,
                final(deque)@,
                places,
            ),
{
    let live = choose|live: Seq<bool>| #[trigger]
        tests(is_live, old(deque)@, live) && final(deque)@ == selected(old(deque)@, live);
    let places = lemma_places(old(deque)@, live);
    assert(are_places(old(deque)@, live, final(deque)@, places));
}

/// Whether something that was sent to a service did not arrive.
pub open spec fn is_unreachable<S, T>(sent: Seq<Sent<S, T>>, svc: S) -> bool {
    exists|i: int| 0 <= i < sent.len() && (#[trigger] sent[i]).to == svc && !sent[i].ok
}

proof fn lemma_swept_keeps<S>(s: Seq<S>, keep: Seq<bool>, n: int, k: int)
    requires
        0 <= n <= s.len(),
        n <= keep.len(),
        0 <= k < s.len(),
        k >= n || keep[k],
    ensures
        swept(s, keep, n).contains(s[k]),
    decreases n,
{
    if n == 0 {
        assert(s.contains(s[k]));
    } else if keep[n - 1] {
        lemma_swept_keeps(s, keep, n - 1, k);
    } else {
        let t = swap_removed(s, n - 1);
        let last = s.len() - 1;
        if k == last {
            if n - 1 < last {
                assert(t[n - 1] == s[k]);
                lemma_swept_keeps(t, keep, n - 1, n - 1);
            }
        } else {
            assert(t[k] == s[k]);
            lemma_swept_keeps(t, keep, n - 1, k);
        }
    }
}

proof fn lemma_subscribed<S, T>(pre: Seq<S>, tap: T, sent: Seq<Sent<S, T>>, post: Seq<S>, svc: S)
    requires
        subscribes(pre, tap, sent, post),
        pre.contains(svc),
    ensures
        post.contains(svc) || is_unreachable(sent, svc),
{
    let k = choose|k: int| 0 <= k < pre.len() && pre[k] == svc;
    let n = sent.len() as int;
    let at = n - 1 - k;
    assert(sent[at].to == svc);
    if outcomes(sent)[k] {
        lemma_swept_keeps(pre, outcomes(sent), n, k);
    } else {
        assert(!sent[at].ok);
    }
}

proof fn lemma_unreachable<S, T>(part: Seq<Sent<S, T>>, all: Seq<Sent<S, T>>, from: int, svc: S)
    requires
        is_unreachable(part, svc),
        0 <= from <= all.len(),
        from + part.len() <= all.len(),
        part == all.subrange(from, from + part.len()),
    ensures
        is_unreachable(all, svc),
{
    let i = choose|i: int| 0 <= i < part.len() && (#[trigger] part[i]).to == svc && !part[i].ok;
    assert(all[from + i] == part[i]);
}

proof fn lemma_registered<S, T>(
    pre: Seq<S>,
    taps: Seq<T>,
    svcs: Seq<S>,
    sent: Seq<Sent<S, T>>,
    post: Seq<S>,
    svc: S,
)
    requires
        registers_all(pre, taps, svcs, sent, post),
        pre.contains(svc) || svcs.contains(svc),
    ensures
        post.contains(svc) || is_unreachable(sent, svc),
        pre.contains(svc) ==> post.contains(svc),
    decreases svcs.len(),
{
    if svcs.len() > 0 {
        let init = svcs.drop_last();
        let last = svcs.last();
        let (mid, n) = choose|mid: Seq<S>, n: int|
            0 <= n <= sent.len() && registers_all(pre, taps, init, sent.take(n), mid)
                && #[trigger] registers(mid, taps, last, sent.skip(n), post);
        let rest = sent.skip(n);
        if pre.contains(svc) || init.contains(svc) {
            lemma_registered(pre, taps, init, sent.take(n), mid, svc);
            if mid.contains(svc) {
                let k = choose|k: int| 0 <= k < mid.len() && mid[k] == svc;
                assert(post[k] == svc);
            } else {
                assert(sent.take(n) =~= sent.subrange(0, n));
                lemma_unreachable(sent.take(n), sent, 0, svc);
            }
        } else {
            let k = choose|k: int| 0 <= k < svcs.len() && svcs[k] == svc;
            if k < init.len() {
                assert(init[k] == svc);
            }
            assert(svc == last);
            if crate::sender::delivers(last, taps, rest, true) && post == mid.push(last) {
                assert(post[mid.len() as int] == svc);
            } else {
                let i = rest.len() - 1;
                assert(rest[i].to == svc && !rest[i].ok);
                assert(rest =~= sent.subrange(n, n + rest.len()));
                lemma_unreachable(rest, sent, n, svc);
            }
        }
    }
}

proof fn lemma_subscribed_all<S, T>(
    pre: Seq<S>,
    taps: Seq<T>,
    sent: Seq<Sent<S, T>>,
    post: Seq<S>,
    svc: S,
)
    requires
        subscribes_all(pre, taps, sent, post),
        pre.contains(svc),
    ensures
        post.contains(svc) || is_unreachable(sent, svc),
    decreases taps.len(),
{
    if taps.len() > 0 {
        let init = taps.drop_last();
        let (mid, n) = choose|mid: Seq<S>, n: int|
            0 <= n <= sent.len() && subscribes_all(pre, init, sent.take(n), mid)
                && #[trigger] subscribes(mid, taps.last(), sent.skip(n), post);
        let rest = sent.skip(n);
        lemma_subscribed_all(pre, init, sent.take(n), mid, svc);
        if mid.contains(svc) {
            lemma_subscribed(mid, taps.last(), rest, post, svc);
            if !post.contains(svc) {
                assert(rest =~= sent.subrange(n, n + rest.len()));
                lemma_unreachable(rest, sent, n, svc);
            }
        } else {
            assert(sent.take(n) =~= sent.subrange(0, n));
            lemma_unreachable(sent.take(n), sent, 0, svc);
        }
    }
}

/// Polling costs no service its registration, old or new, but those that something could not be
/// sent to. What another service could not be sent makes no difference.
pub proof fn only_the_unreachable_are_gone<S, T, L: Fn(&T) -> bool, X: Sender<S, T>>(
    daemon: &mut Daemon<S, T>,
    svcs: Vec<S>,
    taps: Vec<T>,
    is_live: L,
    out: &mut X,
    r: Async<()>,
    svc: S,
)
    requires
        call_ensures(Daemon::<S, T>::poll::<L, X>, (daemon, svcs, taps, &is_live, out), r),
        old(daemon).svcs@.contains(svc) || svcs@.contains(svc),
    ensures
        final(daemon).svcs@.contains(svc) || exists|i: int|
            old(out).log().len() <= i < final(out).log().len() && (
            #[trigger] final(out).log()[i]).to == svc && !final(out).log()[i].ok,
{
    let sent = choose|sent: Seq<Sent<S, T>>| #[trigger]
        polls(*old(daemon), svcs@, taps@, is_live, sent, *final(daemon)) && final(out).log()
            == old(out).log() + sent;
    let (kept, added) = choose|kept: Seq<T>, added: Seq<T>| #[trigger]
        is_retained(is_live, old(daemon).taps@, kept) && #[trigger] is_retained(
            is_live,
            taps@,
            added,
        ) && connects(old(daemon).svcs@, kept, svcs@, added, sent, *final(daemon));
    let (mid, n) = choose|mid: Seq<S>, n: int|
        0 <= n <= sent.len() && #[trigger] registers_all(
            old(daemon).svcs@,
            kept,
            svcs@,
            sent.take(n),
            mid,
        ) && subscribes_all(mid, added, sent.skip(n), final(daemon).svcs@);
    let rest = sent.skip(n);
    lemma_registered(old(daemon).svcs@, kept, svcs@, sent.take(n), mid, svc);
    if mid.contains(svc) {
        lemma_subscribed_all(mid, added, rest, final(daemon).svcs@, svc);
        if !final(daemon).svcs@.contains(svc) {
            assert(rest =~= sent.subrange(n, n + rest.len()));
            lemma_unreachable(rest, sent, n, svc);
        }
    } else {
        assert(sent.take(n) =~= sent.subrange(0, n));
        lemma_unreachable(sent.take(n), sent, 0, svc);
    }
    if !final(daemon).svcs@.contains(svc) {
        let i = choose|i: int|
            0 <= i < sent.len() && (#[trigger] sent[i]).to == svc && !sent[i].ok;
        assert(final(out).log()[old(out).log().len() + i] == sent[i]);
    }
}

} // verus!
