//! Shares one discovery between several observers.
//!
//! A task in the background receives the changes of a set of services, remembers what there is,
//! and tells all observers. Those that come late are told of everything that there is first.
//! Services and their keys are known here by numbers.
use crate::handles::{list_handles, no_handles, remove_handle, set_handle, Handles};
use crate::poll::{Async, Poll};
use crate::proxy::resolve::Change;
use crate::sender::{Sender, Sent};
use std::collections::VecDeque;
use vstd::prelude::*;

verus! {

/// A change of a set of services, by their numbers.
pub type Update = Change<u64, u64>;

/// The task in the background. Observers are reached through an `N` each.
pub struct Background<N> {
    /// Whether more observers may come.
    pub open: bool,
    pub notifiers: VecDeque<N>,
    /// What there is.
    pub cache: Handles,
}

/// What came of waiting for an observer.
#[derive(Debug)]
pub enum Arrival<N> {
    /// None has come yet.
    NotReady,
    /// None can come any more.
    Closed,
    /// One has come.
    Notify(N),
}

/// The changes that tell all entries, in order.
pub open spec fn told(entries: Seq<(u64, u64)>) -> Seq<Update> {
    entries.map_values(|e: (u64, u64)| Change::Insert(e.0, e.1))
}

/// Whether telling a new observer of everything that there is sends `sent`, and takes the
/// observers from `pre` to `post`: it stays if it could be told.
pub open spec fn welcomes<N>(
    pre: Seq<N>,
    entries: Seq<(u64, u64)>,
    tx: N,
    sent: Seq<Sent<N, Update>>,
    post: Seq<N>,
) -> bool {
    ||| crate::sender::delivers(tx, told(entries), sent, true) && post == pre.push(tx)
    ||| crate::sender::delivers(tx, told(entries), sent, false) && post == pre
}

/// Whether `sent` is what is sent to tell the observers of a change: once to each, in order.
pub open spec fn tells<N>(notifiers: Seq<N>, change: Update, sent: Seq<Sent<N, Update>>) -> bool {
    &&& sent.len() == notifiers.len()
    &&& forall|i: int|
        0 <= i < sent.len() ==> (#[trigger] sent[i]).to == notifiers[i] && sent[i].message == change
}

/// Those whom it could be sent, in order.
pub open spec fn reached<N>(sent: Seq<Sent<N, Update>>) -> Seq<N>
    decreases sent.len(),
{
    if sent.len() == 0 {
        Seq::empty()
    } else {
        let before = reached(sent.drop_last());
        if sent.last().ok {
            before.push(sent.last().to)
        } else {
            before
        }
    }
}

/// What there is after a change.
pub open spec fn changed(known: Map<u64, u64>, change: Update) -> Map<u64, u64> {
    match change {
        Change::Insert(key, service) => known.insert(key, service),
        Change::Remove(key) => known.remove(key),
    }
}

/// Whether what came of waiting for an observer sends `sent`, and takes the task from `pre` to
/// `post`.
pub open spec fn arrives<N>(
    pre: Background<N>,
    arrival: Arrival<N>,
    sent: Seq<Sent<N, Update>>,
    post: Background<N>,
) -> bool {
    &&& post.cache == pre.cache
    &&& post.open == (pre.open && !(arrival is Closed))
    &&& match arrival {
        Arrival::Notify(tx) => welcomes(
            pre.notifiers@,
            crate::handles::entries_of(pre.cache),
            tx,
            sent,
            post.notifiers@,
        ),
        _ => post.notifiers == pre.notifiers && sent.len() == 0,
    }
}

/// Whether a change sends `sent`, and takes the task from `pre` to `post`.
pub open spec fn changes<N>(
    pre: Background<N>,
    change: Update,
    sent: Seq<Sent<N, Update>>,
    post: Background<N>,
) -> bool {
    &&& post.open == pre.open
    &&& post.wf()
    &&& post.known() == changed(pre.known(), change)
    &&& tells(pre.notifiers@, change, sent)
    &&& post.notifiers@ == reached(sent)
}

impl<N> Background<N> {
    /// No key occurs twice.
    pub open spec fn wf(self) -> bool {
        crate::handles::distinct(crate::handles::entries_of(self.cache))
    }

    /// What there is.
    pub open spec fn known(self) -> Map<u64, u64> {
        crate::handles::by_key(crate::handles::entries_of(self.cache))
    }

    /// A task that knows nothing yet.
    pub fn new() -> (bg: Self)
        ensures
            bg.wf(),
            bg.open,
            bg.notifiers@.len() == 0,
            bg.known() == Map::<u64, u64>::empty(),
    {
        let cache = no_handles();
        assert(crate::handles::by_key(crate::handles::entries_of(cache)) =~= Map::empty());
        Background { open: true, notifiers: VecDeque::new(), cache }
    }

    /// Tells an observer of everything that there is, and whether that succeeded.
    pub fn update_from_cache<X: Sender<N, Update>>(&self, tx: &N, out: &mut X) -> (ok: bool)
        requires
            old(out).is_open(),
        ensures
            final(out).is_open(),
            exists|sent: Seq<Sent<N, Update>>| #[trigger]
                crate::sender::delivers(
                    *tx,
                    told(crate::handles::entries_of(self.cache)),
                    sent,
                    ok,
                ) && final(out).log() == old(out).log() + sent,
    {
        let entries = list_handles(&self.cache);
        let ghost changes = told(entries@);
        let ghost log = out.log();
        let ghost mut sent: Seq<Sent<N, Update>> = Seq::empty();
        assert(out.log() =~= log + sent);
        for i in 0..entries.len()
            invariant
                changes == told(entries@),
                entries@ == crate::handles::entries_of(self.cache),
                log == old(out).log(),
                out.is_open(),
                out.log() == log + sent,
                sent.len() == i,
                forall|j: int|
                    0 <= j < sent.len() ==> #[trigger] sent[j] == (Sent {
                        to: *tx,
                        message: changes[j],
                        ok: true,
                    }),
        {
            let change: Update = Change::Insert(entries[i].0, entries[i].1);
            assert(changes[i as int] == change);
            let ok: bool = out.send(tx, &change);
            proof {
                sent = sent.push(Sent { to: *tx, message: change, ok });
                assert(out.log() =~= log + sent);
            }
            if !ok {
                assert(crate::sender::delivers(*tx, changes, sent, false));
                return false;
            }
        }
        assert(crate::sender::delivers(*tx, changes, sent, true));
        true
    }

    /// Tells all observers of a change. Those that cannot be told are dropped.
    pub fn notify_notifiers<X: Sender<N, Update>>(&mut self, change: &Update, out: &mut X)
        requires
            old(out).is_open(),
        ensures
            final(out).is_open(),
            exists|sent: Seq<Sent<N, Update>>| #[trigger]
                tells(old(self).notifiers@, *change, sent) && final(self).notifiers@ == reached(
                    sent,
                ) && final(out).log() == old(out).log() + sent,
            final(self).cache == old(self).cache,
            final(self).open == old(self).open,
    {
        let ghost all = self.notifiers@;
        let ghost log = out.log();
        let ghost mut sent: Seq<Sent<N, Update>> = Seq::empty();
        let n: usize = self.notifiers.len();
        assert(all.skip(0) + reached(sent) =~= all);
        assert(out.log() =~= log + sent);
        for i in 0..n
            invariant
                n == all.len(),
                self.cache == old(self).cache,
                self.open == old(self).open,
                out.is_open(),
                out.log() == log + sent,
                tells(all.take(i as int), *change, sent),
                self.notifiers@ == all.skip(i as int) + reached(sent),
        {
            let ghost before = sent;
            assert(self.notifiers@[0] == all[i as int]);
            let tx: N = match self.notifiers.pop_front() {
                Some(tx) => tx,
                None => vstd::pervasive::unreached(),
            };
            let ok: bool = out.send(&tx, change);
            proof {
                sent = sent.push(Sent { to: tx, message: *change, ok });
                assert(sent.drop_last() =~= before);
                assert(out.log() =~= log + sent);
                assert forall|j: int| 0 <= j < sent.len() implies (#[trigger] sent[j]).to
                    == all.take(i + 1)[j] && sent[j].message == *change by {
                    if j < i {
                        assert(sent[j] == before[j]);
                        assert(all.take(i as int)[j] == all[j]);
                    }
                }
            }
            if ok {
                self.notifiers.push_back(tx);
            }
            assert(self.notifiers@ =~= all.skip(i + 1) + reached(sent));
        }
        assert(all.take(all.len() as int) =~= all);
        assert(self.notifiers@ =~= reached(sent));
        assert(tells(all, *change, sent));
    }

    /// Handles what came of waiting for an observer, and says whether to wait for another.
    ///
    /// A new observer is told of everything that there is, and stays if that succeeds.
    pub fn arrive<X: Sender<N, Update>>(&mut self, arrival: Arrival<N>, out: &mut X) -> (more: bool)
        requires
            old(out).is_open(),
        ensures
            final(out).is_open(),
            more == (arrival is Notify),
            exists|sent: Seq<Sent<N, Update>>| #[trigger]
                arrives(*old(self), arrival, sent, *final(self)) && final(out).log()
                    == old(out).log() + sent,
    {
        let ghost arrival_ = arrival;
        let ghost mut sent: Seq<Sent<N, Update>> = Seq::empty();
        let ghost log = out.log();
        assert(out.log() =~= log + sent);
        let more: bool = match arrival {
            Arrival::NotReady => false,
            Arrival::Closed => {
                self.open = false;
                false
            },
            Arrival::Notify(tx) => {
                let ok: bool = self.update_from_cache(&tx, out);
                proof {
                    sent = choose|sent: Seq<Sent<N, Update>>| #[trigger]
                        crate::sender::delivers(
                            tx,
                            told(crate::handles::entries_of(self.cache)),
                            sent,
                            ok,
                        ) && out.log() == log + sent;
                }
                if ok {
                    self.notifiers.push_back(tx);
                }
                true
            },
        };
        assert(arrives(*old(self), arrival_, sent, *self));
        more
    }

    /// Whether the task is done: nobody listens, and nobody will.
    pub fn is_done(&self) -> (r: bool)
        ensures
            r == (!self.open && self.notifiers@.len() == 0),
    {
        !self.open && self.notifiers.len() == 0
    }

    /// Handles a change: all observers are told of it, and it is remembered.
    pub fn change<X: Sender<N, Update>>(&mut self, change: Update, out: &mut X)
        requires
            old(self).wf(),
            old(out).is_open(),
        ensures
            final(self).wf(),
            final(out).is_open(),
            exists|sent: Seq<Sent<N, Update>>| #[trigger]
                changes(*old(self), change, sent, *final(self)) && final(out).log()
                    == old(out).log() + sent,
    {
        let ghost log = out.log();
        self.notify_notifiers(&change, out);
        let ghost entries = crate::handles::entries_of(self.cache);
        match change {
            Change::Insert(key, service) => {
                let _ = set_handle(&mut self.cache, key, service);
                proof {
                    crate::handles::lemma_with_entry(entries, key, service);
                }
            },
            Change::Remove(key) => {
                let _ = remove_handle(&mut self.cache, key);
                proof {
                    crate::handles::lemma_without_entry(entries, key);
                }
            },
        }
        proof {
            let sent = choose|sent: Seq<Sent<N, Update>>| #[trigger]
                tells(old(self).notifiers@, change, sent) && self.notifiers@ == reached(sent)
                    && out.log() == log + sent;
            assert(changes(*old(self), change, sent, *self));
        }
    }

    /// Handles what came of asking for a change, and says how the task stands if it has to wait
    /// or has failed. Otherwise it goes on. It fails only where asking did.
    pub fn discovered<E, X: Sender<N, Update>>(
        &mut self,
        polled: Poll<Update, E>,
        out: &mut X,
    ) -> (r: Option<Poll<(), E>>)
        requires
            old(self).wf(),
            old(out).is_open(),
        ensures
            final(self).wf(),
            final(out).is_open(),
            match polled {
                Ok(Async::Ready(change)) => {
                    &&& r is None
                    &&& exists|sent: Seq<Sent<N, Update>>| #[trigger]
                        changes(*old(self), change, sent, *final(self)) && final(out).log()
                            == old(out).log() + sent
                },
                Ok(Async::NotReady) => {
                    &&& r == Some(Ok::<Async<()>, E>(Async::NotReady))
                    &&& *final(self) == *old(self)
                    &&& final(out).log() == old(out).log()
                },
                Err(e) => {
                    &&& r == Some(Err::<Async<()>, E>(e))
                    &&& *final(self) == *old(self)
                    &&& final(out).log() == old(out).log()
                },
            },
    {
        match polled {
            Ok(Async::Ready(change)) => {
                self.change(change, out);
                None
            },
            Ok(Async::NotReady) => Some(Ok(Async::NotReady)),
            Err(e) => Some(Err(e)),
        }
    }
}

/// Hands on a change to an observer. An observer of a task that has ended waits for ever.
pub fn next_change<T, E>(polled: Result<Async<Option<T>>, E>) -> (r: Async<T>)
    ensures
        r == match polled {
            Ok(Async::Ready(Some(change))) => Async::Ready(change),
            _ => Async::NotReady,
        },
{
    match polled {
        Ok(Async::Ready(Some(change))) => Async::Ready(change),
        _ => Async::NotReady,
    }
}

/// Being told of everything that there is amounts to having been told of every change so far:
/// whoever has observed all changes knows exactly what a newcomer is told.
pub proof fn newcomers_catch_up(entries: Seq<(u64, u64)>)
    requires
        crate::handles::distinct(entries),
    ensures
        crate::proxy::resolve::after(told(entries)) == crate::handles::by_key(entries),
    decreases entries.len(),
{
    let by_key = crate::handles::by_key(entries);
    if entries.len() > 0 {
        let before = entries.drop_last();
        let (key, handle) = entries.last();
        assert forall|i: int, j: int| 0 <= i < j < before.len() implies (#[trigger] before[i]).0 != (
        #[trigger] before[j]).0 by {
            assert(entries[i].0 != entries[j].0);
        }
        newcomers_catch_up(before);
        assert(told(entries).drop_last() =~= told(before));
        assert(told(entries).last() == Change::<u64, u64>::Insert(key, handle));
        assert(crate::handles::place_of(before, key) is None) by {
            if crate::handles::place_of(before, key) is Some {
                let p = choose|p: int| crate::handles::is_at(before, key, p);
                assert(crate::handles::is_at(before, key, p));
                assert(entries[p].0 != entries[entries.len() - 1].0);
            }
        }
        crate::handles::lemma_with_entry(before, key, handle);
        assert(crate::handles::with_entry(before, key, handle) =~= entries);
    } else {
        assert(told(entries) =~= Seq::empty());
        assert(by_key =~= Map::empty());
    }
}

/// Every observer that is still there after a change was there before it, and has been told of
/// it.
pub proof fn observers_are_told<N>(
    notifiers: Seq<N>,
    change: Update,
    sent: Seq<Sent<N, Update>>,
    tx: N,
) -> (k: int)
    requires
        tells(notifiers, change, sent),
        reached(sent).contains(tx),
    ensures
        0 <= k < notifiers.len(),
        notifiers[k] == tx,
        sent[k] == (Sent { to: tx, message: change, ok: true }),
    decreases notifiers.len(),
{
    let n = notifiers.len() - 1;
    let all = reached(sent);
    let before = reached(sent.drop_last());
    let k = choose|k: int| 0 <= k < all.len() && all[k] == tx;
    assert(all[k] == tx);
    assert(sent[n].to == notifiers[n]);
    if sent.last().ok && k == before.len() {
        n
    } else {
        assert(before[k] == tx);
        let init = sent.drop_last();
        assert forall|i: int| 0 <= i < init.len() implies (#[trigger] init[i]).to
            == notifiers.drop_last()[i] && init[i].message == change by {
            assert(init[i] == sent[i]);
        }
        observers_are_told(notifiers.drop_last(), change, init, tx)
    }
}

/// What happens to the task, and what is sent on that account.
pub enum Event<N> {
    Arrived(Arrival<N>, Seq<Sent<N, Update>>),
    Changed(Update, Seq<Sent<N, Update>>),
}

/// All that was sent, in order.
pub open spec fn sent_in<N>(events: Seq<Event<N>>) -> Seq<Sent<N, Update>>
    decreases events.len(),
{
    if events.len() == 0 {
        Seq::empty()
    } else {
        sent_in(events.drop_last()) + match events.last() {
            Event::Arrived(_, sent) => sent,
            Event::Changed(_, sent) => sent,
        }
    }
}

/// All changes, in order.
pub open spec fn changes_in<N>(events: Seq<Event<N>>) -> Seq<Update>
    decreases events.len(),
{
    if events.len() == 0 {
        Seq::empty()
    } else {
        let before = changes_in(events.drop_last());
        match events.last() {
            Event::Arrived(_, _) => before,
            Event::Changed(change, _) => before.push(change),
        }
    }
}

/// Whether an observer is new: it is not there already, and was sent nothing.
pub open spec fn is_new<N>(tx: N, notifiers: Seq<N>, log: Seq<Sent<N, Update>>) -> bool {
    &&& !notifiers.contains(tx)
    &&& forall|i: int| 0 <= i < log.len() ==> (#[trigger] log[i]).to != tx
}

/// Whether an event takes the task from `pre` to `post`, where an observer that comes is new.
pub open spec fn is_next<N>(
    pre: Background<N>,
    event: Event<N>,
    post: Background<N>,
    log: Seq<Sent<N, Update>>,
) -> bool {
    match event {
        Event::Arrived(arrival, sent) => {
            &&& arrives(pre, arrival, sent, post)
            &&& arrival matches Arrival::Notify(tx) ==> is_new(tx, pre.notifiers@, log)
        },
        Event::Changed(change, sent) => changes(pre, change, sent, post),
    }
}

/// Whether a task that began with nothing goes through `states` as events come.
pub open spec fn is_history<N>(states: Seq<Background<N>>, events: Seq<Event<N>>) -> bool {
    &&& states.len() == events.len() + 1
    &&& states[0].wf()
    &&& states[0].notifiers@.len() == 0
    &&& states[0].known() == Map::<u64, u64>::empty()
    &&& forall|i: int|
        0 <= i < events.len() ==> is_next(
            states[i],
            #[trigger] events[i],
            states[i + 1],
            sent_in(events.take(i)),
        )
}

/// Whether no observer occurs twice, and each that is there knows what the task knows from what
/// it has received.
pub open spec fn in_step<N>(state: Background<N>, log: Seq<Sent<N, Update>>) -> bool {
    &&& state.wf()
    &&& forall|i: int, j: int|
        0 <= i < j < state.notifiers@.len() ==> #[trigger] state.notifiers@[i]
            != #[trigger] state.notifiers@[j]
    &&& forall|i: int|
        0 <= i < state.notifiers@.len() ==> crate::proxy::resolve::after(
            crate::sender::received(log, #[trigger] state.notifiers@[i]),
        ) == state.known()
}

proof fn lemma_arrive<N>(
    pre: Background<N>,
    arrival: Arrival<N>,
    sent: Seq<Sent<N, Update>>,
    post: Background<N>,
    log: Seq<Sent<N, Update>>,
)
    requires
        in_step(pre, log),
        is_next(pre, Event::Arrived(arrival, sent), post, log),
    ensures
        in_step(post, log + sent),
{
    let before = pre.notifiers@;
    let all = post.notifiers@;
    match arrival {
        Arrival::Notify(tx) => {
            let entries = crate::handles::entries_of(pre.cache);
            assert forall|i: int| 0 <= i < all.len() implies crate::proxy::resolve::after(
                crate::sender::received(log + sent, #[trigger] all[i]),
            ) == post.known() by {
                crate::sender::lemma_received(log, sent, all[i]);
                if i < before.len() {
                    assert(all[i] == before[i]);
                    assert(before.contains(before[i]));
                    assert forall|k: int| 0 <= k < sent.len() implies (#[trigger] sent[k]).to
                        != all[i] by {}
                    crate::sender::lemma_received_nothing(sent, all[i]);
                    assert(crate::sender::received(log + sent, all[i]) =~= crate::sender::received(
                        log,
                        before[i],
                    ));
                } else {
                    crate::sender::lemma_received_nothing(log, tx);
                    crate::sender::lemma_delivered(tx, told(entries), sent);
                    assert(crate::sender::received(log + sent, tx) =~= told(entries));
                    newcomers_catch_up(entries);
                }
            }
            assert forall|i: int, j: int| 0 <= i < j < all.len() implies #[trigger] all[i]
                != #[trigger] all[j] by {
                assert(all[i] == before[i]);
                if j < before.len() {
                    assert(before[i] != before[j]);
                } else {
                    assert(before.contains(before[i]));
                }
            }
        },
        _ => {
            assert(log + sent =~= log);
        },
    }
}

/// Whoever was sent a single message has received it.
proof fn lemma_told_once<N>(sent: Seq<Sent<N, Update>>, k: int)
    requires
        0 <= k < sent.len(),
        sent[k].ok,
        forall|i: int| 0 <= i < sent.len() && i != k ==> (#[trigger] sent[i]).to != sent[k].to,
    ensures
        crate::sender::received(sent, sent[k].to) == seq![sent[k].message],
{
    let to = sent[k].to;
    let first = sent.take(k);
    let rest = sent.skip(k);
    let one = rest.take(1);
    let last = rest.skip(1);
    assert(sent =~= first + rest);
    assert(rest =~= one + last);
    crate::sender::lemma_received(first, rest, to);
    crate::sender::lemma_received(one, last, to);
    assert forall|i: int| 0 <= i < first.len() implies (#[trigger] first[i]).to != to by {
        assert(first[i] == sent[i]);
    }
    assert forall|i: int| 0 <= i < last.len() implies (#[trigger] last[i]).to != to by {
        assert(last[i] == sent[k + 1 + i]);
    }
    crate::sender::lemma_received_nothing(first, to);
    crate::sender::lemma_received_nothing(last, to);
    assert(one.last() == sent[k]);
    assert(one.drop_last() =~= Seq::empty());
    crate::sender::lemma_received_nothing(one.drop_last(), to);
    assert(crate::sender::received(sent, to) =~= seq![sent[k].message]);
}

/// Those that are reached are distinct, as the observers are.
proof fn lemma_reached_distinct<N>(notifiers: Seq<N>, change: Update, sent: Seq<Sent<N, Update>>)
    requires
        tells(notifiers, change, sent),
        forall|i: int, j: int|
            0 <= i < j < notifiers.len() ==> #[trigger] notifiers[i] != #[trigger] notifiers[j],
    ensures
        forall|i: int, j: int|
            0 <= i < j < reached(sent).len() ==> #[trigger] reached(sent)[i]
                != #[trigger] reached(sent)[j],
    decreases sent.len(),
{
    if sent.len() > 0 {
        let init = sent.drop_last();
        let before = notifiers.drop_last();
        let all = reached(sent);
        assert forall|i: int| 0 <= i < init.len() implies (#[trigger] init[i]).to == before[i]
            && init[i].message == change by {
            assert(init[i] == sent[i]);
        }
        assert forall|i: int, j: int| 0 <= i < j < before.len() implies #[trigger] before[i]
            != #[trigger] before[j] by {
            assert(notifiers[i] != notifiers[j]);
        }
        lemma_reached_distinct(before, change, init);
        assert forall|i: int, j: int| 0 <= i < j < all.len() implies #[trigger] all[i]
            != #[trigger] all[j] by {
            let some = reached(init);
            assert(all[i] == some[i]);
            if j < some.len() {
                assert(some[i] != some[j]);
            } else {
                assert(some.contains(some[i]));
                let k = observers_are_told(before, change, init, some[i]);
                assert(notifiers[k] != notifiers[notifiers.len() - 1]);
                assert(sent[sent.len() - 1].to == notifiers[notifiers.len() - 1]);
            }
        }
    }
}

proof fn lemma_change<N>(
    pre: Background<N>,
    change: Update,
    sent: Seq<Sent<N, Update>>,
    post: Background<N>,
    log: Seq<Sent<N, Update>>,
)
    requires
        in_step(pre, log),
        changes(pre, change, sent, post),
    ensures
        in_step(post, log + sent),
{
    let before = pre.notifiers@;
    let all = post.notifiers@;
    lemma_reached_distinct(before, change, sent);
    assert forall|i: int| 0 <= i < all.len() implies crate::proxy::resolve::after(
        crate::sender::received(log + sent, #[trigger] all[i]),
    ) == post.known() by {
        assert(reached(sent).contains(all[i]));
        let k = observers_are_told(before, change, sent, all[i]);
        assert forall|j: int| 0 <= j < sent.len() && j != k implies (#[trigger] sent[j]).to
            != sent[k].to by {
            if j < k {
                assert(before[j] != before[k]);
            } else {
                assert(before[k] != before[j]);
            }
        }
        lemma_told_once(sent, k);
        crate::sender::lemma_received(log, sent, all[i]);
        let known = crate::sender::received(log, before[k]);
        assert(crate::sender::received(log + sent, all[i]) =~= known.push(change));
        assert(known.push(change).drop_last() =~= known);
        assert(crate::proxy::resolve::after(known) == pre.known());
    }
}

/// However observers come and things change, the task knows what all changes so far amount to,
/// and so does every observer that is still there, from what it has received alone.
pub proof fn observers_know_everything<N>(states: Seq<Background<N>>, events: Seq<Event<N>>)
    requires
        is_history(states, events),
    ensures
        states.last().known() == crate::proxy::resolve::after(changes_in(events)),
        in_step(states.last(), sent_in(events)),
    decreases events.len(),
{
    if events.len() > 0 {
        let n = events.len() - 1;
        let init = events.drop_last();
        let before = states.drop_last();
        assert forall|i: int| 0 <= i < init.len() implies is_next(
            before[i],
            #[trigger] init[i],
            before[i + 1],
            sent_in(init.take(i)),
        ) by {
            assert(init.take(i) =~= events.take(i));
            assert(is_next(states[i], events[i], states[i + 1], sent_in(events.take(i))));
        }
        observers_know_everything(before, init);
        assert(events.take(n) =~= init);
        assert(is_next(states[n], events[n], states[n + 1], sent_in(init)));
        match events[n] {
            Event::Arrived(arrival, sent) => {
                lemma_arrive(states[n], arrival, sent, states[n + 1], sent_in(init));
            },
            Event::Changed(change, sent) => {
                lemma_change(states[n], change, sent, states[n + 1], sent_in(init));
                assert(changes_in(events).drop_last() =~= changes_in(init));
            },
        }
    }
}

/// A new observer is told of everything that there is: as many things as there are keys, each with
/// its service. It stays exactly if all of that could be sent, and comes last then.
pub proof fn newcomers_are_told_everything<N, X: Sender<N, Update>>(
    bg: &mut Background<N>,
    tx: N,
    out: &mut X,
    more: bool,
)
    requires
        call_ensures(
            Background::<N>::arrive::<X>,
            (bg, Arrival::Notify(tx), out),
            more,
        ),
    ensures
        more,
        final(bg).open == old(bg).open,
        final(bg).cache == old(bg).cache,
        ({
            let entries = crate::handles::entries_of(old(bg).cache);
            let n = old(out).log().len();
            &&& final(bg).notifiers@ == old(bg).notifiers@.push(tx) ==> final(out).log().len() == n
                + entries.len() && forall|i: int|
                0 <= i < entries.len() ==> final(out).log()[n + i] == (Sent {
                    to: tx,
                    message: Change::Insert((#[trigger] entries[i]).0, entries[i].1),
                    ok: true,
                })
            &&& final(bg).notifiers@ != old(bg).notifiers@.push(tx) ==> final(bg).notifiers@
                == old(bg).notifiers@ && final(out).log().len() > n && !final(out).log().last().ok
        }),
{
    let entries = crate::handles::entries_of(old(bg).cache);
    let sent = choose|sent: Seq<Sent<N, Update>>| #[trigger]
        arrives(*old(bg), Arrival::Notify(tx), sent, *final(bg)) && final(out).log()
            == old(out).log() + sent;
    let n = old(out).log().len();
    if final(bg).notifiers@ == old(bg).notifiers@.push(tx) {
        assert(old(bg).notifiers@.push(tx).len() == old(bg).notifiers@.len() + 1);
        assert forall|i: int| 0 <= i < entries.len() implies final(out).log()[n + i] == (Sent {
            to: tx,
            message: Change::Insert((#[trigger] entries[i]).0, entries[i].1),
            ok: true,
        }) by {
            assert(final(out).log()[n + i] == sent[i]);
            assert(told(entries)[i] == Change::<u64, u64>::Insert(entries[i].0, entries[i].1));
        }
    } else {
        assert(final(out).log().last() == sent.last());
    }
}

/// Without an observer nothing is sent. Only that none can come any more closes the task.
pub proof fn waiting_changes_nothing<N, X: Sender<N, Update>>(
    bg: &mut Background<N>,
    arrival: Arrival<N>,
    out: &mut X,
    more: bool,
)
    requires
        call_ensures(Background::<N>::arrive::<X>, (bg, arrival, out), more),
        !(arrival is Notify),
    ensures
        !more,
        final(bg).notifiers == old(bg).notifiers,
        final(bg).cache == old(bg).cache,
        final(out).log() == old(out).log(),
        arrival is Closed ==> !final(bg).open,
        arrival is NotReady ==> final(bg).open == old(bg).open,
{
    let sent = choose|sent: Seq<Sent<N, Update>>| #[trigger]
        arrives(*old(bg), arrival, sent, *final(bg)) && final(out).log() == old(out).log() + sent;
    assert(final(out).log() =~= old(out).log());
}

/// A change is sent once to each observer, in order, and those that it could be sent to stay. What
/// is known then is what the change makes of what was known before.
pub proof fn changes_are_told_and_remembered<N, X: Sender<N, Update>>(
    bg: &mut Background<N>,
    change: Update,
    out: &mut X,
)
    requires
        call_ensures(Background::<N>::change::<X>, (bg, change, out), ()),
    ensures
        ({
            let n = old(out).log().len();
            &&& final(out).log().len() == n + old(bg).notifiers@.len()
            &&& forall|i: int|
                0 <= i < old(bg).notifiers@.len() ==> final(out).log()[n + i].to
                    == #[trigger] old(bg).notifiers@[i] && final(out).log()[n + i].message == change
            &&& final(bg).notifiers@.len() <= old(bg).notifiers@.len()
            &&& (forall|i: int| n <= i < final(out).log().len() ==> (
            #[trigger] final(out).log()[i]).ok) ==> final(bg).notifiers@ == old(bg).notifiers@
        }),
        change matches Change::Insert(key, service) ==> final(bg).known()
            == old(bg).known().insert(key, service),
        change matches Change::Remove(key) ==> final(bg).known() == old(bg).known().remove(key),
        final(bg).open == old(bg).open,
{
    let sent = choose|sent: Seq<Sent<N, Update>>| #[trigger]
        changes(*old(bg), change, sent, *final(bg)) && final(out).log() == old(out).log() + sent;
    let n = old(out).log().len();
    let all = old(bg).notifiers@;
    assert forall|i: int| 0 <= i < all.len() implies final(out).log()[n + i].to
        == #[trigger] all[i] && final(out).log()[n + i].message == change by {
        assert(final(out).log()[n + i] == sent[i]);
    }
    lemma_reached(all, change, sent);
    if forall|i: int| n <= i < final(out).log().len() ==> (#[trigger] final(out).log()[i]).ok {
        assert forall|i: int| 0 <= i < sent.len() implies (#[trigger] sent[i]).ok by {
            assert(final(out).log()[n + i].ok);
        }
    }
}

proof fn lemma_reached<N>(notifiers: Seq<N>, change: Update, sent: Seq<Sent<N, Update>>)
    requires
        tells(notifiers, change, sent),
    ensures
        reached(sent).len() <= notifiers.len(),
        (forall|i: int| 0 <= i < sent.len() ==> (#[trigger] sent[i]).ok) ==> reached(sent)
            == notifiers,
    decreases sent.len(),
{
    if sent.len() > 0 {
        let init = sent.drop_last();
        let before = notifiers.drop_last();
        assert forall|i: int| 0 <= i < init.len() implies (#[trigger] init[i]).to == before[i]
            && init[i].message == change by {
            assert(init[i] == sent[i]);
        }
        lemma_reached(before, change, init);
        let n = sent.len() - 1;
        assert(sent[n].to == notifiers[n]);
        if forall|i: int| 0 <= i < sent.len() ==> (#[trigger] sent[i]).ok {
            assert forall|i: int| 0 <= i < init.len() implies (#[trigger] init[i]).ok by {
                assert(init[i] == sent[i]);
            }
            assert(sent[n].ok);
            assert(reached(sent) =~= notifiers);
        }
    } else {
        assert(reached(sent) =~= notifiers);
    }
}

/// The task is done exactly if nobody listens and nobody can come any more. An observer is handed
/// each change, and waits where there is none, for ever if the task has ended.
pub proof fn tasks_end_when_nobody_listens<N, T, E>(
    bg: Background<N>,
    done: bool,
    polled: Result<Async<Option<T>>, E>,
    r: Async<T>,
)
    requires
        call_ensures(Background::<N>::is_done, (&bg,), done),
        call_ensures(next_change::<T, E>, (polled,), r),
    ensures
        bg.open ==> !done,
        bg.notifiers@.len() > 0 ==> !done,
        !bg.open && bg.notifiers@.len() == 0 ==> done,
        polled matches Ok(Async::Ready(Some(change))) ==> r == Async::Ready(change),
        !(polled matches Ok(Async::Ready(Some(_)))) ==> r is NotReady,
{
}

/// Asking for a change fails the task exactly if asking failed, with the same error, and has it
/// wait exactly if there is no change yet. Either way nothing is sent and nothing changes.
pub proof fn sharing_fails_where_discovery_does<N, E, X: Sender<N, Update>>(
    bg: &mut Background<N>,
    polled: Poll<Update, E>,
    out: &mut X,
    r: Option<Poll<(), E>>,
)
    requires
        call_ensures(Background::<N>::discovered::<E, X>, (bg, polled, out), r),
    ensures
        r is None <==> (polled matches Ok(Async::Ready(_))),
        polled matches Err(e) ==> r == Some(Err::<Async<()>, E>(e)),
        polled matches Ok(Async::NotReady) ==> r == Some(Ok::<Async<()>, E>(Async::NotReady)),
        r is Some ==> *final(bg) == *old(bg) && final(out).log() == old(out).log(),
        polled matches Ok(Async::Ready(Change::Insert(key, service))) ==> final(bg).known()
            == old(bg).known().insert(key, service),
        polled matches Ok(Async::Ready(Change::Remove(key))) ==> final(bg).known()
            == old(bg).known().remove(key),
        polled matches Ok(Async::Ready(_)) ==> final(out).log().len() == old(out).log().len()
            + old(bg).notifiers@.len(),
{
}

/// Whoever a change could be sent to stays, and whoever it could not be sent to does not, as long
/// as nobody occurs twice.
pub proof fn only_the_unreachable_are_dropped<N, X: Sender<N, Update>>(
    bg: &mut Background<N>,
    change: Update,
    out: &mut X,
    i: int,
)
    requires
        call_ensures(Background::<N>::change::<X>, (bg, change, out), ()),
        0 <= i < old(bg).notifiers@.len(),
        forall|j: int, k: int|
            0 <= j < k < old(bg).notifiers@.len() ==> #[trigger] old(bg).notifiers@[j]
                != #[trigger] old(bg).notifiers@[k],
    ensures
        final(bg).notifiers@.contains(old(bg).notifiers@[i])
            <==> final(out).log()[old(out).log().len() + i].ok,
{
    let sent = choose|sent: Seq<Sent<N, Update>>| #[trigger]
        changes(*old(bg), change, sent, *final(bg)) && final(out).log() == old(out).log() + sent;
    let all = old(bg).notifiers@;
    let n = old(out).log().len();
    assert(final(out).log()[n + i] == sent[i]);
    if sent[i].ok {
        lemma_reached_at(sent, i);
    } else if reached(sent).contains(all[i]) {
        let k = observers_are_told(all, change, sent, all[i]);
        if k < i {
            assert(all[k] != all[i]);
        } else if i < k {
            assert(all[i] != all[k]);
        }
    }
}

proof fn lemma_reached_at<N>(sent: Seq<Sent<N, Update>>, i: int)
    requires
        0 <= i < sent.len(),
        sent[i].ok,
    ensures
        reached(sent).contains(sent[i].to),
    decreases sent.len(),
{
    let before = reached(sent.drop_last());
    if i == sent.len() - 1 {
        assert(reached(sent)[before.len() as int] == sent[i].to);
    } else {
        lemma_reached_at(sent.drop_last(), i);
        let k = choose|k: int| 0 <= k < before.len() && before[k] == sent[i].to;
        assert(reached(sent)[k] == sent[i].to);
    }
}

} // verus!
