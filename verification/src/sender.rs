//! Sending messages, and keeping account of them.
use vstd::prelude::*;

verus! {

/// A message of which it was tried to send it, to whom, and whether that succeeded.
#[derive(Debug)]
pub struct Sent<N, M> {
    pub to: N,
    pub message: M,
    pub ok: bool,
}

/// Sends messages of type `M` to whoever is reached through an `N`.
pub trait Sender<N, M>: Sized {
    /// Whether messages can be sent.
    spec fn is_open(self) -> bool;

    /// Everything that was sent so far, in order.
    spec fn log(self) -> Seq<Sent<N, M>>;

    /// Tries to send a message, and says whether that succeeded.
    fn send(&mut self, to: &N, message: &M) -> (ok: bool)
        requires
            old(self).is_open(),
        ensures
            final(self).is_open(),
            final(self).log() == old(self).log().push(Sent { to: *to, message: *message, ok }),
    ;
}

/// Whether `sent` is what is sent to deliver messages to somebody: all of them in order, up to
/// the first that could not be sent.
pub open spec fn delivers<N, M>(to: N, messages: Seq<M>, sent: Seq<Sent<N, M>>, ok: bool) -> bool {
    &&& sent.len() <= messages.len()
    &&& ok ==> sent.len() == messages.len()
    &&& !ok ==> sent.len() > 0
    &&& forall|i: int|
        0 <= i < sent.len() ==> #[trigger] sent[i] == (Sent {
            to,
            message: messages[i],
            ok: ok || i < sent.len() - 1,
        })
}

/// The messages that were sent to somebody, in order.
pub open spec fn received<N, M>(log: Seq<Sent<N, M>>, to: N) -> Seq<M>
    decreases log.len(),
{
    if log.len() == 0 {
        Seq::empty()
    } else {
        let before = received(log.drop_last(), to);
        if log.last().to == to && log.last().ok {
            before.push(log.last().message)
        } else {
            before
        }
    }
}

/// What was sent later is received later.
pub proof fn lemma_received<N, M>(log: Seq<Sent<N, M>>, more: Seq<Sent<N, M>>, to: N)
    ensures
        received(log + more, to) == received(log, to) + received(more, to),
    decreases more.len(),
{
    let all = log + more;
    if more.len() == 0 {
        assert(all =~= log);
        assert(received(log, to) + received(more, to) =~= received(log, to));
    } else {
        lemma_received(log, more.drop_last(), to);
        assert(all.drop_last() =~= log + more.drop_last());
        assert(all.last() == more.last());
        assert(received(all, to) =~= received(log, to) + received(more, to));
    }
}

/// Who was sent nothing has received nothing.
pub proof fn lemma_received_nothing<N, M>(log: Seq<Sent<N, M>>, to: N)
    requires
        forall|i: int| 0 <= i < log.len() ==> (#[trigger] log[i]).to != to,
    ensures
        received(log, to) == Seq::<M>::empty(),
    decreases log.len(),
{
    if log.len() > 0 {
        let init = log.drop_last();
        assert forall|i: int| 0 <= i < init.len() implies (#[trigger] init[i]).to != to by {
            assert(init[i] == log[i]);
        }
        lemma_received_nothing(init, to);
        assert(log[log.len() - 1].to != to);
    }
}

/// What is delivered is received.
pub proof fn lemma_delivered<N, M>(to: N, messages: Seq<M>, sent: Seq<Sent<N, M>>)
    requires
        delivers(to, messages, sent, true),
    ensures
        received(sent, to) == messages,
    decreases messages.len(),
{
    if messages.len() == 0 {
        assert(messages =~= Seq::empty());
    } else {
        let n = messages.len() - 1;
        let init = sent.drop_last();
        assert forall|i: int| 0 <= i < init.len() implies #[trigger] init[i] == (Sent {
            to,
            message: messages.drop_last()[i],
            ok: true,
        }) by {
            assert(init[i] == sent[i]);
        }
        lemma_delivered(to, messages.drop_last(), init);
        assert(sent[n] == (Sent { to, message: messages[n], ok: true }));
        assert(messages =~= messages.drop_last().push(messages[n]));
    }
}

/// Sends messages with a function.
pub struct SendWith<F, N, M> {
    with: F,
    log: Ghost<Seq<Sent<N, M>>>,
}

impl<F: Fn(&N, &M) -> bool, N, M> SendWith<F, N, M> {
    /// The function that sends messages.
    pub closed spec fn function(self) -> F {
        self.with
    }

    /// Sends messages with `with`. Nothing was sent yet.
    pub fn new(with: F) -> (r: Self)
        ensures
            r.function() == with,
            r.log() == Seq::<Sent<N, M>>::empty(),
    {
        SendWith { with, log: Ghost(Seq::empty()) }
    }
}

impl<F: Fn(&N, &M) -> bool, N, M> Sender<N, M> for SendWith<F, N, M> {
    open spec fn is_open(self) -> bool {
        forall|to: N, message: M| #[trigger] call_requires(self.function(), (&to, &message))
    }

    closed spec fn log(self) -> Seq<Sent<N, M>> {
        self.log@
    }

    /// The function decides whether a message could be sent.
    fn send(&mut self, to: &N, message: &M) -> (ok: bool)
        ensures
            final(self).function() == old(self).function(),
            call_ensures(old(self).function(), (to, message), ok),
    {
        let ok: bool = (self.with)(to, message);
        self.log = Ghost(self.log@.push(Sent { to: *to, message: *message, ok }));
        assert(self.function() == old(self).function());
        assert(self.is_open());
        ok
    }
}

} // verus!
