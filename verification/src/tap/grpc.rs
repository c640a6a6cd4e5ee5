//! Serves taps to their observers.
use crate::message::headers::fits_header;
use crate::poll::Async;
use vstd::prelude::*;
use vstd::string::StringExecFns;

verus! {

/// How many events are buffered for an observer: about those of 10 pairs of requests and
/// responses.
pub const PER_REQUEST_BUFFER_CAPACITY: usize = 40;

/// A tap that an observer has asked for.
#[derive(Debug)]
pub struct Tap<M> {
    /// Which requests are tapped.
    pub match_: M,
    /// How many more requests are tapped.
    pub remaining: usize,
}

/// A request for a tap was refused as an invalid argument, with a message.
#[derive(Debug)]
pub struct InvalidArgument {
    pub message: String,
}

/// The message about a match that could not be read.
pub open spec fn message_about(err: Seq<char>) -> Seq<char> {
    if crate::message::headers::is_header_value(err) {
        err
    } else {
        "invalid message"@
    }
}

/// Opens a tap.
///
/// `match_` is what was read of the requested match, or a message on why it could not be read.
/// At least one request must be asked for.
pub fn observe<M>(limit: u32, match_: Result<M, String>) -> (r: Result<Tap<M>, InvalidArgument>)
    ensures
        limit == 0 ==> (r matches Err(e) && e.message@ == "limit must be positive"@),
        limit > 0 ==> match match_ {
            Ok(m) => r matches Ok(tap) && tap.match_ == m && tap.remaining == limit,
            Err(err) => r matches Err(e) && e.message@ == message_about(err@),
        },
{
    if limit == 0 {
        return Err(InvalidArgument { message: String::from_str("limit must be positive") });
    }
    match match_ {
        Ok(match_) => Ok(Tap { match_, remaining: limit as usize }),
        Err(err) => if fits_header(err.as_str()) {
            Err(InvalidArgument { message: err })
        } else {
            Err(InvalidArgument { message: String::from_str("invalid message") })
        },
    }
}

/// Hands on an event to the observer. The stream ends when its channel fails.
pub fn next_event<T>(polled: Result<Async<Option<T>>, ()>) -> (r: Async<Option<T>>)
    ensures
        r == match polled {
            Ok(polled) => polled,
            Err(_) => Async::Ready(None),
        },
{
    match polled {
        Ok(polled) => polled,
        Err(_) => Async::Ready(None),
    }
}

/// How a request claims its place among those that are tapped.
///
/// The number of requests that remain is shared with other tasks. It is only ever replaced
/// with the next smaller one, and only by whoever has read it last.
#[derive(Clone, Copy, Debug, PartialEq, Eq, Structural)]
pub enum Claim {
    /// The remaining number is read.
    Load,
    /// The remaining number is replaced, if it is still the one that was read.
    Swap { from: usize, to: usize },
    /// A place is claimed: the event is sent.
    Emit,
    /// The request is not tapped.
    Skip,
}

impl Claim {
    /// Begins with a request.
    pub fn start(is_match: bool) -> (c: Claim)
        ensures
            c == if is_match {
                Claim::Load
            } else {
                Claim::Skip
            },
    {
        if is_match {
            Claim::Load
        } else {
            Claim::Skip
        }
    }

    /// The remaining number was read. If there is none, the request is not tapped.
    pub fn loaded(n: usize) -> (c: Claim)
        ensures
            c == if n == 0 {
                Claim::Skip
            } else {
                Claim::Swap { from: n, to: (n - 1) as usize }
            },
            c matches Claim::Swap { from, to } ==> from == n && may_swap(from, to),
    {
        if n == 0 {
            Claim::Skip
        } else {
            Claim::Swap { from: n, to: n - 1 }
        }
    }

    /// The remaining number was found to be `found` when it was to be replaced. If that is not
    /// the one that was read, another task has claimed the place, and the request tries again.
    pub fn swapped(from: usize, found: usize) -> (c: Claim)
        ensures
            c == if claims(from, found) {
                Claim::Emit
            } else {
                Claim::Load
            },
    {
        if found == from {
            Claim::Emit
        } else {
            Claim::Load
        }
    }
}

/// Whether a request has claimed a place that has read `from` and then found `found`.
pub open spec fn claims(from: usize, found: usize) -> bool {
    found == from
}

/// Whether replacing `from` with `to` is what a request may do that has read a number.
pub open spec fn may_swap(from: usize, to: usize) -> bool {
    from > 0 && to == from - 1
}

/// An attempt to replace the remaining number, by whichever request.
pub struct Attempt {
    pub from: usize,
    pub to: usize,
    /// The number that was found.
    pub found: usize,
}

/// Whether the remaining number goes through `counts` as requests attempt to replace it: only
/// where it is still the one that a request has read, it is replaced.
pub open spec fn is_history(counts: Seq<usize>, attempts: Seq<Attempt>) -> bool {
    &&& counts.len() == attempts.len() + 1
    &&& forall|i: int| 0 <= i < attempts.len() ==> is_next(
        counts[i],
        #[trigger] attempts[i],
        counts[i + 1],
    )
}

/// Whether an attempt that a request may make takes the remaining number from `pre` to `post`.
pub open spec fn is_next(pre: usize, attempt: Attempt, post: usize) -> bool {
    &&& may_swap(attempt.from, attempt.to)
    &&& attempt.found == pre
    &&& post == if attempt.found == attempt.from {
        attempt.to
    } else {
        pre
    }
}

/// How many attempts claimed a place.
pub open spec fn claimed(attempts: Seq<Attempt>) -> nat
    decreases attempts.len(),
{
    if attempts.len() == 0 {
        0
    } else {
        let last = attempts.last();
        claimed(attempts.drop_last()) + if claims(last.from, last.found) {
            1nat
        } else {
            0nat
        }
    }
}

/// No more requests are tapped than were asked for: however many tasks attempt to claim places,
/// and in whatever order, as many succeed as places are gone.
pub proof fn claims_stay_within_limit(limit: usize, counts: Seq<usize>, attempts: Seq<Attempt>)
    requires
        is_history(counts, attempts),
        counts[0] == limit,
    ensures
        claimed(attempts) <= limit,
        counts.last() == limit - claimed(attempts),
    decreases attempts.len(),
{
    if attempts.len() > 0 {
        let n = attempts.len() - 1;
        let before = counts.drop_last();
        let init = attempts.drop_last();
        assert forall|i: int| 0 <= i < init.len() implies is_next(
            before[i],
            #[trigger] init[i],
            before[i + 1],
        ) by {
            assert(is_next(counts[i], attempts[i], counts[i + 1]));
        }
        claims_stay_within_limit(limit, before, init);
        assert(is_next(counts[n], attempts[n], counts[n + 1]));
    }
}

/// A tap is opened exactly if at least one request is asked for and the match could be read. It
/// taps as many requests as were asked for, and those that the match tells.
pub proof fn taps_are_opened_as_asked<M>(
    limit: u32,
    match_: Result<M, String>,
    r: Result<Tap<M>, InvalidArgument>,
)
    requires
        call_ensures(observe::<M>, (limit, match_), r),
    ensures
        r is Ok <==> limit > 0 && match_ is Ok,
        r matches Ok(tap) ==> tap.remaining == limit && match_ == Ok::<M, String>(tap.match_),
{
}

/// That no request is asked for is told first. A match that could not be read is told with the
/// reason, unless that cannot stand in a header.
pub proof fn refused_taps_are_told_why<M>(
    limit: u32,
    match_: Result<M, String>,
    e: InvalidArgument,
)
    requires
        call_ensures(observe::<M>, (limit, match_), Err(e)),
    ensures
        limit == 0 ==> e.message@ == "limit must be positive"@,
        match_ matches Err(reason) ==> limit > 0 ==> (e.message@ == reason@ || e.message@
            == "invalid message"@),
        match_ matches Err(reason) ==> limit > 0 && (forall|i: int|
            0 <= i < reason@.len() ==> ' ' <= #[trigger] reason@[i] <= '~') ==> e.message@
            == reason@,
{
    if limit > 0 {
        if let Err(reason) = match_ {
            if forall|i: int| 0 <= i < reason@.len() ==> ' ' <= #[trigger] reason@[i] <= '~' {
                crate::message::headers::lemma_printable_value(reason@);
            }
        }
    }
}

/// Events are handed on as they come, and the stream ends where its channel breaks.
pub proof fn events_are_handed_on<T>(polled: Result<Async<Option<T>>, ()>, r: Async<Option<T>>)
    requires
        call_ensures(next_event::<T>, (polled,), r),
    ensures
        polled matches Ok(p) ==> r == p,
        polled is Err ==> r == Async::<Option<T>>::Ready(None),
{
}

/// A request that does not match is never tapped, and one that matches begins by reading how many
/// remain. If none do it is not tapped, and otherwise it tries to take the last of them. It is
/// tapped if nobody was faster, and reads again if somebody was.
pub proof fn places_are_claimed_one_at_a_time(
    is_match: bool,
    n: usize,
    from: usize,
    found: usize,
    a: Claim,
    b: Claim,
    c: Claim,
)
    requires
        call_ensures(Claim::start, (is_match,), a),
        call_ensures(Claim::loaded, (n,), b),
        call_ensures(Claim::swapped, (from, found), c),
    ensures
        a == Claim::Load <==> is_match,
        a == Claim::Skip <==> !is_match,
        b == Claim::Skip <==> n == 0,
        n > 0 ==> (b matches Claim::Swap { from: x, to: y } && x == n && y + 1 == n),
        c == Claim::Emit <==> found == from,
        c == Claim::Load <==> found != from,
{
}

/// A reason that holds a control character other than a tab cannot stand in a header, and is not
/// told.
pub proof fn unprintable_reasons_are_not_told<M>(
    limit: u32,
    reason: String,
    e: InvalidArgument,
    i: int,
)
    requires
        call_ensures(observe::<M>, (limit, Err::<M, String>(reason)), Err(e)),
        limit > 0,
        vstd::utf8::is_ascii_chars(reason@),
        0 <= i < reason@.len(),
        (reason@[i] as u32) < 32 && (reason@[i] as u32) != 9 || (reason@[i] as u32) == 127,
    ensures
        e.message@ == "invalid message"@,
{
    vstd::utf8::is_ascii_chars_encode_utf8(reason@);
    let bytes = vstd::utf8::encode_utf8(reason@);
    assert(!crate::message::headers::is_value_byte(bytes[i]));
}

} // verus!
