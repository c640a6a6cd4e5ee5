//! Counts requests and responses.
//!
//! Targets, classes and sets of metrics are known here by numbers. Where counters are shared
//! between tasks, locking is up to the caller, as is the measuring of time.
use crate::app::classify;
use crate::handles::{handle_or_insert, list_handles, no_handles, Handles};
use crate::message::{Request, Response};
use crate::poll::{Async, Poll};
use crate::proxy::classify::{ClassifyEos, ClassifyResponse};
use crate::stack;
use crate::time::Span;
use http::header::{HeaderMap, HeaderValue};
use std::time::Instant;
use vstd::prelude::*;

verus! {

/// What is known of the responses in a class.
#[derive(Debug)]
pub struct ClassMetrics {
    /// How many responses there were.
    pub total: u64,
    /// How long each of them took.
    pub latency: Vec<Span>,
}

/// The metrics of a target.
#[derive(Debug)]
pub struct Metrics {
    /// How many requests there were.
    pub total: u64,
    /// Where in `class_metrics` each class is.
    pub by_class: Handles,
    /// The responses in each class, in the order in which the classes came up.
    pub class_metrics: Vec<ClassMetrics>,
    /// The responses that are in no class.
    pub unclassified: ClassMetrics,
}

/// The metrics of all targets.
#[derive(Debug)]
pub struct Registry {
    /// Where in `metrics` each target is.
    pub by_target: Handles,
    /// The metrics of each target, in the order in which the targets came up.
    pub metrics: Vec<Metrics>,
}

/// How many responses there were, and how long each of them took.
pub struct Tally {
    pub total: u64,
    pub latency: Seq<Span>,
}

/// The requests and responses of a target. Classes are in the order in which they came up.
pub struct Totals {
    pub total: u64,
    pub by_class: Seq<(u64, Tally)>,
    pub unclassified: Tally,
}

impl Tally {
    /// No responses.
    pub open spec fn empty() -> Tally {
        Tally { total: 0, latency: Seq::empty() }
    }

    /// With one more response, that took a given time.
    pub open spec fn plus(self, latency: Span) -> Tally {
        Tally { total: (self.total + 1) as u64, latency: self.latency.push(latency) }
    }
}

impl Totals {
    /// No requests and no responses.
    pub open spec fn empty() -> Totals {
        Totals { total: 0, by_class: Seq::empty(), unclassified: Tally::empty() }
    }

    /// The responses in a class, or in none.
    pub open spec fn responses_in(self, class: Option<u64>) -> Tally {
        match class {
            Some(c) => match crate::handles::place_of(self.by_class, c) {
                Some(i) => self.by_class[i].1,
                None => Tally::empty(),
            },
            None => self.unclassified,
        }
    }

    /// With one more request.
    pub open spec fn with_request(self) -> Totals {
        Totals { total: (self.total + 1) as u64, ..self }
    }

    /// With one more response in a class, or in none, that took a given time. A class that comes
    /// up for the first time comes last.
    pub open spec fn with_response(self, class: Option<u64>, latency: Span) -> Totals {
        let tally = self.responses_in(class).plus(latency);
        match class {
            Some(c) => Totals {
                by_class: crate::handles::with_entry(self.by_class, c, tally),
                ..self
            },
            None => Totals { unclassified: tally, ..self },
        }
    }
}

impl View for ClassMetrics {
    type V = Tally;

    open spec fn view(&self) -> Tally {
        Tally { total: self.total, latency: self.latency@ }
    }
}

impl View for Metrics {
    type V = Totals;

    open spec fn view(&self) -> Totals {
        Totals {
            total: self.total,
            by_class: Seq::new(
                self.class_metrics@.len(),
                |i: int|
                    (
                        crate::handles::entries_of(self.by_class)[i].0,
                        self.class_metrics@[i]@,
                    ),
            ),
            unclassified: self.unclassified@,
        }
    }
}

/// The targets are in the order in which they came up.
impl View for Registry {
    type V = Seq<(u64, Totals)>;

    open spec fn view(&self) -> Seq<(u64, Totals)> {
        Seq::new(
            self.metrics@.len(),
            |i: int| (crate::handles::entries_of(self.by_target)[i].0, self.metrics@[i]@),
        )
    }
}

/// Whether a map numbers `n` keys in order.
pub open spec fn numbers(map: Handles, n: nat) -> bool {
    let entries = crate::handles::entries_of(map);
    &&& crate::handles::distinct(entries)
    &&& entries.len() == n
    &&& forall|i: int| 0 <= i < n ==> (#[trigger] entries[i]).1 == i
}

/// Finds the number of a key. A key that is not there yet is given the next one.
fn number_of(map: &mut Handles, key: u64, n: usize) -> (r: usize)
    requires
        numbers(*old(map), n as nat),
    ensures
        match crate::handles::place_of(crate::handles::entries_of(*old(map)), key) {
            Some(i) => {
                &&& r == i
                &&& 0 <= i < n
                &&& crate::handles::entries_of(*old(map))[i].0 == key
                &&& crate::handles::entries_of(*final(map)) == crate::handles::entries_of(
                    *old(map),
                )
                &&& numbers(*final(map), n as nat)
            },
            None => {
                &&& r == n
                &&& crate::handles::entries_of(*final(map)) == crate::handles::entries_of(
                    *old(map),
                ).push((key, n as u64))
                &&& numbers(*final(map), n as nat + 1)
            },
        },
{
    let ghost entries = crate::handles::entries_of(*map);
    let next: u64 = n as u64;
    proof {
        crate::handles::lemma_with_entry(entries, key, next);
        if crate::handles::place_of(entries, key) is Some {
            assert(crate::handles::is_at(
                entries,
                key,
                crate::handles::place_of(entries, key)->0,
            ));
        }
    }
    let number: u64 = handle_or_insert(map, key, next);
    number as usize
}

impl ClassMetrics {
    /// Each response took some time.
    pub open spec fn wf(self) -> bool {
        self.total == self.latency@.len()
    }

    /// Counts a response, and keeps how long it took.
    pub fn add(&mut self, latency: Span)
        requires
            old(self).total < u64::MAX,
        ensures
            final(self)@ == old(self)@.plus(latency),
            old(self).wf() ==> final(self).wf(),
    {
        self.total = self.total + 1;
        self.latency.push(latency);
        assert(self@ == old(self)@.plus(latency));
    }
}

impl Default for ClassMetrics {
    fn default() -> (r: Self)
        ensures
            r.wf(),
            r@ == Tally::empty(),
    {
        let r = ClassMetrics { total: 0, latency: Vec::new() };
        assert(r@.latency =~= Seq::empty());
        r
    }
}

impl Metrics {
    /// No class occurs twice, and each response in one took some time.
    pub open spec fn wf(self) -> bool {
        &&& numbers(self.by_class, self.class_metrics@.len())
        &&& forall|i: int|
            0 <= i < self.class_metrics@.len() ==> (#[trigger] self.class_metrics@[i]).wf()
        &&& self.unclassified.wf()
    }

    /// Counts a request.
    pub fn count_request(&mut self)
        requires
            old(self).total < u64::MAX,
        ensures
            final(self)@ == old(self)@.with_request(),
            old(self).wf() ==> final(self).wf(),
    {
        self.total = self.total + 1;
        assert(self@.by_class =~= old(self)@.by_class);
    }

    /// Counts a response, in its class or in none, and keeps how long it took.
    pub fn count_response(&mut self, class: Option<u64>, latency: Span)
        requires
            old(self).wf(),
            old(self)@.responses_in(class).total < u64::MAX,
        ensures
            final(self).wf(),
            final(self)@ == old(self)@.with_response(class, latency),
    {
        match class {
            Some(c) => {
                let ghost entries = crate::handles::entries_of(self.by_class);
                let ghost before = self@.by_class;
                proof {
                    crate::handles::lemma_same_keys(entries, before, c);
                }
                let n: usize = self.class_metrics.len();
                let i: usize = number_of(&mut self.by_class, c, n);
                if i == n {
                    self.class_metrics.push(ClassMetrics::default());
                }
                let ghost between = self.class_metrics@;
                self.class_metrics[i].add(latency);
                proof {
                    assert(self.class_metrics@ =~= between.update(
                        i as int,
                        self.class_metrics@[i as int],
                    ));
                    assert(self@.by_class =~= old(self)@.with_response(class, latency).by_class);
                }
            },
            None => {
                self.unclassified.add(latency);
                assert(self@.by_class =~= old(self)@.by_class);
            },
        }
    }
}

impl Default for Metrics {
    fn default() -> (r: Self)
        ensures
            r.wf(),
            r@ == Totals::empty(),
    {
        let r = Metrics {
            total: 0,
            by_class: no_handles(),
            class_metrics: Vec::new(),
            unclassified: ClassMetrics::default(),
        };
        assert(r@.by_class =~= Seq::empty());
        r
    }
}

impl Registry {
    /// No target occurs twice.
    pub open spec fn wf(self) -> bool {
        &&& numbers(self.by_target, self.metrics@.len())
        &&& forall|i: int| 0 <= i < self.metrics@.len() ==> (#[trigger] self.metrics@[i]).wf()
    }

    /// Finds the place of the metrics of a target. A target that comes up for the first time
    /// comes last.
    pub fn metrics_for(&mut self, target: u64) -> (r: usize)
        requires
            old(self).wf(),
        ensures
            final(self).wf(),
            match crate::handles::place_of(old(self)@, target) {
                Some(i) => r == i && final(self)@ == old(self)@,
                None => r == old(self)@.len() && final(self)@ == old(self)@.push(
                    (target, Totals::empty()),
                ),
            },
            r < final(self)@.len(),
            final(self)@[r as int].0 == target,
    {
        proof {
            crate::handles::lemma_same_keys(
                crate::handles::entries_of(self.by_target),
                self@,
                target,
            );
        }
        let n: usize = self.metrics.len();
        let i: usize = number_of(&mut self.by_target, target, n);
        if i == n {
            self.metrics.push(Metrics::default());
            assert(self@ =~= old(self)@.push((target, Totals::empty())));
        } else {
            assert(self@ =~= old(self)@);
        }
        i
    }

    /// Counts a request to the target at a given place.
    pub fn count_request(&mut self, i: usize)
        requires
            old(self).wf(),
            i < old(self)@.len(),
            old(self)@[i as int].1.total < u64::MAX,
        ensures
            final(self).wf(),
            final(self)@ == old(self)@.update(
                i as int,
                (old(self)@[i as int].0, old(self)@[i as int].1.with_request()),
            ),
    {
        let ghost before = self.metrics@;
        self.metrics[i].count_request();
        proof {
            assert(self.metrics@ =~= before.update(i as int, self.metrics@[i as int]));
            assert(self@ =~= old(self)@.update(
                i as int,
                (old(self)@[i as int].0, old(self)@[i as int].1.with_request()),
            ));
        }
    }

    /// Counts a response of the target at a given place, in its class or in none, and keeps how
    /// long it took.
    pub fn count_response(&mut self, i: usize, class: Option<u64>, latency: Span)
        requires
            old(self).wf(),
            i < old(self)@.len(),
            old(self)@[i as int].1.responses_in(class).total < u64::MAX,
        ensures
            final(self).wf(),
            final(self)@ == old(self)@.update(
                i as int,
                (
                    old(self)@[i as int].0,
                    old(self)@[i as int].1.with_response(class, latency),
                ),
            ),
    {
        let ghost before = self.metrics@;
        self.metrics[i].count_response(class, latency);
        proof {
            assert(self.metrics@ =~= before.update(i as int, self.metrics@[i as int]));
            assert(self@ =~= old(self)@.update(
                i as int,
                (
                    old(self)@[i as int].0,
                    old(self)@[i as int].1.with_response(class, latency),
                ),
            ));
        }
    }

    /// Counts a response in the metrics at the place that its record tells.
    pub fn count_record(&mut self, record: &Record<u64, usize>)
        requires
            old(self).wf(),
            record.metrics < old(self)@.len(),
            old(self)@[record.metrics as int].1.responses_in(record.class).total < u64::MAX,
        ensures
            final(self).wf(),
            final(self)@ == old(self)@.update(
                record.metrics as int,
                (
                    old(self)@[record.metrics as int].0,
                    counted(old(self)@[record.metrics as int].1, |c: u64| c, Some(*record)),
                ),
            ),
    {
        assert(numbered(|c: u64| c, record.class) == record.class);
        self.count_response(record.metrics, record.class, record.latency());
    }
}

impl Default for Registry {
    fn default() -> (r: Self)
        ensures
            r.wf(),
            r@ == Seq::<(u64, Totals)>::empty(),
    {
        let r = Registry { by_target: no_handles(), metrics: Vec::new() };
        assert(r@ =~= Seq::empty());
        r
    }
}

/// A service that counts requests and responses, in the metrics that an `M` refers to.
pub struct Measure<S, M> {
    pub metrics: Option<M>,
    pub inner: S,
}

/// A request body that is counted when it is first read.
pub struct RequestBody<B, M> {
    pub metrics: Option<M>,
    pub inner: B,
}

/// What is kept of a request until its response begins.
pub struct Pending<M> {
    pub classify: Option<classify::Response>,
    pub metrics: Option<M>,
    pub stream_open_at: Instant,
}

/// A response body that is counted when it ends.
pub struct ResponseBody<E, C, M> {
    /// The class, if it is known already.
    pub class: Option<C>,
    /// Tells the class when the stream ends.
    pub classify: Option<E>,
    pub metrics: Option<M>,
    /// When the headers of the request were received.
    pub stream_open_at: Instant,
}

/// A response that is to be counted in metrics, with the times that tell its latency.
#[derive(Debug)]
pub struct Record<C, M> {
    pub metrics: M,
    pub class: Option<C>,
    /// When the headers of the request were received.
    pub stream_open_at: Instant,
    /// When the stream of the response was complete, or failed, or was given up.
    pub completed_at: Instant,
}

impl<C, M> Record<C, M> {
    /// How long the response took: from the headers of its request being received to its stream
    /// completing.
    pub fn latency(&self) -> (span: Span)
        ensures
            span == (Span { from: self.stream_open_at, to: self.completed_at }),
    {
        Span { from: self.stream_open_at, to: self.completed_at }
    }
}

/// A stack whose services count requests and responses.
pub struct Make<N> {
    pub inner: N,
}

impl<N> Make<N> {
    /// Builds a service that counts in the metrics that `lookup` finds, if it does. They are
    /// only looked up if a service can be built.
    pub fn make_service<T, M, F: Fn(&T) -> Option<M>>(&self, target: &T, lookup: F) -> (r: Result<
        Measure<N::Value, M>,
        N::Error,
    >) where N: stack::Stack<T>
        requires
            self.inner.accepts(*target),
            call_requires(lookup, (target,)),
        ensures
            match r {
                Ok(measure) => {
                    &&& self.inner.makes(*target, Ok(measure.inner))
                    &&& call_ensures(lookup, (target,), measure.metrics)
                },
                Err(e) => self.inner.makes(*target, Err(e)),
            },
    {
        match self.inner.make(target) {
            Ok(inner) => Ok(Measure { metrics: lookup(target), inner }),
            Err(e) => Err(e),
        }
    }
}

/// Whether a request with a counted body is the original one.
pub open spec fn is_same_request<B, M>(req: Request<B>, new: Request<RequestBody<B, M>>) -> bool {
    &&& new.method == req.method
    &&& new.uri == req.uri
    &&& new.version == req.version
    &&& new.headers == req.headers
    &&& new.extensions == req.extensions
    &&& new.body.inner == req.body
}

impl<S, M: Clone> Measure<S, M> {
    /// Prepares a request to be sent on.
    pub fn call<B>(&self, req: Request<B>, now: Instant) -> (r: (
        Request<RequestBody<B, M>>,
        Pending<M>,
    ))
        ensures
            is_same_request(req, r.0),
            r.1.classify == req.extensions.classify,
            r.1.stream_open_at == now,
            match self.metrics {
                Some(m) => {
                    &&& r.0.body.metrics matches Some(a) && cloned(m, a)
                    &&& r.1.metrics matches Some(b) && cloned(m, b)
                },
                None => r.0.body.metrics is None && r.1.metrics is None,
            },
    {
        let classify: Option<classify::Response> = match &req.extensions.classify {
            Some(classify) => Some(classify.clone()),
            None => None,
        };
        let for_request: Option<M> = match &self.metrics {
            Some(m) => Some(m.clone()),
            None => None,
        };
        let for_response: Option<M> = match &self.metrics {
            Some(m) => Some(m.clone()),
            None => None,
        };
        let new = Request {
            method: req.method,
            uri: req.uri,
            version: req.version,
            headers: req.headers,
            extensions: req.extensions,
            body: RequestBody { metrics: for_request, inner: req.body },
        };
        (new, Pending { classify, metrics: for_response, stream_open_at: now })
    }
}

impl<B, M> RequestBody<B, M> {
    /// Decides whether a request is counted when the inner body was asked for a frame: it is
    /// once, when the first answer comes.
    pub fn poll_data<D, E>(&mut self, polled: &Poll<D, E>) -> (r: Option<M>)
        ensures
            final(self).inner == old(self).inner,
            counts(*old(self), polled matches Ok(Async::Ready(_)), r, *final(self)),
    {
        match polled {
            Ok(Async::Ready(_)) => self.metrics.take(),
            _ => None,
        }
    }
}

/// Whether asking the inner body for a frame, which answers or not, counts the request in `r` and
/// takes its body from `pre` to `post`.
pub open spec fn counts<B, M>(
    pre: RequestBody<B, M>,
    answered: bool,
    r: Option<M>,
    post: RequestBody<B, M>,
) -> bool {
    if answered {
        r == pre.metrics && post.metrics is None
    } else {
        r is None && post.metrics == pre.metrics
    }
}

/// A request is counted once: with the first answer to being asked for a frame, and with no
/// other.
pub proof fn requests_are_counted_once<B, M>(
    bodies: Seq<RequestBody<B, M>>,
    answered: Seq<bool>,
    counted: Seq<Option<M>>,
    i: int,
)
    requires
        bodies.len() == answered.len() + 1,
        counted.len() == answered.len(),
        forall|k: int|
            0 <= k < answered.len() ==> counts(
                bodies[k],
                answered[k],
                #[trigger] counted[k],
                bodies[k + 1],
            ),
        0 <= i < answered.len(),
    ensures
        counted[i] == if answered[i] && !answered.take(i).contains(true) {
            bodies[0].metrics
        } else {
            None
        },
        bodies[i].metrics == if answered.take(i).contains(true) {
            None
        } else {
            bodies[0].metrics
        },
    decreases i,
{
    assert(counts(bodies[i], answered[i], counted[i], bodies[i + 1]));
    if i > 0 {
        requests_are_counted_once(bodies, answered, counted, i - 1);
        assert(counts(bodies[i - 1], answered[i - 1], counted[i - 1], bodies[i]));
        let before = answered.take(i - 1);
        let now = answered.take(i);
        assert(now.contains(true) == (before.contains(true) || answered[i - 1])) by {
            if before.contains(true) {
                let k = choose|k: int| 0 <= k < before.len() && before[k];
                assert(now[k]);
            }
            if answered[i - 1] {
                assert(now[i - 1]);
            }
            if now.contains(true) && !answered[i - 1] {
                let k = choose|k: int| 0 <= k < now.len() && now[k];
                assert(before[k]);
            }
        }
    }
}

/// Whether the classification of a response may begin with the class `class` and the classifier
/// `eos`.
pub open spec fn begins<B>(
    classify: Option<classify::Response>,
    rsp: Response<B>,
    class: Option<classify::Class>,
    eos: Option<classify::Eos>,
) -> bool {
    match classify {
        Some(classify) => eos matches Some(eos) && classify.starts(
            rsp.status,
            rsp.headers,
            (eos, class),
        ),
        None => class is None && eos is None,
    }
}

impl<M> Pending<M> {
    /// Begins to measure a response.
    pub fn start<B>(self, rsp: &Response<B>) -> (r: ResponseBody<
        classify::Eos,
        classify::Class,
        M,
    >)
        ensures
            begins(self.classify, *rsp, r.class, r.classify),
            r.metrics == self.metrics,
            r.stream_open_at == self.stream_open_at,
    {
        match self.classify {
            Some(classify) => {
                let (eos, class) = classify.start(rsp);
                ResponseBody {
                    class,
                    classify: Some(eos),
                    metrics: self.metrics,
                    stream_open_at: self.stream_open_at,
                }
            },
            None => ResponseBody {
                class: None,
                classify: None,
                metrics: self.metrics,
                stream_open_at: self.stream_open_at,
            },
        }
    }
}

/// Whether `class` may be the class of a response that ends: the one that was known already, or
/// else the one that the classifier tells.
pub open spec fn is_final_class<E: ClassifyEos>(
    class: Option<E::Class>,
    classify: Option<E>,
    trailers: Option<HeaderMap<HeaderValue>>,
    r: Option<E::Class>,
) -> bool {
    match (class, classify) {
        (Some(_), _) => r == class,
        (None, Some(classify)) => r matches Some(c) && classify.ends(trailers, c),
        (None, None) => r is None,
    }
}

/// Whether `class` may be the class of a response that fails.
pub open spec fn is_failed_class<E: ClassifyEos>(
    class: Option<E::Class>,
    classify: Option<E>,
    err: E::Error,
    r: Option<E::Class>,
) -> bool {
    match (class, classify) {
        (Some(_), _) => r == class,
        (None, Some(classify)) => r matches Some(c) && classify.fails(err, c),
        (None, None) => r is None,
    }
}

impl<E: ClassifyEos, M> ResponseBody<E, E::Class, M> {
    /// Whether `r` is the record of a response that turned out at a given time to be in `class`.
    /// A response is recorded at most once, and not at all if it has no metrics.
    pub open spec fn records(
        self,
        class: Option<E::Class>,
        now: Instant,
        r: Option<Record<E::Class, M>>,
    ) -> bool {
        r == match self.metrics {
            Some(metrics) => Some(
                Record {
                    metrics,
                    class,
                    stream_open_at: self.stream_open_at,
                    completed_at: now,
                },
            ),
            None => None,
        }
    }

    /// Nothing is left to be told or recorded.
    pub open spec fn is_spent(self) -> bool {
        self.class is None && self.classify is None && self.metrics is None
    }

    /// Whether the end of the stream at a given time, with trailers or without, may give `r`.
    pub open spec fn ends(
        self,
        trailers: Option<HeaderMap<HeaderValue>>,
        now: Instant,
        r: Option<Record<E::Class, M>>,
    ) -> bool {
        exists|class: Option<E::Class>| #[trigger]
            is_final_class(self.class, self.classify, trailers, class) && self.records(
                class,
                now,
                r,
            )
    }

    /// Whether a failure of the stream at a given time may give `r`.
    pub open spec fn fails(
        self,
        err: E::Error,
        now: Instant,
        r: Option<Record<E::Class, M>>,
    ) -> bool {
        exists|class: Option<E::Class>| #[trigger]
            is_failed_class(self.class, self.classify, err, class) && self.records(class, now, r)
    }

    fn record_class(&mut self, class: Option<E::Class>, now: Instant) -> (r: Option<
        Record<E::Class, M>,
    >)
        ensures
            old(self).records(class, now, r),
            *final(self) == (ResponseBody { metrics: None, ..*old(self) }),
    {
        match self.metrics.take() {
            Some(metrics) => Some(
                Record {
                    metrics,
                    class,
                    stream_open_at: self.stream_open_at,
                    completed_at: now,
                },
            ),
            None => None,
        }
    }

    /// The stream has ended.
    fn eos(&mut self, trailers: Option<&HeaderMap<HeaderValue>>, now: Instant) -> (r: Option<
        Record<E::Class, M>,
    >)
        ensures
            old(self).ends(
                match trailers {
                    Some(t) => Some(*t),
                    None => None,
                },
                now,
                r,
            ),
            final(self).is_spent(),
            final(self).stream_open_at == old(self).stream_open_at,
    {
        let class = self.class.take();
        let classify = self.classify.take();
        let class: Option<E::Class> = match class {
            Some(class) => Some(class),
            None => match classify {
                Some(classify) => Some(classify.eos(trailers)),
                None => None,
            },
        };
        let ghost c = class;
        let ghost told = match trailers {
            Some(t) => Some(*t),
            None => None,
        };
        assert(is_final_class(old(self).class, old(self).classify, told, c));
        let r = self.record_class(class, now);
        assert(old(self).ends(told, now, r));
        r
    }

    /// The stream has failed.
    pub fn measure_err(&mut self, err: &E::Error, now: Instant) -> (r: Option<
        Record<E::Class, M>,
    >)
        ensures
            old(self).fails(*err, now, r),
            final(self).is_spent(),
    {
        let class = self.class.take();
        let classify = self.classify.take();
        let class: Option<E::Class> = match class {
            Some(class) => Some(class),
            None => match classify {
                Some(classify) => Some(classify.error(err)),
                None => None,
            },
        };
        let ghost c = class;
        assert(is_failed_class(old(self).class, old(self).classify, *err, c));
        let r = self.record_class(class, now);
        assert(old(self).fails(*err, now, r));
        r
    }

    /// Decides what is recorded when the inner body was asked for a frame. Where that was the
    /// last one, the response has ended.
    pub fn poll_data<D>(
        &mut self,
        polled: &Poll<D, E::Error>,
        is_end_stream: bool,
        now: Instant,
    ) -> (r: Option<Record<E::Class, M>>)
        ensures
            match polled {
                Err(err) => old(self).fails(*err, now, r) && final(self).is_spent(),
                Ok(Async::NotReady) => r is None && *final(self) == *old(self),
                Ok(Async::Ready(_)) => if is_end_stream {
                    old(self).ends(None, now, r) && final(self).is_spent()
                } else {
                    r is None && *final(self) == *old(self)
                },
            },
    {
        match polled {
            Err(err) => self.measure_err(err, now),
            Ok(Async::NotReady) => None,
            Ok(Async::Ready(_)) => {
                if is_end_stream {
                    self.eos(None, now)
                } else {
                    None
                }
            },
        }
    }

    /// Decides what is recorded when the inner body was asked for trailers.
    pub fn poll_trailers(
        &mut self,
        polled: Poll<Option<&HeaderMap<HeaderValue>>, &E::Error>,
        now: Instant,
    ) -> (r: Option<Record<E::Class, M>>)
        ensures
            match polled {
                Err(err) => old(self).fails(*err, now, r) && final(self).is_spent(),
                Ok(Async::NotReady) => r is None && *final(self) == *old(self),
                Ok(Async::Ready(None)) => old(self).ends(None, now, r) && final(self).is_spent(),
                Ok(Async::Ready(Some(trailers))) => old(self).ends(Some(*trailers), now, r)
                    && final(self).is_spent(),
            },
    {
        match polled {
            Err(err) => self.measure_err(err, now),
            Ok(Async::NotReady) => None,
            Ok(Async::Ready(trailers)) => self.eos(trailers, now),
        }
    }

    /// Decides what is recorded when the body is dropped: a response that was not recorded yet
    /// counts as having ended.
    pub fn finish(&mut self, now: Instant) -> (r: Option<Record<E::Class, M>>)
        ensures
            old(self).ends(None, now, r),
            final(self).is_spent(),
    {
        self.eos(None, now)
    }
}

/// What happens to the body of a response, and what is recorded on that account.
pub enum Event<E: ClassifyEos, M> {
    /// A frame came that is not the last.
    Frame,
    /// The stream ended, with trailers or without.
    Ended(Option<HeaderMap<HeaderValue>>, Instant, Option<Record<E::Class, M>>),
    /// The stream failed.
    Failed(E::Error, Instant, Option<Record<E::Class, M>>),
}

/// Whether an event takes a body from `pre` to `post`.
pub open spec fn is_next<E: ClassifyEos, M>(
    pre: ResponseBody<E, E::Class, M>,
    event: Event<E, M>,
    post: ResponseBody<E, E::Class, M>,
) -> bool {
    match event {
        Event::Frame => post == pre,
        Event::Ended(trailers, now, r) => pre.ends(trailers, now, r) && post.is_spent(),
        Event::Failed(err, now, r) => pre.fails(err, now, r) && post.is_spent(),
    }
}

/// When the stream ended or failed, and what was recorded.
pub open spec fn outcome<E: ClassifyEos, M>(event: Event<E, M>) -> Option<
    (Instant, Option<Record<E::Class, M>>),
> {
    match event {
        Event::Frame => None,
        Event::Ended(_, now, r) => Some((now, r)),
        Event::Failed(_, now, r) => Some((now, r)),
    }
}

/// Whether a response whose stream ends or fails with an event is in `class`.
pub open spec fn is_class<E: ClassifyEos, M>(
    body: ResponseBody<E, E::Class, M>,
    event: Event<E, M>,
    class: Option<E::Class>,
) -> bool {
    match event {
        Event::Frame => false,
        Event::Ended(trailers, _, _) => is_final_class(body.class, body.classify, trailers, class),
        Event::Failed(err, _, _) => is_failed_class(body.class, body.classify, err, class),
    }
}

/// Whether a body goes through `bodies` as events come.
pub open spec fn is_history<E: ClassifyEos, M>(
    bodies: Seq<ResponseBody<E, E::Class, M>>,
    events: Seq<Event<E, M>>,
) -> bool {
    &&& bodies.len() == events.len() + 1
    &&& forall|i: int|
        0 <= i < events.len() ==> is_next(bodies[i], #[trigger] events[i], bodies[i + 1])
}

proof fn lemma_open<E: ClassifyEos, M>(
    bodies: Seq<ResponseBody<E, E::Class, M>>,
    events: Seq<Event<E, M>>,
    n: int,
)
    requires
        is_history(bodies, events),
        0 <= n <= events.len(),
        forall|i: int| 0 <= i < n ==> (#[trigger] events[i]) is Frame,
    ensures
        bodies[n] == bodies[0],
    decreases n,
{
    if n > 0 {
        lemma_open(bodies, events, n - 1);
        assert(is_next(bodies[n - 1], events[n - 1], bodies[n]));
        assert(events[n - 1] is Frame);
    }
}

proof fn lemma_spent<E: ClassifyEos, M>(
    bodies: Seq<ResponseBody<E, E::Class, M>>,
    events: Seq<Event<E, M>>,
    i: int,
    n: int,
)
    requires
        is_history(bodies, events),
        0 <= i < n <= events.len(),
        outcome(events[i]) is Some,
    ensures
        bodies[n].is_spent(),
    decreases n,
{
    assert(is_next(bodies[n - 1], events[n - 1], bodies[n]));
    if n > i + 1 {
        lemma_spent(bodies, events, i, n - 1);
    }
}

/// A response with metrics is recorded when its stream first ends or fails, in the class that
/// was known already or that the classifier tells then. What is recorded tells the time from the
/// headers of its request being received up to then.
pub proof fn responses_are_recorded<E: ClassifyEos, M>(
    bodies: Seq<ResponseBody<E, E::Class, M>>,
    events: Seq<Event<E, M>>,
    i: int,
)
    requires
        is_history(bodies, events),
        0 <= i < events.len(),
        outcome(events[i]) is Some,
        forall|j: int| 0 <= j < i ==> (#[trigger] events[j]) is Frame,
    ensures
        outcome(events[i]) matches Some((now, r)) && match bodies[0].metrics {
            Some(metrics) => {
                &&& r matches Some(record)
                &&& record.metrics == metrics
                &&& record.stream_open_at == bodies[0].stream_open_at
                &&& record.completed_at == now
                &&& is_class(bodies[0], events[i], record.class)
            },
            None => r is None,
        },
{
    lemma_open(bodies, events, i);
    assert(is_next(bodies[i], events[i], bodies[i + 1]));
}

/// Each response is recorded once: however its stream ended first, no later end or failure is
/// recorded.
pub proof fn responses_are_recorded_once<E: ClassifyEos, M>(
    bodies: Seq<ResponseBody<E, E::Class, M>>,
    events: Seq<Event<E, M>>,
    i: int,
    j: int,
)
    requires
        is_history(bodies, events),
        0 <= i < j < events.len(),
        outcome(events[i]) is Some,
    ensures
        outcome(events[j]) matches Some((_, r)) ==> r is None,
{
    lemma_spent(bodies, events, i, j);
    assert(is_next(bodies[j], events[j], bodies[j + 1]));
}

/// Adds up the responses in classes.
pub open spec fn total_of(by_class: Seq<(u64, Tally)>) -> nat
    decreases by_class.len(),
{
    if by_class.len() == 0 {
        0
    } else {
        total_of(by_class.drop_last()) + by_class.last().1.total as nat
    }
}

/// Adds up the times that are kept for responses in classes.
pub open spec fn samples_of(by_class: Seq<(u64, Tally)>) -> nat
    decreases by_class.len(),
{
    if by_class.len() == 0 {
        0
    } else {
        samples_of(by_class.drop_last()) + by_class.last().1.latency.len()
    }
}

proof fn lemma_total_updated(by_class: Seq<(u64, Tally)>, i: int, entry: (u64, Tally))
    requires
        0 <= i < by_class.len(),
    ensures
        total_of(by_class.update(i, entry)) == total_of(by_class) - by_class[i].1.total
            + entry.1.total,
        samples_of(by_class.update(i, entry)) == samples_of(by_class)
            - by_class[i].1.latency.len() + entry.1.latency.len(),
    decreases by_class.len(),
{
    let new = by_class.update(i, entry);
    if i == by_class.len() - 1 {
        assert(new.drop_last() =~= by_class.drop_last());
    } else {
        assert(new.drop_last() =~= by_class.drop_last().update(i, entry));
        lemma_total_updated(by_class.drop_last(), i, entry);
    }
}

/// Each response is counted once, and leaves one sample: whatever its class, the responses of
/// its target become one more, and so do the times that are kept.
pub proof fn responses_are_counted_once(totals: Totals, class: Option<u64>, latency: Span)
    requires
        totals.responses_in(class).total < u64::MAX,
    ensures
        ({
            let new = totals.with_response(class, latency);
            &&& new.total == totals.total
            &&& total_of(new.by_class) + new.unclassified.total == total_of(totals.by_class)
                + totals.unclassified.total + 1
            &&& samples_of(new.by_class) + new.unclassified.latency.len() == samples_of(
                totals.by_class,
            ) + totals.unclassified.latency.len() + 1
        }),
{
    if let Some(c) = class {
        let tally = totals.responses_in(class).plus(latency);
        match crate::handles::place_of(totals.by_class, c) {
            Some(i) => {
                assert(crate::handles::is_at(totals.by_class, c, i));
                lemma_total_updated(totals.by_class, i, (c, tally));
            },
            None => {
                assert(totals.by_class.push((c, tally)).drop_last() =~= totals.by_class);
            },
        }
    }
}

/// What a record adds to the metrics that it is for, where classes are known by numbers.
pub open spec fn counted<C, M>(
    totals: Totals,
    number: spec_fn(C) -> u64,
    r: Option<Record<C, M>>,
) -> Totals {
    match r {
        Some(record) => totals.with_response(
            numbered(number, record.class),
            Span { from: record.stream_open_at, to: record.completed_at },
        ),
        None => totals,
    }
}

/// The number of a class, if there is one.
pub open spec fn numbered<C>(number: spec_fn(C) -> u64, class: Option<C>) -> Option<u64> {
    match class {
        Some(class) => Some(number(class)),
        None => None,
    }
}

/// The metrics after all that was recorded of a response has been counted in them.
pub open spec fn counted_in<E: ClassifyEos, M>(
    totals: Totals,
    number: spec_fn(E::Class) -> u64,
    events: Seq<Event<E, M>>,
) -> Totals
    decreases events.len(),
{
    if events.len() == 0 {
        totals
    } else {
        let before = counted_in(totals, number, events.drop_last());
        match outcome(events.last()) {
            Some((_, r)) => counted(before, number, r),
            None => before,
        }
    }
}

/// Whether `new` has one response more than `totals`, that took a given time: in a class, or in
/// none. A class that comes up for the first time comes last, and all others are as they were.
pub open spec fn is_counted(
    totals: Totals,
    class: Option<u64>,
    latency: Span,
    new: Totals,
) -> bool {
    &&& new == totals.with_response(class, latency)
    &&& new.total == totals.total
    &&& forall|c: Option<u64>| #[trigger]
        new.responses_in(c) == if c == class {
            totals.responses_in(c).plus(latency)
        } else {
            totals.responses_in(c)
        }
}

/// Counting a response concerns its class only: with it, or with none, there is one response
/// more and one sample more, and every other class is as it was.
pub proof fn other_classes_are_unchanged(
    totals: Totals,
    class: Option<u64>,
    latency: Span,
    other: Option<u64>,
)
    requires
        crate::handles::distinct(totals.by_class),
    ensures
        totals.with_response(class, latency).responses_in(other) == if other == class {
            totals.responses_in(class).plus(latency)
        } else {
            totals.responses_in(other)
        },
        crate::handles::distinct(totals.with_response(class, latency).by_class),
{
    if let Some(c) = class {
        let tally = totals.responses_in(class).plus(latency);
        crate::handles::lemma_set_entry(totals.by_class, c, tally);
        if other is Some && other != class {
            let o = other->0;
            crate::handles::lemma_other_entry(totals.by_class, c, tally, o);
        }
    }
}

proof fn lemma_nothing_counted<E: ClassifyEos, M>(
    totals: Totals,
    number: spec_fn(E::Class) -> u64,
    events: Seq<Event<E, M>>,
    from: int,
    n: int,
)
    requires
        0 <= from <= n <= events.len(),
        forall|i: int|
            from <= i < n ==> (outcome(#[trigger] events[i]) matches Some((_, r)) ==> r is None),
    ensures
        counted_in(totals, number, events.take(n)) == counted_in(
            totals,
            number,
            events.take(from),
        ),
    decreases n - from,
{
    if from < n {
        lemma_nothing_counted(totals, number, events, from, n - 1);
        assert(events.take(n).drop_last() =~= events.take(n - 1));
        assert(events.take(n).last() == events[n - 1]);
    }
}

/// A response with metrics is counted once. Until its stream first ends or fails, the metrics
/// are as they were. Then they have one response more in its class, or in none, and with it one
/// sample: the time from the headers of its request being received up to then. Whatever comes
/// after that changes nothing.
pub proof fn each_response_is_counted_once<E: ClassifyEos, M>(
    bodies: Seq<ResponseBody<E, E::Class, M>>,
    events: Seq<Event<E, M>>,
    totals: Totals,
    number: spec_fn(E::Class) -> u64,
    i: int,
    n: int,
) -> (class: Option<E::Class>)
    requires
        is_history(bodies, events),
        bodies[0].metrics is Some,
        0 <= i < events.len(),
        outcome(events[i]) is Some,
        forall|j: int| 0 <= j < i ==> (#[trigger] events[j]) is Frame,
        0 <= n <= events.len(),
        crate::handles::distinct(totals.by_class),
    ensures
        is_class(bodies[0], events[i], class),
        n <= i ==> counted_in(totals, number, events.take(n)) == totals,
        n > i ==> {
            let new = counted_in(totals, number, events.take(n));
            &&& outcome(events[i]) matches Some((now, _))
            &&& is_counted(
                totals,
                numbered(number, class),
                Span { from: bodies[0].stream_open_at, to: now },
                new,
            )
        },
{
    responses_are_recorded(bodies, events, i);
    let (now, r) = outcome(events[i])->0;
    let record = r->0;
    assert forall|j: int| 0 <= j < i implies (outcome(#[trigger] events[j]) matches Some((_, r))
        ==> r is None) by {
        assert(events[j] is Frame);
    }
    assert(events.take(0) =~= Seq::empty());
    if n <= i {
        lemma_nothing_counted(totals, number, events, 0, n);
    } else {
        lemma_nothing_counted(totals, number, events, 0, i);
        let upto = events.take(i + 1);
        assert(upto.drop_last() =~= events.take(i));
        assert(upto.last() == events[i]);
        assert forall|j: int| i + 1 <= j < n implies (outcome(#[trigger] events[j]) matches Some(
            (_, r),
        ) ==> r is None) by {
            responses_are_recorded_once(bodies, events, i, j);
        }
        lemma_nothing_counted(totals, number, events, i + 1, n);
        let class = numbered(number, record.class);
        let latency = Span { from: bodies[0].stream_open_at, to: now };
        assert forall|c: Option<u64>| #[trigger]
            totals.with_response(class, latency).responses_in(c) == if c == class {
                totals.responses_in(c).plus(latency)
            } else {
                totals.responses_in(c)
            } by {
            other_classes_are_unchanged(totals, class, latency, c);
        }
    }
    record.class
}

/// A response without metrics is not counted.
pub proof fn unmeasured_responses_are_not_counted<E: ClassifyEos, M>(
    bodies: Seq<ResponseBody<E, E::Class, M>>,
    events: Seq<Event<E, M>>,
    totals: Totals,
    number: spec_fn(E::Class) -> u64,
)
    requires
        is_history(bodies, events),
        bodies[0].metrics is None,
    ensures
        counted_in(totals, number, events) == totals,
        bodies.last().metrics is None,
    decreases events.len(),
{
    if events.len() > 0 {
        let init = events.drop_last();
        let before = bodies.drop_last();
        let n = events.len() - 1;
        assert forall|i: int| 0 <= i < init.len() implies is_next(
            before[i],
            #[trigger] init[i],
            before[i + 1],
        ) by {
            assert(is_next(bodies[i], events[i], bodies[i + 1]));
        }
        unmeasured_responses_are_not_counted(before, init, totals, number);
        assert(is_next(bodies[n], events[n], bodies[n + 1]));
    }
}

/// What is reported.
#[derive(Clone, Copy, Debug, PartialEq, Eq, Structural)]
pub enum Metric {
    /// Total count of HTTP requests.
    RequestTotal,
    /// Total count of HTTP responses.
    ResponseTotal,
    /// Elapsed times between a request's headers being received
    /// and its response stream completing.
    ResponseLatencyMs,
}

/// What a report holds, line by line.
#[derive(Clone, Copy, Debug, PartialEq, Eq)]
pub enum Line<'a> {
    /// The description of a metric.
    Help(Metric),
    /// A metric of a target.
    Target(Metric, u64, Value<'a>),
    /// A metric of the responses of a target in a class.
    Class(Metric, u64, u64, Value<'a>),
}

/// What a metric amounts to.
#[derive(Clone, Copy, Debug, PartialEq, Eq)]
pub enum Value<'a> {
    Count(u64),
    Latency(&'a Vec<Span>),
}

/// What a line holds.
pub enum Reported {
    Help(Metric),
    Target(Metric, u64, Amount),
    Class(Metric, u64, u64, Amount),
}

/// What a metric amounts to.
pub enum Amount {
    Count(u64),
    Latency(Seq<Span>),
}

impl<'a> View for Value<'a> {
    type V = Amount;

    open spec fn view(&self) -> Amount {
        match self {
            Value::Count(n) => Amount::Count(*n),
            Value::Latency(latency) => Amount::Latency(latency@),
        }
    }
}

impl<'a> View for Line<'a> {
    type V = Reported;

    open spec fn view(&self) -> Reported {
        match self {
            Line::Help(metric) => Reported::Help(*metric),
            Line::Target(metric, target, value) => Reported::Target(*metric, *target, value@),
            Line::Class(metric, target, class, value) => Reported::Class(
                *metric,
                *target,
                *class,
                value@,
            ),
        }
    }
}

impl Tally {
    /// What is reported of the responses in a class, or in none.
    pub open spec fn amount(self, metric: Metric) -> Amount {
        match metric {
            Metric::ResponseLatencyMs => Amount::Latency(self.latency),
            _ => Amount::Count(self.total),
        }
    }
}

impl Totals {
    /// What is reported of a target: its requests, or its responses that are in no class.
    pub open spec fn amount(self, metric: Metric) -> Amount {
        match metric {
            Metric::RequestTotal => Amount::Count(self.total),
            _ => self.unclassified.amount(metric),
        }
    }
}

/// What was written.
pub open spec fn written(lines: Seq<Line<'_>>) -> Seq<Reported> {
    lines.map_values(|line: Line<'_>| line@)
}

/// A line for each target.
pub open spec fn by_target(targets: Seq<(u64, Totals)>, metric: Metric) -> Seq<Reported> {
    targets.map_values(|t: (u64, Totals)| Reported::Target(metric, t.0, t.1.amount(metric)))
}

/// A line for each class of a target.
pub open spec fn classes_of(
    target: u64,
    by_class: Seq<(u64, Tally)>,
    metric: Metric,
) -> Seq<Reported> {
    by_class.map_values(
        |c: (u64, Tally)| Reported::Class(metric, target, c.0, c.1.amount(metric)),
    )
}

/// A line for each class of each target.
pub open spec fn by_class(targets: Seq<(u64, Totals)>, metric: Metric) -> Seq<Reported>
    decreases targets.len(),
{
    if targets.len() == 0 {
        Seq::empty()
    } else {
        let (target, totals) = targets.last();
        by_class(targets.drop_last(), metric) + classes_of(target, totals.by_class, metric)
    }
}

/// The whole report. There is none before there are targets.
pub open spec fn report_of(targets: Seq<(u64, Totals)>) -> Seq<Reported> {
    if targets.len() == 0 {
        Seq::empty()
    } else {
        seq![Reported::Help(Metric::RequestTotal)] + by_target(targets, Metric::RequestTotal)
            + seq![Reported::Help(Metric::ResponseTotal)] + by_class(targets, Metric::ResponseTotal)
            + by_target(targets, Metric::ResponseTotal) + seq![
            Reported::Help(Metric::ResponseLatencyMs),
        ] + by_class(targets, Metric::ResponseLatencyMs) + by_target(
            targets,
            Metric::ResponseLatencyMs,
        )
    }
}

impl ClassMetrics {
    /// What is reported of the responses in a class, or in none.
    pub fn value(&self, metric: Metric) -> (r: Value<'_>)
        ensures
            r@ == self@.amount(metric),
    {
        match metric {
            Metric::ResponseLatencyMs => Value::Latency(&self.latency),
            _ => Value::Count(self.total),
        }
    }
}

impl Metrics {
    /// What is reported of a target: its requests, or its responses that are in no class.
    pub fn value(&self, metric: Metric) -> (r: Value<'_>)
        ensures
            r@ == self@.amount(metric),
    {
        match metric {
            Metric::RequestTotal => Value::Count(self.total),
            _ => self.unclassified.value(metric),
        }
    }
}

fn push_line<'a>(lines: &mut Vec<Line<'a>>, line: Line<'a>)
    ensures
        written(final(lines)@) == written(old(lines)@).push(line@),
{
    lines.push(line);
    assert(written(lines@) =~= written(old(lines)@).push(line@));
}

impl Registry {
    fn fmt_by_target<'a>(&'a self, lines: &mut Vec<Line<'a>>, metric: Metric)
        requires
            self.wf(),
        ensures
            written(final(lines)@) == written(old(lines)@) + by_target(self@, metric),
    {
        let ghost before = written(lines@);
        let targets = list_handles(&self.by_target);
        assert(before + by_target(self@.take(0), metric) =~= before);
        for i in 0..targets.len()
            invariant
                self.wf(),
                targets@ == crate::handles::entries_of(self.by_target),
                written(lines@) == before + by_target(self@.take(i as int), metric),
        {
            push_line(lines, Line::Target(metric, targets[i].0, self.metrics[i].value(metric)));
            assert(written(lines@) =~= before + by_target(self@.take(i + 1), metric));
        }
        assert(self@.take(self@.len() as int) =~= self@);
    }

    fn fmt_by_class<'a>(&'a self, lines: &mut Vec<Line<'a>>, metric: Metric)
        requires
            self.wf(),
        ensures
            written(final(lines)@) == written(old(lines)@) + by_class(self@, metric),
    {
        let ghost before = written(lines@);
        let targets = list_handles(&self.by_target);
        assert(before + by_class(self@.take(0), metric) =~= before);
        for i in 0..targets.len()
            invariant
                self.wf(),
                targets@ == crate::handles::entries_of(self.by_target),
                written(lines@) == before + by_class(self@.take(i as int), metric),
        {
            let ghost start = written(lines@);
            let target: u64 = targets[i].0;
            let metrics: &'a Metrics = &self.metrics[i];
            let classes = list_handles(&metrics.by_class);
            let ghost totals = metrics@;
            assert(self@[i as int] == (target, totals));
            assert(start + classes_of(target, totals.by_class.take(0), metric) =~= start);
            for j in 0..classes.len()
                invariant
                    metrics.wf(),
                    totals == metrics@,
                    classes@ == crate::handles::entries_of(metrics.by_class),
                    written(lines@) == start + classes_of(
                        target,
                        totals.by_class.take(j as int),
                        metric,
                    ),
            {
                let value = metrics.class_metrics[j].value(metric);
                push_line(lines, Line::Class(metric, target, classes[j].0, value));
                assert(written(lines@) =~= start + classes_of(
                    target,
                    totals.by_class.take(j + 1),
                    metric,
                ));
            }
            assert(totals.by_class.take(totals.by_class.len() as int) =~= totals.by_class);
            assert(self@.take(i + 1).drop_last() =~= self@.take(i as int));
            assert(written(lines@) =~= before + by_class(self@.take(i + 1), metric));
        }
        assert(self@.take(self@.len() as int) =~= self@);
    }

    /// Lays out a report: targets, and the classes of each, in the order in which they came up.
    pub fn fmt_metrics(&self) -> (lines: Vec<Line<'_>>)
        requires
            self.wf(),
        ensures
            written(lines@) == report_of(self@),
    {
        let mut lines: Vec<Line<'_>> = Vec::new();
        assert(written(lines@) =~= Seq::empty());
        if self.metrics.len() == 0 {
            return lines;
        }
        push_line(&mut lines, Line::Help(Metric::RequestTotal));
        self.fmt_by_target(&mut lines, Metric::RequestTotal);
        push_line(&mut lines, Line::Help(Metric::ResponseTotal));
        self.fmt_by_class(&mut lines, Metric::ResponseTotal);
        self.fmt_by_target(&mut lines, Metric::ResponseTotal);
        push_line(&mut lines, Line::Help(Metric::ResponseLatencyMs));
        self.fmt_by_class(&mut lines, Metric::ResponseLatencyMs);
        self.fmt_by_target(&mut lines, Metric::ResponseLatencyMs);
        assert(written(lines@) =~= report_of(self@));
        lines
    }
}

/// A target that comes up for the first time comes last, with nothing counted yet. One that came
/// up before keeps its place, and nothing changes then.
pub proof fn targets_keep_their_place(registry: &mut Registry, target: u64, r: usize)
    requires
        call_ensures(Registry::metrics_for, (registry, target), r),
    ensures
        r < final(registry)@.len(),
        final(registry)@[r as int].0 == target,
        r < old(registry)@.len() ==> final(registry)@ == old(registry)@,
        r >= old(registry)@.len() ==> {
            &&& final(registry)@.len() == old(registry)@.len() + 1
            &&& final(registry)@.drop_last() == old(registry)@
            &&& final(registry)@.last().1.total == 0
            &&& final(registry)@.last().1.by_class.len() == 0
            &&& final(registry)@.last().1.unclassified.total == 0
            &&& final(registry)@.last().1.unclassified.latency.len() == 0
            &&& forall|i: int|
                0 <= i < old(registry)@.len() ==> (#[trigger] old(registry)@[i]).0 != target
        },
{
    if crate::handles::place_of(old(registry)@, target) is Some {
        let i = crate::handles::place_of(old(registry)@, target)->0;
        assert(crate::handles::is_at(old(registry)@, target, i));
    } else {
        assert(final(registry)@.drop_last() =~= old(registry)@);
        assert forall|i: int| 0 <= i < old(registry)@.len() implies (
        #[trigger] old(registry)@[i]).0 != target by {
            assert(!crate::handles::is_at(old(registry)@, target, i));
        }
    }
}

/// Counting a request adds one to the requests of its target, and changes nothing else: no
/// response, and no other target.
pub proof fn requests_are_counted_for_their_target(registry: &mut Registry, i: usize)
    requires
        call_ensures(Registry::count_request, (registry, i), ()),
        i < old(registry)@.len(),
        old(registry)@[i as int].1.total < u64::MAX,
    ensures
        final(registry)@.len() == old(registry)@.len(),
        final(registry)@[i as int].0 == old(registry)@[i as int].0,
        final(registry)@[i as int].1.total == old(registry)@[i as int].1.total + 1,
        final(registry)@[i as int].1.by_class == old(registry)@[i as int].1.by_class,
        final(registry)@[i as int].1.unclassified == old(registry)@[i as int].1.unclassified,
        forall|j: int|
            0 <= j < old(registry)@.len() && j != i ==> #[trigger] final(registry)@[j]
                == old(registry)@[j],
{
}

/// Counting a response adds one to the responses of its target in its class, or in none, and one
/// sample: the time from the headers of its request being received up to its completion. It
/// changes no other class, no count of requests, and no other target.
pub proof fn records_are_counted_where_they_belong(
    registry: &mut Registry,
    record: Record<u64, usize>,
    class: Option<u64>,
)
    requires
        call_ensures(Registry::count_record, (registry, &record), ()),
        record.metrics < old(registry)@.len(),
        old(registry)@[record.metrics as int].1.responses_in(record.class).total < u64::MAX,
        crate::handles::distinct(old(registry)@[record.metrics as int].1.by_class),
    ensures
        final(registry)@.len() == old(registry)@.len(),
        ({
            let before = old(registry)@[record.metrics as int].1;
            let after = final(registry)@[record.metrics as int].1;
            &&& after.total == before.total
            &&& class == record.class ==> after.responses_in(class).total == before.responses_in(
                class,
            ).total + 1 && after.responses_in(class).latency == before.responses_in(
                class,
            ).latency.push(Span { from: record.stream_open_at, to: record.completed_at })
            &&& class != record.class ==> after.responses_in(class) == before.responses_in(class)
        }),
        forall|j: int|
            0 <= j < old(registry)@.len() && j != record.metrics ==> #[trigger] final(registry)@[j]
                == old(registry)@[j],
{
    let before = old(registry)@[record.metrics as int].1;
    let latency = Span { from: record.stream_open_at, to: record.completed_at };
    assert(numbered(|c: u64| c, record.class) == record.class);
    other_classes_are_unchanged(before, record.class, latency, class);
}

/// The responses of a target in a class are those in its entry for the class, where there is one,
/// and none where there is none. Those in no class are kept apart.
pub proof fn classes_are_found_by_number(totals: Totals, i: int, class: u64)
    requires
        crate::handles::distinct(totals.by_class),
    ensures
        0 <= i < totals.by_class.len() ==> totals.responses_in(Some(totals.by_class[i].0))
            == totals.by_class[i].1,
        (forall|j: int| 0 <= j < totals.by_class.len() ==> (#[trigger] totals.by_class[j]).0
            != class) ==> totals.responses_in(Some(class)).total == 0 && totals.responses_in(
            Some(class),
        ).latency.len() == 0,
        totals.responses_in(None) == totals.unclassified,
{
    if 0 <= i < totals.by_class.len() {
        assert(crate::handles::is_at(totals.by_class, totals.by_class[i].0, i));
        crate::handles::lemma_place(totals.by_class, totals.by_class[i].0, i);
    }
    if crate::handles::place_of(totals.by_class, class) is Some {
        assert(crate::handles::is_at(
            totals.by_class,
            class,
            crate::handles::place_of(totals.by_class, class)->0,
        ));
    }
}

/// How many lines there are for the classes of all targets.
pub open spec fn class_lines(targets: Seq<(u64, Totals)>) -> nat
    decreases targets.len(),
{
    if targets.len() == 0 {
        0
    } else {
        class_lines(targets.drop_last()) + targets.last().1.by_class.len()
    }
}

proof fn lemma_class_lines(targets: Seq<(u64, Totals)>, metric: Metric)
    ensures
        by_class(targets, metric).len() == class_lines(targets),
    decreases targets.len(),
{
    if targets.len() > 0 {
        lemma_class_lines(targets.drop_last(), metric);
    }
}

/// Where the line for a class of a target is among those for all classes.
proof fn lemma_class_line(targets: Seq<(u64, Totals)>, metric: Metric, i: int, k: int)
    requires
        0 <= i < targets.len(),
        0 <= k < targets[i].1.by_class.len(),
    ensures
        class_lines(targets.take(i)) + k < by_class(targets, metric).len(),
        by_class(targets, metric)[class_lines(targets.take(i)) + k] == Reported::Class(
            metric,
            targets[i].0,
            targets[i].1.by_class[k].0,
            targets[i].1.by_class[k].1.amount(metric),
        ),
    decreases targets.len(),
{
    let init = targets.drop_last();
    lemma_class_lines(targets, metric);
    lemma_class_lines(init, metric);
    if i == targets.len() - 1 {
        assert(targets.take(i) =~= init);
    } else {
        lemma_class_line(init, metric, i, k);
        assert(init.take(i) =~= targets.take(i));
        assert(init[i] == targets[i]);
    }
}

/// A report tells of each target, in the order in which they came up, how many requests it had.
/// Then it tells of each target how many responses it had in each class, in the order in which
/// the classes came up, and after those of all targets, how many in no class. There is no report
/// before there are targets.
pub proof fn reports_tell_all_counts<'a>(
    registry: &'a Registry,
    lines: Vec<Line<'a>>,
    i: int,
    k: int,
)
    requires
        call_ensures(Registry::fmt_metrics, (registry,), lines),
    ensures
        registry@.len() == 0 ==> lines@.len() == 0,
        0 <= i < registry@.len() ==> {
            let n = registry@.len() as int;
            let m = class_lines(registry@) as int;
            let (target, totals) = registry@[i];
            let written = written(lines@);
            &&& written.len() == 3 + 3 * n + 2 * m
            &&& written[0] == Reported::Help(Metric::RequestTotal)
            &&& written[1 + i] == Reported::Target(
                Metric::RequestTotal,
                target,
                Amount::Count(totals.total),
            )
            &&& written[1 + n] == Reported::Help(Metric::ResponseTotal)
            &&& 0 <= k < totals.by_class.len() ==> written[2 + n + class_lines(registry@.take(i))
                + k] == Reported::Class(
                Metric::ResponseTotal,
                target,
                totals.by_class[k].0,
                Amount::Count(totals.by_class[k].1.total),
            )
            &&& written[2 + n + m + i] == Reported::Target(
                Metric::ResponseTotal,
                target,
                Amount::Count(totals.unclassified.total),
            )
        },
{
    let targets = registry@;
    let n = targets.len() as int;
    let m = class_lines(targets) as int;
    lemma_class_lines(targets, Metric::ResponseTotal);
    lemma_class_lines(targets, Metric::ResponseLatencyMs);
    assert(written(lines@).len() == lines@.len());
    if 0 <= i < n {
        let (target, totals) = targets[i];
        if 0 <= k < totals.by_class.len() {
            lemma_class_line(targets, Metric::ResponseTotal, i, k);
        }
    }
}

/// A report ends with how long responses took: for each target in each class, and then for each
/// target in no class, all samples that were kept.
pub proof fn reports_tell_all_samples<'a>(
    registry: &'a Registry,
    lines: Vec<Line<'a>>,
    i: int,
    k: int,
)
    requires
        call_ensures(Registry::fmt_metrics, (registry,), lines),
        0 <= i < registry@.len(),
    ensures
        ({
            let n = registry@.len() as int;
            let m = class_lines(registry@) as int;
            let (target, totals) = registry@[i];
            let written = written(lines@);
            &&& written.len() == 3 + 3 * n + 2 * m
            &&& written[2 + 2 * n + m] == Reported::Help(Metric::ResponseLatencyMs)
            &&& 0 <= k < totals.by_class.len() ==> written[3 + 2 * n + m + class_lines(
                registry@.take(i),
            ) + k] == Reported::Class(
                Metric::ResponseLatencyMs,
                target,
                totals.by_class[k].0,
                Amount::Latency(totals.by_class[k].1.latency),
            )
            &&& written[3 + 2 * n + 2 * m + i] == Reported::Target(
                Metric::ResponseLatencyMs,
                target,
                Amount::Latency(totals.unclassified.latency),
            )
        }),
{
    let targets = registry@;
    let n = targets.len() as int;
    let m = class_lines(targets) as int;
    lemma_class_lines(targets, Metric::ResponseTotal);
    lemma_class_lines(targets, Metric::ResponseLatencyMs);
    let (target, totals) = targets[i];
    if 0 <= k < totals.by_class.len() {
        lemma_class_line(targets, Metric::ResponseLatencyMs, i, k);
    }
}

/// A request is measured from now on, and its response is going to be classified as the request
/// notes. The request itself stays as it is.
pub proof fn measured_requests_are_unchanged<S, M: Clone, B>(
    service: Measure<S, M>,
    req: Request<B>,
    now: Instant,
    new: Request<RequestBody<B, M>>,
    pending: Pending<M>,
)
    requires
        call_ensures(Measure::<S, M>::call::<B>, (&service, req, now), (new, pending)),
    ensures
        new.method == req.method,
        new.uri == req.uri,
        new.version == req.version,
        new.headers == req.headers,
        new.extensions == req.extensions,
        new.body.inner == req.body,
        pending.stream_open_at == now,
        pending.classify == req.extensions.classify,
        pending.metrics is Some <==> service.metrics is Some,
        new.body.metrics is Some <==> service.metrics is Some,
{
}

/// A response is measured from when its request was, for the same metrics. It begins to be
/// classified exactly if its request noted how.
pub proof fn responses_are_measured_from_the_request<M, B>(
    pending: Pending<M>,
    rsp: Response<B>,
    r: ResponseBody<classify::Eos, classify::Class, M>,
)
    requires
        call_ensures(Pending::<M>::start::<B>, (pending, &rsp), r),
    ensures
        r.stream_open_at == pending.stream_open_at,
        r.metrics == pending.metrics,
        r.classify is Some <==> pending.classify is Some,
        pending.classify is None ==> r.class is None,
        pending.classify matches Some(c) ==> r.classify matches Some(eos) ==> c.starts(
            rsp.status,
            rsp.headers,
            (eos, r.class),
        ),
{
}

/// A response is recorded when a poll for a frame finds the last one or fails, when a poll for
/// trailers is answered, and when its body is dropped, whichever comes first: then if it has
/// metrics, with the time of its request and the time of its completion. Otherwise nothing is.
pub proof fn ends_and_failures_are_recorded<E: ClassifyEos, M, D>(
    a: &mut ResponseBody<E, E::Class, M>,
    polled: Poll<D, E::Error>,
    is_end_stream: bool,
    b: &mut ResponseBody<E, E::Class, M>,
    now: Instant,
    x: Option<Record<E::Class, M>>,
    y: Option<Record<E::Class, M>>,
)
    requires
        call_ensures(
            ResponseBody::<E, E::Class, M>::poll_data::<D>,
            (a, &polled, is_end_stream, now),
            x,
        ),
        call_ensures(ResponseBody::<E, E::Class, M>::finish, (b, now), y),
    ensures
        ({
            let ends = polled is Err || (polled matches Ok(Async::Ready(_))) && is_end_stream;
            &&& x is Some <==> ends && old(a).metrics is Some
            &&& !ends ==> *final(a) == *old(a)
            &&& ends ==> final(a).metrics is None
        }),
        x matches Some(record) ==> Some(record.metrics) == old(a).metrics
            && record.stream_open_at == old(a).stream_open_at && record.completed_at == now,
        x matches Some(record) ==> old(a).class is Some ==> record.class == old(a).class,
        y is Some <==> old(b).metrics is Some,
        y matches Some(record) ==> Some(record.metrics) == old(b).metrics
            && record.stream_open_at == old(b).stream_open_at && record.completed_at == now,
        y matches Some(record) ==> old(b).class is Some ==> record.class == old(b).class,
        final(b).metrics is None,
{
}

/// Trailers end a response: once they have been asked for and an answer has come, with trailers or
/// without, the response is recorded. If asking fails it is recorded too.
pub proof fn trailers_end_responses<E: ClassifyEos, M>(
    a: &mut ResponseBody<E, E::Class, M>,
    polled: Poll<Option<&HeaderMap<HeaderValue>>, &E::Error>,
    now: Instant,
    x: Option<Record<E::Class, M>>,
)
    requires
        call_ensures(
            ResponseBody::<E, E::Class, M>::poll_trailers,
            (a, polled, now),
            x,
        ),
    ensures
        polled matches Ok(Async::NotReady) ==> x is None && *final(a) == *old(a),
        !(polled matches Ok(Async::NotReady)) ==> (x is Some <==> old(a).metrics is Some),
        !(polled matches Ok(Async::NotReady)) ==> final(a).metrics is None,
        x matches Some(record) ==> record.stream_open_at == old(a).stream_open_at
            && record.completed_at == now,
        x matches Some(record) ==> old(a).class is Some ==> record.class == old(a).class,
        x matches Some(record) ==> old(a).class is None && old(a).classify is None ==> record.class
            is None,
{
}

/// A response of unknown class is put by its classifier in the class that the trailers tell, or
/// the error. Without a classifier it is in none.
pub proof fn classifiers_have_the_last_word<E: ClassifyEos, M>(
    a: &mut ResponseBody<E, E::Class, M>,
    trailers: Option<&HeaderMap<HeaderValue>>,
    b: &mut ResponseBody<E, E::Class, M>,
    err: E::Error,
    now: Instant,
    x: Record<E::Class, M>,
    y: Record<E::Class, M>,
)
    requires
        call_ensures(
            ResponseBody::<E, E::Class, M>::poll_trailers,
            (a, Ok::<Async<Option<&HeaderMap<HeaderValue>>>, &E::Error>(Async::Ready(trailers)), now),
            Some(x),
        ),
        call_ensures(ResponseBody::<E, E::Class, M>::measure_err, (b, &err, now), Some(y)),
        old(a).class is None,
        old(b).class is None,
    ensures
        old(a).classify is None ==> x.class is None,
        old(a).classify matches Some(c) ==> (x.class matches Some(class) && c.ends(
            match trailers {
                Some(t) => Some(*t),
                None => None,
            },
            class,
        )),
        old(b).classify is None ==> y.class is None,
        old(b).classify matches Some(c) ==> (y.class matches Some(class) && c.fails(err, class)),
{
}

/// A service is measured with the metrics that are found for its target, and is the one that the
/// inner stack builds.
pub proof fn services_are_measured_for_their_target<
    N: stack::Stack<T>,
    T,
    M,
    F: Fn(&T) -> Option<M>,
>(make: Make<N>, target: T, lookup: F, r: Result<Measure<N::Value, M>, N::Error>)
    requires
        call_ensures(Make::<N>::make_service::<T, M, F>, (&make, &target, lookup), r),
    ensures
        r matches Ok(measure) ==> make.inner.makes(target, Ok(measure.inner)) && call_ensures(
            lookup,
            (&target,),
            measure.metrics,
        ),
        r matches Err(e) ==> make.inner.makes(target, Err(e)),
{
}

/// How long a response took runs from the headers of its request being received up to the
/// completion of its stream.
pub proof fn latency_runs_to_completion<C, M>(record: Record<C, M>, span: Span)
    requires
        call_ensures(Record::<C, M>::latency, (&record,), span),
    ensures
        span.from == record.stream_open_at,
        span.to == record.completed_at,
{
}

/// Counting in the metrics of one target adds one request, or one response with its sample in its
/// class only.
pub proof fn metrics_count_one_at_a_time(
    a: &mut Metrics,
    b: &mut Metrics,
    class: Option<u64>,
    latency: Span,
    other: Option<u64>,
)
    requires
        call_ensures(Metrics::count_request, (a,), ()),
        old(a).total < u64::MAX,
        call_ensures(Metrics::count_response, (b, class, latency), ()),
        old(b)@.responses_in(class).total < u64::MAX,
        crate::handles::distinct(old(b)@.by_class),
    ensures
        final(a)@.total == old(a)@.total + 1,
        final(a)@.by_class == old(a)@.by_class,
        final(a)@.unclassified == old(a)@.unclassified,
        final(b)@.total == old(b)@.total,
        final(b)@.responses_in(class).total == old(b)@.responses_in(class).total + 1,
        final(b)@.responses_in(class).latency == old(b)@.responses_in(class).latency.push(latency),
        other != class ==> final(b)@.responses_in(other) == old(b)@.responses_in(other),
{
    other_classes_are_unchanged(old(b)@, class, latency, class);
    other_classes_are_unchanged(old(b)@, class, latency, other);
}

/// Counting a response of a target leaves all other targets as they are.
pub proof fn responses_are_counted_for_their_target(
    registry: &mut Registry,
    i: usize,
    class: Option<u64>,
    latency: Span,
)
    requires
        call_ensures(Registry::count_response, (registry, i, class, latency), ()),
        i < old(registry)@.len(),
        old(registry)@[i as int].1.responses_in(class).total < u64::MAX,
        crate::handles::distinct(old(registry)@[i as int].1.by_class),
    ensures
        final(registry)@.len() == old(registry)@.len(),
        final(registry)@[i as int].0 == old(registry)@[i as int].0,
        final(registry)@[i as int].1.total == old(registry)@[i as int].1.total,
        final(registry)@[i as int].1.responses_in(class).total
            == old(registry)@[i as int].1.responses_in(class).total + 1,
        final(registry)@[i as int].1.responses_in(class).latency
            == old(registry)@[i as int].1.responses_in(class).latency.push(latency),
        forall|j: int|
            0 <= j < old(registry)@.len() && j != i ==> #[trigger] final(registry)@[j]
                == old(registry)@[j],
{
    other_classes_are_unchanged(old(registry)@[i as int].1, class, latency, class);
}

} // verus!
