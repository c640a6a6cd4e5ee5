//! Service profiles: which route a request belongs to, and what a response on it means.
use crate::addr::NameAddr;
use crate::labels::{copy_labels, Labels};
use crate::message::{Method, Request, StatusCode};
use crate::pattern::finds;
use crate::time::Duration;
use regex::Regex;
use std::sync::Arc;
use vstd::prelude::*;

verus! {

/// A condition on requests.
pub enum RequestMatch {
    /// Every one of the conditions holds.
    All(Vec<RequestMatch>),
    /// At least one of the conditions holds.
    Any(Vec<RequestMatch>),
    /// The condition does not hold.
    Not(Box<RequestMatch>),
    /// The path has a match for the regular expression.
    Path(Regex),
    /// The request is made with the method.
    Method(Method),
}

/// A condition on requests, as a mathematical value.
pub ghost enum RequestFormula {
    All(Seq<RequestFormula>),
    Any(Seq<RequestFormula>),
    Not(Box<RequestFormula>),
    Path(Set<Seq<char>>),
    Method(Seq<char>),
}

impl RequestMatch {
    /// The condition, as a mathematical value.
    pub open spec fn formula(self) -> RequestFormula
        decreases self,
    {
        match self {
            RequestMatch::All(ms) => RequestFormula::All(
                Seq::new(
                    ms@.len(),
                    |i: int|
                        if 0 <= i < ms@.len() {
                            ms@[i].formula()
                        } else {
                            arbitrary()
                        },
                ),
            ),
            RequestMatch::Any(ms) => RequestFormula::Any(
                Seq::new(
                    ms@.len(),
                    |i: int|
                        if 0 <= i < ms@.len() {
                            ms@[i].formula()
                        } else {
                            arbitrary()
                        },
                ),
            ),
            RequestMatch::Not(m) => RequestFormula::Not(Box::new(m.formula())),
            RequestMatch::Path(re) => RequestFormula::Path(crate::pattern::language(re)),
            RequestMatch::Method(m) => RequestFormula::Method(m.token@),
        }
    }

    /// Whether the condition holds of a request with the given method and path.
    pub open spec fn holds(self, method: Seq<char>, path: Seq<char>) -> bool
        decreases self,
    {
        match self {
            RequestMatch::All(ms) => forall|i: int|
                0 <= i < ms@.len() ==> (#[trigger] ms@[i]).holds(method, path),
            RequestMatch::Any(ms) => exists|i: int|
                0 <= i < ms@.len() && (#[trigger] ms@[i]).holds(method, path),
            RequestMatch::Not(m) => !m.holds(method, path),
            RequestMatch::Path(re) => crate::pattern::language(re).contains(path),
            RequestMatch::Method(m) => method == m.token@,
        }
    }

    /// Tells whether the condition holds of a request.
    pub fn is_match<B>(&self, req: &Request<B>) -> (r: bool)
        ensures
            r == self.holds(req.method.token@, req.uri.spec_path()),
        decreases self,
    {
        match self {
            RequestMatch::Method(method) => req.method.is_same(method),
            RequestMatch::Path(re) => finds(re, req.uri.path().as_str()),
            RequestMatch::Not(m) => !m.is_match(req),
            RequestMatch::All(ms) => all_match(ms, req),
            RequestMatch::Any(ms) => any_match(ms, req),
        }
    }
}

/// Several conditions, as mathematical values.
pub open spec fn request_formulas(ms: Seq<RequestMatch>) -> Seq<RequestFormula> {
    ms.map_values(|m: RequestMatch| m.formula())
}

/// The formula of a conjunction or disjunction is made of the formulas of its parts.
pub proof fn lemma_request_formulas(ms: Vec<RequestMatch>)
    ensures
        RequestMatch::All(ms).formula() == RequestFormula::All(request_formulas(ms@)),
        RequestMatch::Any(ms).formula() == RequestFormula::Any(request_formulas(ms@)),
{
    assert(RequestMatch::All(ms).formula()->All_0 =~= request_formulas(ms@));
    assert(RequestMatch::Any(ms).formula()->Any_0 =~= request_formulas(ms@));
}

/// Tells whether all of several conditions hold of a request.
fn all_match<B>(ms: &Vec<RequestMatch>, req: &Request<B>) -> (r: bool)
    ensures
        r == (forall|i: int|
            0 <= i < ms@.len() ==> (#[trigger] ms@[i]).holds(req.method.token@, req.uri.spec_path())),
    decreases ms,
{
    for i in 0..ms.len()
        invariant
            forall|j: int|
                0 <= j < i ==> (#[trigger] ms@[j]).holds(req.method.token@, req.uri.spec_path()),
    {
        assert(decreases_to!(ms@ => ms@[i as int]));
        if !ms[i].is_match(req) {
            return false;
        }
    }
    true
}

/// Tells whether any of several conditions holds of a request.
fn any_match<B>(ms: &Vec<RequestMatch>, req: &Request<B>) -> (r: bool)
    ensures
        r == (exists|i: int|
            0 <= i < ms@.len() && (#[trigger] ms@[i]).holds(req.method.token@, req.uri.spec_path())),
    decreases ms,
{
    for i in 0..ms.len()
        invariant
            forall|j: int|
                0 <= j < i ==> !(#[trigger] ms@[j]).holds(req.method.token@, req.uri.spec_path()),
    {
        assert(decreases_to!(ms@ => ms@[i as int]));
        if ms[i].is_match(req) {
            return true;
        }
    }
    false
}

/// A condition on responses.
#[derive(Debug)]
pub enum ResponseMatch {
    /// Every one of the conditions holds.
    All(Vec<ResponseMatch>),
    /// At least one of the conditions holds.
    Any(Vec<ResponseMatch>),
    /// The condition does not hold.
    Not(Box<ResponseMatch>),
    /// The status lies between two others, which are included.
    Status { min: StatusCode, max: StatusCode },
}

/// A condition on responses, as a mathematical value.
pub ghost enum ResponseFormula {
    All(Seq<ResponseFormula>),
    Any(Seq<ResponseFormula>),
    Not(Box<ResponseFormula>),
    Status(u16, u16),
}

impl ResponseMatch {
    /// The condition, as a mathematical value.
    pub open spec fn formula(self) -> ResponseFormula
        decreases self,
    {
        match self {
            ResponseMatch::All(ms) => ResponseFormula::All(
                Seq::new(
                    ms@.len(),
                    |i: int|
                        if 0 <= i < ms@.len() {
                            ms@[i].formula()
                        } else {
                            arbitrary()
                        },
                ),
            ),
            ResponseMatch::Any(ms) => ResponseFormula::Any(
                Seq::new(
                    ms@.len(),
                    |i: int|
                        if 0 <= i < ms@.len() {
                            ms@[i].formula()
                        } else {
                            arbitrary()
                        },
                ),
            ),
            ResponseMatch::Not(m) => ResponseFormula::Not(Box::new(m.formula())),
            ResponseMatch::Status { min, max } => ResponseFormula::Status(
                min.number(),
                max.number(),
            ),
        }
    }

    /// Whether the condition holds of a response with the given status.
    pub open spec fn holds(self, status: u16) -> bool
        decreases self,
    {
        match self {
            ResponseMatch::All(ms) => forall|i: int|
                0 <= i < ms@.len() ==> (#[trigger] ms@[i]).holds(status),
            ResponseMatch::Any(ms) => exists|i: int|
                0 <= i < ms@.len() && (#[trigger] ms@[i]).holds(status),
            ResponseMatch::Not(m) => !m.holds(status),
            ResponseMatch::Status { min, max } => min.number() <= status <= max.number(),
        }
    }

    /// Tells whether the condition holds of a response.
    pub fn is_match(&self, status: &StatusCode) -> (r: bool)
        ensures
            r == self.holds(status.number()),
        decreases self,
    {
        match self {
            ResponseMatch::Status { min, max } => min.as_u16() <= status.as_u16()
                && status.as_u16() <= max.as_u16(),
            ResponseMatch::Not(m) => !m.is_match(status),
            ResponseMatch::All(ms) => all_response_match(ms, status),
            ResponseMatch::Any(ms) => any_response_match(ms, status),
        }
    }
}

/// Several conditions, as mathematical values.
pub open spec fn response_formulas(ms: Seq<ResponseMatch>) -> Seq<ResponseFormula> {
    ms.map_values(|m: ResponseMatch| m.formula())
}

/// The formula of a conjunction or disjunction is made of the formulas of its parts.
pub proof fn lemma_response_formulas(ms: Vec<ResponseMatch>)
    ensures
        ResponseMatch::All(ms).formula() == ResponseFormula::All(response_formulas(ms@)),
        ResponseMatch::Any(ms).formula() == ResponseFormula::Any(response_formulas(ms@)),
{
    assert(ResponseMatch::All(ms).formula()->All_0 =~= response_formulas(ms@));
    assert(ResponseMatch::Any(ms).formula()->Any_0 =~= response_formulas(ms@));
}

/// Tells whether all of several conditions hold of a response.
fn all_response_match(ms: &Vec<ResponseMatch>, status: &StatusCode) -> (r: bool)
    ensures
        r == (forall|i: int| 0 <= i < ms@.len() ==> (#[trigger] ms@[i]).holds(status.number())),
    decreases ms,
{
    for i in 0..ms.len()
        invariant
            forall|j: int| 0 <= j < i ==> (#[trigger] ms@[j]).holds(status.number()),
    {
        assert(decreases_to!(ms@ => ms@[i as int]));
        if !ms[i].is_match(status) {
            return false;
        }
    }
    true
}

/// Tells whether any of several conditions holds of a response.
fn any_response_match(ms: &Vec<ResponseMatch>, status: &StatusCode) -> (r: bool)
    ensures
        r == (exists|i: int| 0 <= i < ms@.len() && (#[trigger] ms@[i]).holds(status.number())),
    decreases ms,
{
    for i in 0..ms.len()
        invariant
            forall|j: int| 0 <= j < i ==> !(#[trigger] ms@[j]).holds(status.number()),
    {
        assert(decreases_to!(ms@ => ms@[i as int]));
        if ms[i].is_match(status) {
            return true;
        }
    }
    false
}

/// What a condition on requests means depends on its formula alone: two conditions with one
/// formula hold of the same requests.
pub proof fn request_formula_tells_meaning(
    m: RequestMatch,
    n: RequestMatch,
    method: Seq<char>,
    path: Seq<char>,
)
    requires
        m.formula() == n.formula(),
    ensures
        m.holds(method, path) == n.holds(method, path),
    decreases m,
{
    match (m, n) {
        (RequestMatch::All(ms), RequestMatch::All(ns)) => {
            lemma_request_formulas(ms);
            lemma_request_formulas(ns);
            assert(request_formulas(ms@).len() == request_formulas(ns@).len());
            assert forall|i: int| 0 <= i < ms@.len() implies (#[trigger] ms@[i]).holds(method, path)
                == ns@[i].holds(method, path) by {
                assert(decreases_to!(ms@ => ms@[i]));
                assert(request_formulas(ms@)[i] == ms@[i].formula());
                assert(request_formulas(ns@)[i] == ns@[i].formula());
                request_formula_tells_meaning(ms@[i], ns@[i], method, path);
            }
            assert(m.holds(method, path) ==> n.holds(method, path)) by {
                assert forall|i: int|
                    m.holds(method, path) && 0 <= i < ns@.len() implies (#[trigger] ns@[i]).holds(
                    method,
                    path,
                ) by {
                    assert(ms@[i].holds(method, path));
                }
            }
        },
        (RequestMatch::Any(ms), RequestMatch::Any(ns)) => {
            lemma_request_formulas(ms);
            lemma_request_formulas(ns);
            assert(request_formulas(ms@).len() == request_formulas(ns@).len());
            assert forall|i: int| 0 <= i < ms@.len() implies (#[trigger] ms@[i]).holds(method, path)
                == ns@[i].holds(method, path) by {
                assert(decreases_to!(ms@ => ms@[i]));
                assert(request_formulas(ms@)[i] == ms@[i].formula());
                assert(request_formulas(ns@)[i] == ns@[i].formula());
                request_formula_tells_meaning(ms@[i], ns@[i], method, path);
            }
            if n.holds(method, path) {
                let i = choose|i: int|
                    0 <= i < ns@.len() && (#[trigger] ns@[i]).holds(method, path);
                assert(ms@[i].holds(method, path));
            }
        },
        (RequestMatch::Not(a), RequestMatch::Not(b)) => {
            request_formula_tells_meaning(*a, *b, method, path);
        },
        _ => {},
    }
}

/// What a condition on responses means depends on its formula alone: two conditions with one
/// formula hold of the same responses.
pub proof fn response_formula_tells_meaning(m: ResponseMatch, n: ResponseMatch, status: u16)
    requires
        m.formula() == n.formula(),
    ensures
        m.holds(status) == n.holds(status),
    decreases m,
{
    match (m, n) {
        (ResponseMatch::All(ms), ResponseMatch::All(ns)) => {
            lemma_response_formulas(ms);
            lemma_response_formulas(ns);
            assert(response_formulas(ms@).len() == response_formulas(ns@).len());
            assert forall|i: int| 0 <= i < ms@.len() implies (#[trigger] ms@[i]).holds(status)
                == ns@[i].holds(status) by {
                assert(decreases_to!(ms@ => ms@[i]));
                assert(response_formulas(ms@)[i] == ms@[i].formula());
                assert(response_formulas(ns@)[i] == ns@[i].formula());
                response_formula_tells_meaning(ms@[i], ns@[i], status);
            }
            assert(m.holds(status) ==> n.holds(status)) by {
                assert forall|i: int|
                    m.holds(status) && 0 <= i < ns@.len() implies (#[trigger] ns@[i]).holds(
                    status,
                ) by {
                    assert(ms@[i].holds(status));
                }
            }
        },
        (ResponseMatch::Any(ms), ResponseMatch::Any(ns)) => {
            lemma_response_formulas(ms);
            lemma_response_formulas(ns);
            assert(response_formulas(ms@).len() == response_formulas(ns@).len());
            assert forall|i: int| 0 <= i < ms@.len() implies (#[trigger] ms@[i]).holds(status)
                == ns@[i].holds(status) by {
                assert(decreases_to!(ms@ => ms@[i]));
                assert(response_formulas(ms@)[i] == ms@[i].formula());
                assert(response_formulas(ns@)[i] == ns@[i].formula());
                response_formula_tells_meaning(ms@[i], ns@[i], status);
            }
            if n.holds(status) {
                let i = choose|i: int| 0 <= i < ns@.len() && (#[trigger] ns@[i]).holds(status);
                assert(ms@[i].holds(status));
            }
        },
        (ResponseMatch::Not(a), ResponseMatch::Not(b)) => {
            response_formula_tells_meaning(*a, *b, status);
        },
        _ => {},
    }
}

/// A class of responses, and whether they are failures.
#[derive(Debug)]
pub struct ResponseClass {
    pub is_failure: bool,
    pub condition: ResponseMatch,
}

impl ResponseClass {
    /// The class of the responses of which `condition` holds.
    pub fn new(is_failure: bool, condition: ResponseMatch) -> (c: ResponseClass)
        ensures
            c == (ResponseClass { is_failure, condition }),
    {
        ResponseClass { is_failure, condition }
    }

    /// Whether the responses in the class are failures.
    pub fn is_failure(&self) -> (r: bool)
        ensures
            r == self.is_failure,
    {
        self.is_failure
    }

    /// Whether a response with the given status is in the class.
    pub fn is_match(&self, status: &StatusCode) -> (r: bool)
        ensures
            r == self.condition.holds(status.number()),
    {
        self.condition.is_match(status)
    }
}

/// A class of responses, as a mathematical value.
pub ghost struct ClassFormula {
    pub is_failure: bool,
    pub condition: ResponseFormula,
}

impl View for ResponseClass {
    type V = ClassFormula;

    open spec fn view(&self) -> ClassFormula {
        ClassFormula { is_failure: self.is_failure, condition: self.condition.formula() }
    }
}

/// Several classes, as mathematical values.
pub open spec fn class_formulas(classes: Seq<ResponseClass>) -> Seq<ClassFormula> {
    classes.map_values(|c: ResponseClass| c@)
}

/// Something that may have a destination whose profile can be looked up.
pub trait CanGetDestination: Sized {
    /// The destination.
    spec fn destination(self) -> Option<NameAddr>;

    /// The destination.
    fn get_destination(&self) -> (r: Option<&NameAddr>)
        ensures
            r == match self.destination() {
                Some(name) => Some(&name),
                None => None,
            },
    ;
}

/// Begins to follow the profile of a destination.
pub trait GetRoutes: Sized {
    type Stream;

    /// Whether looking up the profile of a destination may give `r`.
    spec fn gets(self, dst: NameAddr, r: Option<Self::Stream>) -> bool;

    /// Begins to follow the profile of a destination, if it can have one.
    fn get_routes(&self, dst: &NameAddr) -> (r: Option<Self::Stream>)
        ensures
            self.gets(*dst, r),
    ;
}

/// A route: what the responses on it mean, how it is labelled, and whether and how long its
/// requests are retried, out of a shared budget `B`.
pub struct Route<B> {
    pub labels: Labels,
    pub response_classes: Arc<Vec<ResponseClass>>,
    pub retry_timeout: Option<Duration>,
    pub retry_budget: Option<Arc<B>>,
    pub is_retryable: bool,
}

impl<B> Route<B> {
    /// Whether `other` is a copy of the route. The budget is shared between them.
    pub open spec fn is_copied(self, other: Route<B>) -> bool {
        &&& crate::labels::label_values(other.labels) == crate::labels::label_values(self.labels)
        &&& other == (Route { labels: other.labels, ..self })
    }

    /// A route that is not retried.
    pub fn new(labels: Labels, response_classes: Vec<ResponseClass>) -> (r: Route<B>)
        ensures
            r.labels == labels,
            *r.response_classes == response_classes,
            r.retry_timeout is None,
            r.retry_budget is None,
            !r.is_retryable,
    {
        Route {
            labels,
            response_classes: Arc::new(response_classes),
            retry_timeout: None,
            retry_budget: None,
            is_retryable: false,
        }
    }

    /// Sets how long requests on the route are retried.
    pub fn set_retry_timeout(&mut self, timeout: Duration)
        ensures
            *final(self) == (Route { retry_timeout: Some(timeout), ..*old(self) }),
    {
        self.retry_timeout = Some(timeout);
    }

    /// Sets the budget out of which requests on the route are retried.
    pub fn set_retry_budget(&mut self, budget: Arc<B>)
        ensures
            *final(self) == (Route { retry_budget: Some(budget), ..*old(self) }),
    {
        self.retry_budget = Some(budget);
    }

    /// Sets whether requests on the route are retried.
    pub fn set_is_retryable(&mut self, is_retryable: bool)
        ensures
            *final(self) == (Route { is_retryable, ..*old(self) }),
    {
        self.is_retryable = is_retryable;
    }

    /// The classes of the responses on the route.
    pub fn response_classes(&self) -> (r: &Arc<Vec<ResponseClass>>)
        ensures
            *r == self.response_classes,
    {
        &self.response_classes
    }
}

impl<B> Clone for Route<B> {
    fn clone(&self) -> (r: Self)
        ensures
            self.is_copied(r),
    {
        Route {
            labels: copy_labels(&self.labels),
            response_classes: Arc::clone(&self.response_classes),
            retry_timeout: self.retry_timeout,
            retry_budget: match &self.retry_budget {
                Some(budget) => Some(Arc::clone(budget)),
                None => None,
            },
            is_retryable: self.is_retryable,
        }
    }
}

/// A condition on the method holds exactly of the requests that are made with it, and one on the
/// path exactly of those in whose path the regular expression finds a match.
pub proof fn simple_request_conditions_hold<B>(
    m: RequestMatch,
    req: Request<B>,
    r: bool,
)
    requires
        call_ensures(RequestMatch::is_match::<B>, (&m, &req), r),
    ensures
        m matches RequestMatch::Method(method) ==> (r <==> method.token@ == req.method.token@),
        m matches RequestMatch::Path(re) ==> req.uri.path_and_query matches Some(pq) ==> (r
            <==> crate::pattern::language(re).contains(pq.path@)),
        m matches RequestMatch::Path(re) ==> req.uri.path_and_query is None ==> (r
            <==> crate::pattern::language(re).contains(Seq::empty())),
{
}

/// The negation of a condition holds exactly of the requests of which the condition does not.
pub proof fn negated_request_conditions_hold<B>(
    m: Box<RequestMatch>,
    req: Request<B>,
    r: bool,
    s: bool,
)
    requires
        call_ensures(RequestMatch::is_match::<B>, (&RequestMatch::Not(m), &req), r),
        call_ensures(RequestMatch::is_match::<B>, (&*m, &req), s),
    ensures
        r == !s,
{
}

/// Whether testing a condition on a request can only give `r`.
pub open spec fn requests_match<B>(m: RequestMatch, req: Request<B>, r: bool) -> bool {
    forall|s: bool| call_ensures(RequestMatch::is_match::<B>, (&m, &req), s) ==> s == r
}

/// Whether testing a condition on a response can only give `r`.
pub open spec fn responses_match(m: ResponseMatch, status: StatusCode, r: bool) -> bool {
    forall|s: bool| call_ensures(ResponseMatch::is_match, (&m, &status), s) ==> s == r
}

/// All of several conditions hold of a request exactly if each of them does, and any of them
/// exactly if at least one does.
pub proof fn joined_request_conditions_hold<B>(
    ms: Vec<RequestMatch>,
    req: Request<B>,
    all: bool,
    any: bool,
)
    requires
        call_ensures(RequestMatch::is_match::<B>, (&RequestMatch::All(ms), &req), all),
        call_ensures(RequestMatch::is_match::<B>, (&RequestMatch::Any(ms), &req), any),
    ensures
        all ==> forall|i: int|
            0 <= i < ms@.len() ==> requests_match(#[trigger] ms@[i], req, true),
        !all ==> exists|i: int|
            0 <= i < ms@.len() && requests_match(#[trigger] ms@[i], req, false),
        any ==> exists|i: int|
            0 <= i < ms@.len() && requests_match(#[trigger] ms@[i], req, true),
        !any ==> forall|i: int|
            0 <= i < ms@.len() ==> requests_match(#[trigger] ms@[i], req, false),
{
    let path = req.uri.spec_path();
    if !all {
        let i = choose|i: int|
            0 <= i < ms@.len() && !(#[trigger] ms@[i]).holds(req.method.token@, path);
        assert(requests_match(ms@[i], req, false));
    }
    if any {
        let i = choose|i: int|
            0 <= i < ms@.len() && (#[trigger] ms@[i]).holds(req.method.token@, path);
        assert(requests_match(ms@[i], req, true));
    }
    assert forall|i: int| all && 0 <= i < ms@.len() implies requests_match(
        #[trigger] ms@[i],
        req,
        true,
    ) by {
        lemma_all_request(RequestMatch::All(ms), i, req.method.token@, path);
    }
    assert forall|i: int| !any && 0 <= i < ms@.len() implies requests_match(
        #[trigger] ms@[i],
        req,
        false,
    ) by {
        if ms@[i].holds(req.method.token@, path) {
            lemma_any_request(RequestMatch::Any(ms), i, req.method.token@, path);
        }
    }
}

/// A range of statuses includes both of its ends, and what lies between them.
pub proof fn status_ranges_include_their_ends(
    min: StatusCode,
    max: StatusCode,
    status: StatusCode,
    r: bool,
)
    requires
        call_ensures(
            ResponseMatch::is_match,
            (&ResponseMatch::Status { min, max }, &status),
            r,
        ),
    ensures
        status.number() < min.number() ==> !r,
        min.number() <= status.number() <= max.number() ==> r,
        status.number() > max.number() ==> !r,
{
}

/// The negation of a condition holds exactly of the responses of which the condition does not.
pub proof fn negated_response_conditions_hold(
    m: Box<ResponseMatch>,
    status: StatusCode,
    r: bool,
    s: bool,
)
    requires
        call_ensures(ResponseMatch::is_match, (&ResponseMatch::Not(m), &status), r),
        call_ensures(ResponseMatch::is_match, (&*m, &status), s),
    ensures
        r == !s,
{
}

/// All of several conditions hold of a response exactly if each of them does, and any of them
/// exactly if at least one does.
pub proof fn joined_response_conditions_hold(
    ms: Vec<ResponseMatch>,
    status: StatusCode,
    all: bool,
    any: bool,
)
    requires
        call_ensures(ResponseMatch::is_match, (&ResponseMatch::All(ms), &status), all),
        call_ensures(ResponseMatch::is_match, (&ResponseMatch::Any(ms), &status), any),
    ensures
        all ==> forall|i: int|
            0 <= i < ms@.len() ==> responses_match(#[trigger] ms@[i], status, true),
        !all ==> exists|i: int|
            0 <= i < ms@.len() && responses_match(#[trigger] ms@[i], status, false),
        any ==> exists|i: int|
            0 <= i < ms@.len() && responses_match(#[trigger] ms@[i], status, true),
        !any ==> forall|i: int|
            0 <= i < ms@.len() ==> responses_match(#[trigger] ms@[i], status, false),
{
    if !all {
        let i = choose|i: int| 0 <= i < ms@.len() && !(#[trigger] ms@[i]).holds(status.number());
        assert(responses_match(ms@[i], status, false));
    }
    if any {
        let i = choose|i: int| 0 <= i < ms@.len() && (#[trigger] ms@[i]).holds(status.number());
        assert(responses_match(ms@[i], status, true));
    }
    assert forall|i: int| all && 0 <= i < ms@.len() implies responses_match(
        #[trigger] ms@[i],
        status,
        true,
    ) by {
        lemma_all_response(ResponseMatch::All(ms), i, status.number());
    }
    assert forall|i: int| !any && 0 <= i < ms@.len() implies responses_match(
        #[trigger] ms@[i],
        status,
        false,
    ) by {
        if ms@[i].holds(status.number()) {
            lemma_any_response(ResponseMatch::Any(ms), i, status.number());
        }
    }
}

/// A response is in a class exactly if the condition of the class holds of it.
pub proof fn classes_are_told_by_their_condition(
    class: ResponseClass,
    status: StatusCode,
    r: bool,
    s: bool,
)
    requires
        call_ensures(ResponseClass::is_match, (&class, &status), r),
        call_ensures(ResponseMatch::is_match, (&class.condition, &status), s),
    ensures
        r == s,
{
}

/// A new route is not retried: requests on it have no time and no budget for that.
pub proof fn new_routes_are_not_retried<B>(
    labels: Labels,
    classes: Vec<ResponseClass>,
    r: Route<B>,
)
    requires
        call_ensures(Route::<B>::new, (labels, classes), r),
    ensures
        !r.is_retryable,
        r.retry_timeout is None,
        r.retry_budget is None,
        r.labels == labels,
        r.response_classes@ == classes@,
{
}

/// What all of several conditions hold of, each of them does.
pub proof fn lemma_all_request(m: RequestMatch, i: int, method: Seq<char>, path: Seq<char>)
    requires
        m matches RequestMatch::All(ms) && 0 <= i < ms@.len(),
        m.holds(method, path),
    ensures
        m->All_0@[i].holds(method, path),
{
}

/// What all of several conditions hold of, each of them does.
pub proof fn lemma_all_response(m: ResponseMatch, i: int, status: u16)
    requires
        m matches ResponseMatch::All(ms) && 0 <= i < ms@.len(),
        m.holds(status),
    ensures
        m->All_0@[i].holds(status),
{
}

/// What one of several conditions holds of, any of them does.
pub proof fn lemma_any_request(m: RequestMatch, i: int, method: Seq<char>, path: Seq<char>)
    requires
        m matches RequestMatch::Any(ms) && 0 <= i < ms@.len(),
        m->Any_0@[i].holds(method, path),
    ensures
        m.holds(method, path),
{
}

/// What one of several conditions holds of, any of them does.
pub proof fn lemma_any_response(m: ResponseMatch, i: int, status: u16)
    requires
        m matches ResponseMatch::Any(ms) && 0 <= i < ms@.len(),
        m->Any_0@[i].holds(status),
    ensures
        m.holds(status),
{
}

/// Setting how a route is retried sets that and nothing else.
pub proof fn setters_set_one_thing<B>(
    a: &mut Route<B>,
    timeout: Duration,
    b: &mut Route<B>,
    budget: Arc<B>,
    c: &mut Route<B>,
    is_retryable: bool,
)
    requires
        call_ensures(Route::<B>::set_retry_timeout, (a, timeout), ()),
        call_ensures(Route::<B>::set_retry_budget, (b, budget), ()),
        call_ensures(Route::<B>::set_is_retryable, (c, is_retryable), ()),
    ensures
        final(a).retry_timeout == Some(timeout),
        final(a).retry_budget == old(a).retry_budget,
        final(a).is_retryable == old(a).is_retryable,
        final(b).retry_budget == Some(budget),
        final(b).retry_timeout == old(b).retry_timeout,
        final(b).is_retryable == old(b).is_retryable,
        final(c).is_retryable == is_retryable,
        final(c).retry_timeout == old(c).retry_timeout,
        final(c).retry_budget == old(c).retry_budget,
        final(a).response_classes == old(a).response_classes,
        final(b).response_classes == old(b).response_classes,
        final(c).response_classes == old(c).response_classes,
{
}

/// A copy of a route is retried in the same way, out of the same budget, and classifies responses
/// by the same classes.
pub proof fn copies_share_the_budget<B>(route: Route<B>, r: Route<B>)
    requires
        call_ensures(<Route<B> as Clone>::clone, (&route,), r),
    ensures
        r.retry_budget == route.retry_budget,
        r.retry_timeout == route.retry_timeout,
        r.is_retryable == route.is_retryable,
        r.response_classes == route.response_classes,
        crate::labels::label_values(r.labels) == crate::labels::label_values(route.labels),
{
}

} // verus!
