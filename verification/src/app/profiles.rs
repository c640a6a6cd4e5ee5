//! Service profiles from the control plane.
//!
//! A profile is received as a message, which is converted here to the routes that the proxy
//! works with. What the proxy cannot make sense of it leaves out.
use crate::addr::NameAddr;
use crate::api;
use crate::message::StatusCode;
use crate::pattern::compile;
use crate::proxy::profiles::{GetRoutes, RequestMatch, ResponseClass, ResponseMatch, Route};
use crate::ratio::valid_ratio;
use crate::time::Duration;
use std::sync::Arc;
use vstd::prelude::*;
use vstd::string::StringExecFns;

verus! {

/// The condition that a message states on requests, if it states one that can be checked.
pub open spec fn request_formula(orig: api::RequestMatch) -> Option<
    crate::proxy::profiles::RequestFormula,
>
    decreases orig,
{
    match orig.match_ {
        None => None,
        Some(api::RequestCondition::All(ms)) => Some(
            crate::proxy::profiles::RequestFormula::All(request_formulas(ms@)),
        ),
        Some(api::RequestCondition::Any(ms)) => Some(
            crate::proxy::profiles::RequestFormula::Any(request_formulas(ms@)),
        ),
        Some(api::RequestCondition::Not(m)) => match request_formula(*m) {
            Some(f) => Some(crate::proxy::profiles::RequestFormula::Not(Box::new(f))),
            None => None,
        },
        Some(api::RequestCondition::Path(regex)) => match crate::pattern::compiled(regex@) {
            Some(texts) => Some(crate::proxy::profiles::RequestFormula::Path(texts)),
            None => None,
        },
        Some(api::RequestCondition::Method(m)) => match m.type_ {
            Some(api::MethodType { method: Some(method) }) => Some(
                crate::proxy::profiles::RequestFormula::Method(method.token@),
            ),
            _ => None,
        },
    }
}

/// Of several conditions, those that can be checked, in order.
pub open spec fn request_formulas(ms: Seq<api::RequestMatch>) -> Seq<
    crate::proxy::profiles::RequestFormula,
>
    decreases ms,
{
    if ms.len() == 0 {
        Seq::empty()
    } else {
        let before = request_formulas(ms.drop_last());
        match request_formula(ms.last()) {
            Some(f) => before.push(f),
            None => before,
        }
    }
}

/// Converts a condition on requests.
///
/// A condition that is missing, a path whose pattern does not compile and a method that
/// does not exist make no condition; from the parts of a conjunction or disjunction they
/// are dropped.
pub fn convert_req_match(orig: &api::RequestMatch) -> (r: Option<RequestMatch>)
    ensures
        request_formula(*orig) == (match r {
            Some(m) => Some(m.formula()),
            None => None,
        }),
    decreases orig,
{
    match &orig.match_ {
        None => None,
        Some(api::RequestCondition::All(ms)) => {
            let converted: Vec<RequestMatch> = convert_req_matches(ms);
            proof {
                crate::proxy::profiles::lemma_request_formulas(converted);
            }
            Some(RequestMatch::All(converted))
        },
        Some(api::RequestCondition::Any(ms)) => {
            let converted: Vec<RequestMatch> = convert_req_matches(ms);
            proof {
                crate::proxy::profiles::lemma_request_formulas(converted);
            }
            Some(RequestMatch::Any(converted))
        },
        Some(api::RequestCondition::Not(m)) => match convert_req_match(&**m) {
            Some(converted) => Some(RequestMatch::Not(Box::new(converted))),
            None => None,
        },
        Some(api::RequestCondition::Path(regex)) => match compile(regex.as_str()) {
            Ok(re) => Some(RequestMatch::Path(re)),
            Err(_) => None,
        },
        Some(api::RequestCondition::Method(m)) => match &m.type_ {
            Some(api::MethodType { method: Some(method) }) => Some(
                RequestMatch::Method(method.clone()),
            ),
            _ => None,
        },
    }
}

/// Converts several conditions on requests.
fn convert_req_matches(ms: &Vec<api::RequestMatch>) -> (r: Vec<RequestMatch>)
    ensures
        crate::proxy::profiles::request_formulas(r@) == request_formulas(ms@),
    decreases ms,
{
    let mut r: Vec<RequestMatch> = Vec::new();
    assert(crate::proxy::profiles::request_formulas(r@) =~= request_formulas(ms@.take(0)));
    for i in 0..ms.len()
        invariant
            crate::proxy::profiles::request_formulas(r@) == request_formulas(ms@.take(i as int)),
    {
        assert(decreases_to!(ms@ => ms@[i as int]));
        let ghost before = r@;
        assert(ms@.take(i + 1).drop_last() =~= ms@.take(i as int));
        match convert_req_match(&ms[i]) {
            Some(m) => {
                r.push(m);
                assert(crate::proxy::profiles::request_formulas(r@)
                    =~= crate::proxy::profiles::request_formulas(before).push(m.formula()));
            },
            None => {},
        }
    }
    assert(ms@.take(ms@.len() as int) =~= ms@);
    r
}

/// The status number that a number in a message stands for: its lowest sixteen bits, if they
/// make a status.
pub open spec fn status_number(n: u32) -> Option<u16> {
    if 100 <= n % 0x10000 < 600 {
        Some((n % 0x10000) as u16)
    } else {
        None
    }
}

/// The condition that a message states on responses, if it states one that can be checked.
pub open spec fn response_formula(orig: api::ResponseMatch) -> Option<
    crate::proxy::profiles::ResponseFormula,
>
    decreases orig,
{
    match orig.match_ {
        None => None,
        Some(api::ResponseCondition::All(ms)) => if response_formulas(ms@).len() == 0 {
            None
        } else {
            Some(crate::proxy::profiles::ResponseFormula::All(response_formulas(ms@)))
        },
        Some(api::ResponseCondition::Any(ms)) => if response_formulas(ms@).len() == 0 {
            None
        } else {
            Some(crate::proxy::profiles::ResponseFormula::Any(response_formulas(ms@)))
        },
        Some(api::ResponseCondition::Not(m)) => match response_formula(*m) {
            Some(f) => Some(crate::proxy::profiles::ResponseFormula::Not(Box::new(f))),
            None => None,
        },
        Some(api::ResponseCondition::Status(range)) => match (
            status_number(range.min),
            status_number(range.max),
        ) {
            (Some(min), Some(max)) => Some(
                crate::proxy::profiles::ResponseFormula::Status(min, max),
            ),
            _ => None,
        },
    }
}

/// Of several conditions, those that can be checked, in order.
pub open spec fn response_formulas(ms: Seq<api::ResponseMatch>) -> Seq<
    crate::proxy::profiles::ResponseFormula,
>
    decreases ms,
{
    if ms.len() == 0 {
        Seq::empty()
    } else {
        let before = response_formulas(ms.drop_last());
        match response_formula(ms.last()) {
            Some(f) => before.push(f),
            None => before,
        }
    }
}

/// Reads a status number from a message.
fn convert_status(n: u32) -> (r: Option<StatusCode>)
    ensures
        status_number(n) == (match r {
            Some(s) => Some(s.number()),
            None => None,
        }),
{
    assert(n as u16 == n % 0x10000) by (bit_vector);
    StatusCode::from_u16(#[verifier::truncate] (n as u16))
}

/// Converts a condition on responses.
///
/// A condition that is missing and a range between numbers that are no statuses make no
/// condition; from the parts of a conjunction or disjunction they are dropped, and with no
/// part left that makes no condition either.
pub fn convert_rsp_match(orig: &api::ResponseMatch) -> (r: Option<ResponseMatch>)
    ensures
        response_formula(*orig) == (match r {
            Some(m) => Some(m.formula()),
            None => None,
        }),
    decreases orig,
{
    match &orig.match_ {
        None => None,
        Some(api::ResponseCondition::All(ms)) => {
            let converted: Vec<ResponseMatch> = convert_rsp_matches(ms);
            proof {
                crate::proxy::profiles::lemma_response_formulas(converted);
            }
            if converted.is_empty() {
                return None;
            }
            Some(ResponseMatch::All(converted))
        },
        Some(api::ResponseCondition::Any(ms)) => {
            let converted: Vec<ResponseMatch> = convert_rsp_matches(ms);
            proof {
                crate::proxy::profiles::lemma_response_formulas(converted);
            }
            if converted.is_empty() {
                return None;
            }
            Some(ResponseMatch::Any(converted))
        },
        Some(api::ResponseCondition::Not(m)) => match convert_rsp_match(&**m) {
            Some(converted) => Some(ResponseMatch::Not(Box::new(converted))),
            None => None,
        },
        Some(api::ResponseCondition::Status(range)) => match (
            convert_status(range.min),
            convert_status(range.max),
        ) {
            (Some(min), Some(max)) => Some(ResponseMatch::Status { min, max }),
            _ => None,
        },
    }
}

/// Converts several conditions on responses.
fn convert_rsp_matches(ms: &Vec<api::ResponseMatch>) -> (r: Vec<ResponseMatch>)
    ensures
        crate::proxy::profiles::response_formulas(r@) == response_formulas(ms@),
        r@.len() == response_formulas(ms@).len(),
    decreases ms,
{
    let mut r: Vec<ResponseMatch> = Vec::new();
    assert(crate::proxy::profiles::response_formulas(r@) =~= response_formulas(ms@.take(0)));
    for i in 0..ms.len()
        invariant
            crate::proxy::profiles::response_formulas(r@) == response_formulas(ms@.take(i as int)),
    {
        assert(decreases_to!(ms@ => ms@[i as int]));
        let ghost before = r@;
        assert(ms@.take(i + 1).drop_last() =~= ms@.take(i as int));
        match convert_rsp_match(&ms[i]) {
            Some(m) => {
                r.push(m);
                assert(crate::proxy::profiles::response_formulas(r@)
                    =~= crate::proxy::profiles::response_formulas(before).push(m.formula()));
            },
            None => {},
        }
    }
    assert(ms@.take(ms@.len() as int) =~= ms@);
    assert(crate::proxy::profiles::response_formulas(r@).len() == r@.len());
    r
}

/// The class that a message describes, if its condition can be checked.
pub open spec fn class_formula(orig: api::ResponseClass) -> Option<
    crate::proxy::profiles::ClassFormula,
> {
    match orig.condition {
        Some(c) => match response_formula(c) {
            Some(condition) => Some(
                crate::proxy::profiles::ClassFormula { is_failure: orig.is_failure, condition },
            ),
            None => None,
        },
        None => None,
    }
}

/// Of several classes, those whose condition can be checked, in order.
pub open spec fn class_formulas(classes: Seq<api::ResponseClass>) -> Seq<
    crate::proxy::profiles::ClassFormula,
>
    decreases classes.len(),
{
    if classes.len() == 0 {
        Seq::empty()
    } else {
        let before = class_formulas(classes.drop_last());
        match class_formula(classes.last()) {
            Some(c) => before.push(c),
            None => before,
        }
    }
}

/// Converts a class of responses.
pub fn convert_rsp_class(orig: &api::ResponseClass) -> (r: Option<ResponseClass>)
    ensures
        class_formula(*orig) == (match r {
            Some(c) => Some(c@),
            None => None,
        }),
{
    match &orig.condition {
        Some(condition) => match convert_rsp_match(condition) {
            Some(c) => Some(ResponseClass::new(orig.is_failure, c)),
            None => None,
        },
        None => None,
    }
}

/// Converts several classes of responses.
fn convert_rsp_classes(classes: &Vec<api::ResponseClass>) -> (r: Vec<ResponseClass>)
    ensures
        crate::proxy::profiles::class_formulas(r@) == class_formulas(classes@),
{
    let mut r: Vec<ResponseClass> = Vec::new();
    assert(crate::proxy::profiles::class_formulas(r@) =~= class_formulas(classes@.take(0)));
    for i in 0..classes.len()
        invariant
            crate::proxy::profiles::class_formulas(r@) == class_formulas(classes@.take(i as int)),
    {
        let ghost before = r@;
        assert(classes@.take(i + 1).drop_last() =~= classes@.take(i as int));
        match convert_rsp_class(&classes[i]) {
            Some(c) => {
                r.push(c);
                assert(crate::proxy::profiles::class_formulas(r@)
                    =~= crate::proxy::profiles::class_formulas(before).push(c@));
            },
            None => {},
        }
    }
    assert(classes@.take(classes@.len() as int) =~= classes@);
    r
}

/// `route` with its retries set up: the timeout if it is a proper one, and, where there is a
/// budget too, the budget, by which the route becomes retryable.
pub open spec fn with_retry<B>(
    route: Route<B>,
    retry_timeout: Option<api::SignedDuration>,
    retry_budget: Option<Arc<B>>,
) -> Route<B> {
    match (retry_timeout, retry_budget) {
        (Some(Ok(timeout)), Some(budget)) => Route {
            retry_timeout: Some(timeout),
            retry_budget: Some(budget),
            is_retryable: true,
            ..route
        },
        (Some(Ok(timeout)), None) => Route { retry_timeout: Some(timeout), ..route },
        _ => route,
    }
}

/// Sets up the retries on a route that claims to be retryable.
pub fn set_route_retry<B>(
    route: &mut Route<B>,
    retry_timeout: Option<api::SignedDuration>,
    retry_budget: &Option<Arc<B>>,
)
    ensures
        *final(route) == with_retry(*old(route), retry_timeout, *retry_budget),
{
    match retry_timeout {
        Some(Ok(timeout)) => route.set_retry_timeout(timeout),
        Some(Err(_)) => {
            return;
        },
        None => {
            return;
        },
    }
    match retry_budget {
        Some(budget) => route.set_retry_budget(budget.clone()),
        None => {
            return;
        },
    }
    route.set_is_retryable(true);
}

/// Whether `r` is what becomes of a route in a profile with the given budget and timeout.
pub open spec fn is_converted_route<B>(
    orig: api::Route,
    retry_budget: Option<Arc<B>>,
    default_retry_timeout: Option<api::SignedDuration>,
    r: Option<(RequestMatch, Route<B>)>,
) -> bool {
    match orig.condition {
        None => r is None,
        Some(condition) => match request_formula(condition) {
            None => r is None,
            Some(f) => {
                &&& r matches Some((m, route))
                &&& m.formula() == f
                &&& route.labels == orig.metrics_labels
                &&& crate::proxy::profiles::class_formulas(route.response_classes@)
                    == class_formulas(orig.response_classes@)
                &&& ({
                    let plain = Route {
                        retry_timeout: None,
                        retry_budget: None,
                        is_retryable: false,
                        ..route
                    };
                    route == if orig.is_retryable {
                        with_retry(
                            plain,
                            if orig.retry_timeout is Some {
                                orig.retry_timeout
                            } else {
                                default_retry_timeout
                            },
                            retry_budget,
                        )
                    } else {
                        plain
                    }
                })
            },
        },
    }
}

/// Converts a route; one without a condition that can be checked is left out.
pub fn convert_route<B>(
    orig: api::Route,
    retry_budget: &Option<Arc<B>>,
    default_retry_timeout: Option<api::SignedDuration>,
) -> (r: Option<(RequestMatch, Route<B>)>)
    ensures
        is_converted_route(orig, *retry_budget, default_retry_timeout, r),
{
    let req_match: RequestMatch = match &orig.condition {
        Some(condition) => match convert_req_match(condition) {
            Some(m) => m,
            None => {
                return None;
            },
        },
        None => {
            return None;
        },
    };
    let rsp_classes: Vec<ResponseClass> = convert_rsp_classes(&orig.response_classes);
    let is_retryable: bool = orig.is_retryable;
    let retry_timeout: Option<api::SignedDuration> = match orig.retry_timeout {
        Some(timeout) => Some(timeout),
        None => default_retry_timeout,
    };
    let mut route: Route<B> = Route::new(orig.metrics_labels, rsp_classes);
    if is_retryable {
        set_route_retry(&mut route, retry_timeout, retry_budget);
    }
    Some((req_match, route))
}

/// Whether a route states a condition that can be checked.
pub open spec fn has_condition(orig: api::Route) -> bool {
    orig.condition is Some && request_formula(orig.condition->0) is Some
}

/// Whether `r` is what becomes of the routes in a profile: each of them that has a condition
/// is converted, in order.
pub open spec fn are_converted_routes<B>(
    origs: Seq<api::Route>,
    retry_budget: Option<Arc<B>>,
    default_retry_timeout: Option<api::SignedDuration>,
    r: Seq<(RequestMatch, Route<B>)>,
) -> bool
    decreases origs.len(),
{
    if origs.len() == 0 {
        r.len() == 0
    } else if has_condition(origs.last()) {
        &&& r.len() > 0
        &&& is_converted_route(origs.last(), retry_budget, default_retry_timeout, Some(r.last()))
        &&& are_converted_routes(
            origs.drop_last(),
            retry_budget,
            default_retry_timeout,
            r.drop_last(),
        )
    } else {
        are_converted_routes(origs.drop_last(), retry_budget, default_retry_timeout, r)
    }
}

/// Converts the routes of a profile.
pub fn convert_routes<B>(
    origs: Vec<api::Route>,
    retry_budget: &Option<Arc<B>>,
    default_retry_timeout: Option<api::SignedDuration>,
) -> (r: Vec<(RequestMatch, Route<B>)>)
    ensures
        are_converted_routes(origs@, *retry_budget, default_retry_timeout, r@),
{
    let mut r: Vec<(RequestMatch, Route<B>)> = Vec::new();
    for orig in it: origs
        invariant
            it.seq() == origs@,
            are_converted_routes(
                it.seq().take(it.index()),
                *retry_budget,
                default_retry_timeout,
                r@,
            ),
    {
        let ghost before = r@;
        let ghost i = it.index();
        assert(it.seq().take(i + 1).drop_last() =~= it.seq().take(i));
        match convert_route(orig, retry_budget, default_retry_timeout) {
            Some(route) => {
                r.push(route);
                assert(r@.drop_last() =~= before);
            },
            None => {},
        }
    }
    assert(origs@.take(origs@.len() as int) =~= origs@);
    r
}

/// The limits of a retry budget.
#[derive(Clone, Copy, Debug, PartialEq, Eq)]
pub struct BudgetLimits {
    /// How long a request counts towards the budget.
    pub ttl: Duration,
    /// How many retries a second there may be in any case.
    pub min_retries: u32,
    /// How many retries there may be for each request, as the bits of a single-precision
    /// floating-point number.
    pub retry_ratio_bits: u32,
}

/// The limits that a message sets, if they are sensible: a rate that fits a signed number, a
/// ratio above zero and up to 1000, and a time to live of one to sixty seconds.
pub open spec fn budget_limits(orig: api::RetryBudget) -> Option<BudgetLimits> {
    match orig.ttl {
        Some(Ok(ttl)) => if orig.min_retries_per_second <= i32::MAX
            && crate::ratio::is_valid_ratio(orig.retry_ratio_bits) && 1 <= ttl.secs <= 60 {
            Some(
                BudgetLimits {
                    ttl,
                    min_retries: orig.min_retries_per_second,
                    retry_ratio_bits: orig.retry_ratio_bits,
                },
            )
        } else {
            None
        },
        _ => None,
    }
}

/// Whether the ratio of a message is a number, unless it does not matter because the message has
/// no rate or time to live that would do.
pub open spec fn has_ratio(orig: api::RetryBudget) -> bool {
    ||| !crate::ratio::is_nan(orig.retry_ratio_bits)
    ||| orig.min_retries_per_second > i32::MAX
    ||| !(orig.ttl matches Some(Ok(ttl)) && 1 <= ttl.secs <= 60)
}

/// Converts the limits of a retry budget.
pub fn convert_retry_budget(orig: api::RetryBudget) -> (r: Option<BudgetLimits>)
    requires
        has_ratio(orig),
    ensures
        r == budget_limits(orig),
{
    if orig.min_retries_per_second > i32::MAX as u32 {
        return None;
    }
    if !valid_ratio(orig.retry_ratio_bits) {
        return None;
    }
    match orig.ttl {
        Some(Ok(ttl)) => {
            if ttl.secs > 60 || ttl.secs < 1 {
                return None;
            }
            Some(
                BudgetLimits {
                    ttl,
                    min_retries: orig.min_retries_per_second,
                    retry_ratio_bits: orig.retry_ratio_bits,
                },
            )
        },
        Some(Err(_)) => None,
        None => None,
    }
}

/// The limits of the retry budget in a profile, if it sets sensible ones.
pub open spec fn profile_limits(profile: api::DestinationProfile) -> Option<BudgetLimits> {
    match profile.retry_budget {
        Some(budget) => budget_limits(budget),
        None => None,
    }
}

/// Reads the limits of the retry budget in a profile.
pub fn profile_budget(profile: &api::DestinationProfile) -> (r: Option<BudgetLimits>)
    requires
        profile.retry_budget matches Some(budget) ==> has_ratio(budget),
    ensures
        r == profile_limits(*profile),
{
    match profile.retry_budget {
        Some(budget) => convert_retry_budget(budget),
        None => None,
    }
}

/// Whether `r` may be the budget that is set up for limits, if there are any.
pub open spec fn is_budget<B, F: Fn(BudgetLimits) -> B>(
    budget: F,
    limits: Option<BudgetLimits>,
    r: Option<Arc<B>>,
) -> bool {
    match limits {
        Some(limits) => r matches Some(b) && call_ensures(budget, (limits,), *b),
        None => r is None,
    }
}

/// Whether `r` is what becomes of a profile: its routes, which share one budget for retries if
/// the profile sets sensible limits, and have none otherwise.
pub open spec fn are_profile_routes<B, F: Fn(BudgetLimits) -> B>(
    profile: api::DestinationProfile,
    budget: F,
    r: Seq<(RequestMatch, Route<B>)>,
) -> bool {
    exists|retry_budget: Option<Arc<B>>| #[trigger]
        is_budget(budget, profile_limits(profile), retry_budget) && are_converted_routes(
            profile.routes@,
            retry_budget,
            profile.default_retry_timeout,
            r,
        )
}

/// Looks up profiles through a service of the control plane, if there is one.
#[derive(Debug)]
pub struct Client<T> {
    pub service: Option<T>,
    pub backoff: Duration,
}

impl<T> Client<T> {
    /// Looks up profiles through `service`, and waits for `backoff` after failures.
    pub fn new(service: Option<T>, backoff: Duration) -> (c: Client<T>)
        ensures
            c == (Client { service, backoff }),
    {
        Client { service, backoff }
    }
}

impl<T> GetRoutes for Client<T> {
    type Stream = Rx;

    open spec fn gets(self, dst: NameAddr, r: Option<Rx>) -> bool {
        r matches Some(rx) && rx.dst@ == dst.text() && rx.backoff == self.backoff
            && rx.has_service == self.service is Some && rx.state == State::Disconnected
    }

    fn get_routes(&self, dst: &NameAddr) -> (rx: Option<Rx>) {
        Some(Rx::new(dst.to_text(), self.backoff, self.service.is_some()))
    }
}

/// Follows the profile of a destination.
///
/// The connection to the control plane is made, watched and waited for by the caller, who is
/// told by [`Rx::next_action`] what to do and reports by [`Rx::observe`] what came of it.
pub struct Rx {
    /// The destination, by name.
    pub dst: String,
    /// How long to wait before the control plane is asked again.
    pub backoff: Duration,
    /// Whether there is a control plane to ask.
    pub has_service: bool,
    pub state: State,
}

/// Where the conversation with the control plane stands.
#[derive(Clone, Copy, Debug, PartialEq, Eq, Structural)]
pub enum State {
    /// There is none.
    Disconnected,
    /// There is none, and none will be begun until some time has passed.
    Backoff,
    /// The control plane was asked and has not answered.
    Waiting,
    /// The control plane sends profiles.
    Streaming,
}

/// What to do next.
#[derive(Debug, PartialEq, Eq)]
pub enum Action {
    /// Hand out an empty list of routes: there is nobody to ask.
    YieldNoRoutes,
    /// Ask the control plane.
    GetProfile(api::GetDestination),
    /// See whether it has answered.
    PollResponse,
    /// See whether there is another profile.
    PollStream,
    /// See whether enough time has passed.
    PollBackoff,
}

/// What came of it.
pub enum Outcome {
    /// The control plane was asked.
    Requested,
    /// It has not answered.
    ResponseNotReady,
    /// It has answered.
    ResponseReceived,
    /// It could not be reached, or refused.
    ResponseFailed,
    /// There is no other profile yet.
    StreamNotReady,
    /// A profile came.
    ProfileReceived(api::DestinationProfile),
    /// There will be no other profile.
    StreamEnded,
    /// The stream of profiles broke off.
    StreamFailed,
    /// The time has not passed.
    BackoffNotReady,
    /// The time has passed, or cannot be told.
    BackoffElapsed,
}

/// How it goes on.
pub enum Progress<B> {
    /// With the next action.
    Continue,
    /// With the next action, once a timer of the given length is set.
    ContinueAfter(Duration),
    /// Not until there is news.
    NotReady,
    /// With a list of routes to hand out.
    Routes(Vec<(RequestMatch, Route<B>)>),
}

impl Rx {
    /// Whether an outcome is one of the action that is next.
    pub open spec fn expects(self, outcome: Outcome) -> bool {
        match self.state {
            State::Disconnected => outcome is Requested,
            State::Waiting => outcome is ResponseNotReady || outcome is ResponseReceived
                || outcome is ResponseFailed,
            State::Streaming => outcome is StreamNotReady || outcome is ProfileReceived
                || outcome is StreamEnded || outcome is StreamFailed,
            State::Backoff => outcome is BackoffNotReady || outcome is BackoffElapsed,
        }
    }

    /// Where the conversation stands after an outcome.
    pub open spec fn state_after(self, outcome: Outcome) -> State {
        match outcome {
            Outcome::Requested => State::Waiting,
            Outcome::ResponseReceived => State::Streaming,
            Outcome::ResponseFailed | Outcome::StreamEnded | Outcome::StreamFailed =>
                State::Backoff,
            Outcome::BackoffElapsed => State::Disconnected,
            Outcome::ResponseNotReady | Outcome::StreamNotReady | Outcome::BackoffNotReady
            | Outcome::ProfileReceived(_) => self.state,
        }
    }

    /// The conversation after an outcome.
    pub open spec fn after(self, outcome: Outcome) -> Rx {
        Rx { state: self.state_after(outcome), ..self }
    }

    /// Whether an outcome can be handled: where it is a profile with limits for retries, a
    /// budget can be set up for them.
    pub open spec fn handles<B, F: Fn(BudgetLimits) -> B>(outcome: Outcome, budget: F) -> bool {
        outcome matches Outcome::ProfileReceived(profile) ==> {
            &&& profile.retry_budget matches Some(orig) ==> has_ratio(orig)
            &&& profile_limits(profile) matches Some(limits) ==> call_requires(budget, (limits,))
        }
    }

    /// How it goes on after an outcome.
    pub open spec fn goes_on<B, F: Fn(BudgetLimits) -> B>(
        self,
        outcome: Outcome,
        budget: F,
        progress: Progress<B>,
    ) -> bool {
        match outcome {
            Outcome::Requested | Outcome::ResponseReceived | Outcome::BackoffElapsed =>
                progress is Continue,
            Outcome::ResponseFailed | Outcome::StreamEnded | Outcome::StreamFailed => progress
                matches Progress::ContinueAfter(d) && d == self.backoff,
            Outcome::ResponseNotReady | Outcome::StreamNotReady | Outcome::BackoffNotReady =>
                progress is NotReady,
            Outcome::ProfileReceived(profile) => progress matches Progress::Routes(routes)
                && are_profile_routes(profile, budget, routes@),
        }
    }

    /// Begins to follow the profile of a destination.
    pub fn new(dst: String, backoff: Duration, has_service: bool) -> (rx: Rx)
        ensures
            rx == (Rx { dst, backoff, has_service, state: State::Disconnected }),
    {
        Rx { dst, backoff, has_service, state: State::Disconnected }
    }

    /// Whether `action` is the next one.
    pub open spec fn is_next(self, action: Action) -> bool {
        if !self.has_service {
            action is YieldNoRoutes
        } else {
            match self.state {
                State::Disconnected => action matches Action::GetProfile(req) && req.scheme@
                    == "k8s"@ && req.path@ == self.dst@,
                State::Waiting => action is PollResponse,
                State::Streaming => action is PollStream,
                State::Backoff => action is PollBackoff,
            }
        }
    }

    /// Says what to do next.
    pub fn next_action(&self) -> (action: Action)
        ensures
            self.is_next(action),
    {
        if !self.has_service {
            return Action::YieldNoRoutes;
        }
        match self.state {
            State::Disconnected => Action::GetProfile(
                api::GetDestination { scheme: String::from_str("k8s"), path: self.dst.clone() },
            ),
            State::Waiting => Action::PollResponse,
            State::Streaming => Action::PollStream,
            State::Backoff => Action::PollBackoff,
        }
    }

    /// Takes note of what came of the last action. Where a profile sets limits for retries, a
    /// budget is set up with them.
    pub fn observe<B, F: Fn(BudgetLimits) -> B>(&mut self, outcome: Outcome, budget: &F) -> (
    progress: Progress<B>)
        requires
            old(self).has_service,
            old(self).expects(outcome),
            Self::handles(outcome, *budget),
        ensures
            *final(self) == old(self).after(outcome),
            old(self).goes_on(outcome, *budget, progress),
    {
        match outcome {
            Outcome::Requested => {
                self.state = State::Waiting;
                Progress::Continue
            },
            Outcome::ResponseNotReady => Progress::NotReady,
            Outcome::ResponseReceived => {
                self.state = State::Streaming;
                Progress::Continue
            },
            Outcome::ResponseFailed => {
                self.state = State::Backoff;
                Progress::ContinueAfter(self.backoff)
            },
            Outcome::StreamNotReady => Progress::NotReady,
            Outcome::ProfileReceived(profile) => {
                let ghost received = profile;
                let retry_budget: Option<Arc<B>> = match profile_budget(&profile) {
                    Some(limits) => Some(Arc::new(budget(limits))),
                    None => None,
                };
                assert(is_budget(*budget, profile_limits(received), retry_budget));
                let routes = convert_routes(
                    profile.routes,
                    &retry_budget,
                    profile.default_retry_timeout,
                );
                assert(are_profile_routes(received, *budget, routes@));
                Progress::Routes(routes)
            },
            Outcome::StreamEnded => {
                self.state = State::Backoff;
                Progress::ContinueAfter(self.backoff)
            },
            Outcome::StreamFailed => {
                self.state = State::Backoff;
                Progress::ContinueAfter(self.backoff)
            },
            Outcome::BackoffNotReady => Progress::NotReady,
            Outcome::BackoffElapsed => {
                self.state = State::Disconnected;
                Progress::Continue
            },
        }
    }
}

/// Whether `rxs` is how a conversation goes on with one outcome after the other.
pub open spec fn is_conversation(rxs: Seq<Rx>, outcomes: Seq<Outcome>) -> bool {
    &&& rxs.len() == outcomes.len() + 1
    &&& forall|i: int|
        0 <= i < outcomes.len() ==> rxs[i].expects(#[trigger] outcomes[i]) && rxs[i + 1]
            == rxs[i].after(outcomes[i])
}

/// After the conversation with the control plane has failed or ended, the control plane is not
/// asked again before the backoff has elapsed, whatever comes in between. Once it has elapsed,
/// the control plane is asked next.
pub proof fn no_request_without_backoff(rxs: Seq<Rx>, outcomes: Seq<Outcome>, i: int, j: int)
    requires
        is_conversation(rxs, outcomes),
        rxs[0].has_service,
        0 <= i < j < rxs.len(),
        outcomes[i] is ResponseFailed || outcomes[i] is StreamEnded || outcomes[i] is StreamFailed,
        forall|k: int| i < k < j - 1 ==> !(#[trigger] outcomes[k] is BackoffElapsed),
    ensures
        outcomes[j - 1] is BackoffElapsed ==> {
            &&& rxs[j].state == State::Disconnected
            &&& forall|action: Action| #[trigger]
                rxs[j].is_next(action) ==> (action matches Action::GetProfile(req) && req.path@
                    == rxs[0].dst@)
        },
        !(outcomes[j - 1] is BackoffElapsed) ==> {
            &&& rxs[j].state == State::Backoff
            &&& forall|action: Action| #[trigger]
                rxs[j].is_next(action) ==> action is PollBackoff
        },
{
    lemma_same_conversation(rxs, outcomes, j);
    lemma_waits(rxs, outcomes, i, j - 1);
    assert(rxs[j - 1].expects(outcomes[j - 1]) && rxs[j] == rxs[j - 1].after(outcomes[j - 1]));
}

proof fn lemma_same_conversation(rxs: Seq<Rx>, outcomes: Seq<Outcome>, n: int)
    requires
        is_conversation(rxs, outcomes),
        0 <= n < rxs.len(),
    ensures
        rxs[n].has_service == rxs[0].has_service,
        rxs[n].dst == rxs[0].dst,
    decreases n,
{
    if n > 0 {
        lemma_same_conversation(rxs, outcomes, n - 1);
        assert(rxs[n] == rxs[n - 1].after(outcomes[n - 1]));
    }
}

proof fn lemma_waits(rxs: Seq<Rx>, outcomes: Seq<Outcome>, i: int, n: int)
    requires
        is_conversation(rxs, outcomes),
        0 <= i <= n < outcomes.len(),
        outcomes[i] is ResponseFailed || outcomes[i] is StreamEnded || outcomes[i] is StreamFailed,
        forall|k: int| i < k < n ==> !(#[trigger] outcomes[k] is BackoffElapsed),
    ensures
        n > i ==> rxs[n].state == State::Backoff,
    decreases n,
{
    if n > i {
        lemma_waits(rxs, outcomes, i, n - 1);
        let o = outcomes[n - 1];
        assert(rxs[n - 1].expects(o) && rxs[n] == rxs[n - 1].after(o));
        if n - 1 > i {
            assert(!(outcomes[n - 1] is BackoffElapsed));
        }
    }
}

/// Whether converting a condition on requests can only give one that holds as `r` says, or none
/// where `r` is none.
pub open spec fn requests_convert(orig: api::RequestMatch, method: Seq<char>, path: Seq<char>, r: Option<bool>) -> bool {
    forall|x: Option<RequestMatch>| #[trigger]
        call_ensures(convert_req_match, (&orig,), x) ==> match x {
            Some(m) => r == Some(m.holds(method, path)),
            None => r is None,
        }
}

proof fn lemma_request_kept(ms: Seq<api::RequestMatch>, i: int) -> (k: int)
    requires
        0 <= i < ms.len(),
        request_formula(ms[i]) is Some,
    ensures
        0 <= k < request_formulas(ms).len(),
        request_formulas(ms)[k] == request_formula(ms[i])->0,
    decreases ms.len(),
{
    let before = request_formulas(ms.drop_last());
    if i == ms.len() - 1 {
        before.len() as int
    } else {
        let k = lemma_request_kept(ms.drop_last(), i);
        assert(request_formulas(ms)[k] == before[k]);
        k
    }
}

proof fn lemma_request_found(ms: Seq<api::RequestMatch>, k: int) -> (i: int)
    requires
        0 <= k < request_formulas(ms).len(),
    ensures
        0 <= i < ms.len(),
        request_formula(ms[i]) == Some(request_formulas(ms)[k]),
    decreases ms.len(),
{
    let before = request_formulas(ms.drop_last());
    if ms.len() == 0 {
        0
    } else if k < before.len() {
        let i = lemma_request_found(ms.drop_last(), k);
        assert(request_formulas(ms)[k] == before[k]);
        i
    } else {
        ms.len() - 1
    }
}

/// Converting a condition whose formula is that of `m` gives one that holds as `m` does.
proof fn lemma_request_converts(orig: api::RequestMatch, m: RequestMatch, method: Seq<char>, path: Seq<char>)
    requires
        request_formula(orig) == Some(m.formula()),
    ensures
        requests_convert(orig, method, path, Some(m.holds(method, path))),
{
    assert forall|x: Option<RequestMatch>| #[trigger]
        call_ensures(convert_req_match, (&orig,), x) implies x matches Some(n) && n.holds(method, path) == m.holds(
        method, path,
    ) by {
        crate::proxy::profiles::request_formula_tells_meaning(x->0, m, method, path);
    }
}

/// All of several conditions, once converted, hold of a request exactly if each of those that
/// can be converted does. The others have no say.
pub proof fn all_request_conditions_are_converted(
    orig: api::RequestMatch,
    ms: Vec<api::RequestMatch>,
    r: Option<RequestMatch>,
    method: Seq<char>, path: Seq<char>,
)
    requires
        orig.match_ == Some(api::RequestCondition::All(ms)),
        call_ensures(convert_req_match, (&orig,), r),
    ensures
        r is Some,
        r matches Some(m) ==> m.holds(method, path) ==> forall|i: int|
            0 <= i < ms@.len() ==> (requests_convert(#[trigger] ms@[i], method, path, Some(true))
                || requests_convert(ms@[i], method, path, None)),
        r matches Some(m) ==> !m.holds(method, path) ==> exists|i: int|
            0 <= i < ms@.len() && requests_convert(#[trigger] ms@[i], method, path, Some(false)),
{
    if let Some(m) = r {
        assert(m is All);
        let ns = m->All_0;
        crate::proxy::profiles::lemma_request_formulas(ns);
        let all = request_formulas(ms@);
        assert(crate::proxy::profiles::request_formulas(ns@) == all);
        assert(forall|k: int| 0 <= k < ns@.len() ==> (#[trigger] ns@[k]).formula() == all[k]) by {
            assert forall|k: int| 0 <= k < ns@.len() implies (#[trigger] ns@[k]).formula()
                == all[k] by {
                assert(crate::proxy::profiles::request_formulas(ns@)[k] == ns@[k].formula());
            }
        }
        if m.holds(method, path) {
            assert forall|i: int| 0 <= i < ms@.len() implies (requests_convert(
                #[trigger] ms@[i],
                method, path,
                Some(true),
            ) || requests_convert(ms@[i], method, path, None)) by {
                if request_formula(ms@[i]) is Some {
                    let k = lemma_request_kept(ms@, i);
                    assert(ns@[k].formula() == all[k]);
                    crate::proxy::profiles::lemma_all_request(m, k, method, path);
                    lemma_request_converts(ms@[i], ns@[k], method, path);
                }
            }
        } else {
            let k = choose|k: int| 0 <= k < ns@.len() && !(#[trigger] ns@[k]).holds(method, path);
            assert(ns@[k].formula() == all[k]);
            let i = lemma_request_found(ms@, k);
            lemma_request_converts(ms@[i], ns@[k], method, path);
        }
    }
}

/// Any of several conditions, once converted, holds of a request exactly if one of those that can
/// be converted does.
pub proof fn any_request_condition_is_converted(
    orig: api::RequestMatch,
    ms: Vec<api::RequestMatch>,
    r: Option<RequestMatch>,
    method: Seq<char>, path: Seq<char>,
)
    requires
        orig.match_ == Some(api::RequestCondition::Any(ms)),
        call_ensures(convert_req_match, (&orig,), r),
    ensures
        r is Some,
        r matches Some(m) ==> m.holds(method, path) ==> exists|i: int|
            0 <= i < ms@.len() && requests_convert(#[trigger] ms@[i], method, path, Some(true)),
        r matches Some(m) ==> !m.holds(method, path) ==> forall|i: int|
            0 <= i < ms@.len() ==> (requests_convert(#[trigger] ms@[i], method, path, Some(false))
                || requests_convert(ms@[i], method, path, None)),
{
    if let Some(m) = r {
        assert(m is Any);
        let ns = m->Any_0;
        crate::proxy::profiles::lemma_request_formulas(ns);
        let all = request_formulas(ms@);
        assert(crate::proxy::profiles::request_formulas(ns@) == all);
        assert(forall|k: int| 0 <= k < ns@.len() ==> (#[trigger] ns@[k]).formula() == all[k]) by {
            assert forall|k: int| 0 <= k < ns@.len() implies (#[trigger] ns@[k]).formula()
                == all[k] by {
                assert(crate::proxy::profiles::request_formulas(ns@)[k] == ns@[k].formula());
            }
        }
        if m.holds(method, path) {
            let k = choose|k: int| 0 <= k < ns@.len() && (#[trigger] ns@[k]).holds(method, path);
            assert(ns@[k].formula() == all[k]);
            let i = lemma_request_found(ms@, k);
            lemma_request_converts(ms@[i], ns@[k], method, path);
        } else {
            assert forall|i: int| 0 <= i < ms@.len() implies (requests_convert(
                #[trigger] ms@[i],
                method, path,
                Some(false),
            ) || requests_convert(ms@[i], method, path, None)) by {
                if request_formula(ms@[i]) is Some {
                    let k = lemma_request_kept(ms@, i);
                    assert(ns@[k].formula() == all[k]);
                    if ns@[k].holds(method, path) {
                        crate::proxy::profiles::lemma_any_request(m, k, method, path);
                    }
                    lemma_request_converts(ms@[i], ns@[k], method, path);
                }
            }
        }
    }
}

/// The negation of a condition can be converted exactly if the condition can, and then it holds
/// exactly where the condition does not. Without a condition there is nothing to convert.
pub proof fn negated_request_conditions_are_converted(
    orig: api::RequestMatch,
    inner: Box<api::RequestMatch>,
    r: Option<RequestMatch>,
    s: Option<RequestMatch>,
    method: Seq<char>, path: Seq<char>,
)
    requires
        orig.match_ == Some(api::RequestCondition::Not(inner)),
        call_ensures(convert_req_match, (&orig,), r),
        call_ensures(convert_req_match, (&*inner,), s),
    ensures
        match (r, s) {
            (Some(m), Some(n)) => m.holds(method, path) == !n.holds(method, path),
            (None, None) => true,
            _ => false,
        },
{
    if let Some(m) = r {
        assert(m is Not);
        crate::proxy::profiles::request_formula_tells_meaning(*m->Not_0, s->0, method, path);
    }
}

/// Whether converting a condition on responses can only give one that holds as `r` says, or none
/// where `r` is none.
pub open spec fn responses_convert(orig: api::ResponseMatch, status: u16, r: Option<bool>) -> bool {
    forall|x: Option<ResponseMatch>| #[trigger]
        call_ensures(convert_rsp_match, (&orig,), x) ==> match x {
            Some(m) => r == Some(m.holds(status)),
            None => r is None,
        }
}

proof fn lemma_response_kept(ms: Seq<api::ResponseMatch>, i: int) -> (k: int)
    requires
        0 <= i < ms.len(),
        response_formula(ms[i]) is Some,
    ensures
        0 <= k < response_formulas(ms).len(),
        response_formulas(ms)[k] == response_formula(ms[i])->0,
    decreases ms.len(),
{
    let before = response_formulas(ms.drop_last());
    if i == ms.len() - 1 {
        before.len() as int
    } else {
        let k = lemma_response_kept(ms.drop_last(), i);
        assert(response_formulas(ms)[k] == before[k]);
        k
    }
}

proof fn lemma_response_found(ms: Seq<api::ResponseMatch>, k: int) -> (i: int)
    requires
        0 <= k < response_formulas(ms).len(),
    ensures
        0 <= i < ms.len(),
        response_formula(ms[i]) == Some(response_formulas(ms)[k]),
    decreases ms.len(),
{
    let before = response_formulas(ms.drop_last());
    if ms.len() == 0 {
        0
    } else if k < before.len() {
        let i = lemma_response_found(ms.drop_last(), k);
        assert(response_formulas(ms)[k] == before[k]);
        i
    } else {
        ms.len() - 1
    }
}

/// Converting a condition whose formula is that of `m` gives one that holds as `m` does.
proof fn lemma_response_converts(orig: api::ResponseMatch, m: ResponseMatch, status: u16)
    requires
        response_formula(orig) == Some(m.formula()),
    ensures
        responses_convert(orig, status, Some(m.holds(status))),
{
    assert forall|x: Option<ResponseMatch>| #[trigger]
        call_ensures(convert_rsp_match, (&orig,), x) implies x matches Some(n) && n.holds(status) == m.holds(
        status,
    ) by {
        crate::proxy::profiles::response_formula_tells_meaning(x->0, m, status);
    }
}

/// All of several conditions, once converted, hold of a response exactly if each of those that
/// can be converted does. The others have no say.
pub proof fn all_response_conditions_are_converted(
    orig: api::ResponseMatch,
    ms: Vec<api::ResponseMatch>,
    r: Option<ResponseMatch>,
    status: u16,
)
    requires
        orig.match_ == Some(api::ResponseCondition::All(ms)),
        call_ensures(convert_rsp_match, (&orig,), r),
    ensures
        r is Some ==> exists|i: int|
            0 <= i < ms@.len() && !response_is_dropped(#[trigger] ms@[i]),
        r is None ==> forall|i: int|
            0 <= i < ms@.len() ==> response_is_dropped(#[trigger] ms@[i]),
        r matches Some(m) ==> m.holds(status) ==> forall|i: int|
            0 <= i < ms@.len() ==> (responses_convert(#[trigger] ms@[i], status, Some(true))
                || responses_convert(ms@[i], status, None)),
        r matches Some(m) ==> !m.holds(status) ==> exists|i: int|
            0 <= i < ms@.len() && responses_convert(#[trigger] ms@[i], status, Some(false)),
{
    lemma_responses_dropped(ms@);
    if let Some(m) = r {
        assert(m is All);
        let ns = m->All_0;
        crate::proxy::profiles::lemma_response_formulas(ns);
        let all = response_formulas(ms@);
        assert(crate::proxy::profiles::response_formulas(ns@) == all);
        assert(forall|k: int| 0 <= k < ns@.len() ==> (#[trigger] ns@[k]).formula() == all[k]) by {
            assert forall|k: int| 0 <= k < ns@.len() implies (#[trigger] ns@[k]).formula()
                == all[k] by {
                assert(crate::proxy::profiles::response_formulas(ns@)[k] == ns@[k].formula());
            }
        }
        if m.holds(status) {
            assert forall|i: int| 0 <= i < ms@.len() implies (responses_convert(
                #[trigger] ms@[i],
                status,
                Some(true),
            ) || responses_convert(ms@[i], status, None)) by {
                if response_formula(ms@[i]) is Some {
                    let k = lemma_response_kept(ms@, i);
                    assert(ns@[k].formula() == all[k]);
                    crate::proxy::profiles::lemma_all_response(m, k, status);
                    lemma_response_converts(ms@[i], ns@[k], status);
                }
            }
        } else {
            let k = choose|k: int| 0 <= k < ns@.len() && !(#[trigger] ns@[k]).holds(status);
            assert(ns@[k].formula() == all[k]);
            let i = lemma_response_found(ms@, k);
            lemma_response_converts(ms@[i], ns@[k], status);
        }
    }
}

/// Any of several conditions, once converted, holds of a response exactly if one of those that can
/// be converted does.
pub proof fn any_response_condition_is_converted(
    orig: api::ResponseMatch,
    ms: Vec<api::ResponseMatch>,
    r: Option<ResponseMatch>,
    status: u16,
)
    requires
        orig.match_ == Some(api::ResponseCondition::Any(ms)),
        call_ensures(convert_rsp_match, (&orig,), r),
    ensures
        r is Some ==> exists|i: int|
            0 <= i < ms@.len() && !response_is_dropped(#[trigger] ms@[i]),
        r is None ==> forall|i: int|
            0 <= i < ms@.len() ==> response_is_dropped(#[trigger] ms@[i]),
        r matches Some(m) ==> m.holds(status) ==> exists|i: int|
            0 <= i < ms@.len() && responses_convert(#[trigger] ms@[i], status, Some(true)),
        r matches Some(m) ==> !m.holds(status) ==> forall|i: int|
            0 <= i < ms@.len() ==> (responses_convert(#[trigger] ms@[i], status, Some(false))
                || responses_convert(ms@[i], status, None)),
{
    lemma_responses_dropped(ms@);
    if let Some(m) = r {
        assert(m is Any);
        let ns = m->Any_0;
        crate::proxy::profiles::lemma_response_formulas(ns);
        let all = response_formulas(ms@);
        assert(crate::proxy::profiles::response_formulas(ns@) == all);
        assert(forall|k: int| 0 <= k < ns@.len() ==> (#[trigger] ns@[k]).formula() == all[k]) by {
            assert forall|k: int| 0 <= k < ns@.len() implies (#[trigger] ns@[k]).formula()
                == all[k] by {
                assert(crate::proxy::profiles::response_formulas(ns@)[k] == ns@[k].formula());
            }
        }
        if m.holds(status) {
            let k = choose|k: int| 0 <= k < ns@.len() && (#[trigger] ns@[k]).holds(status);
            assert(ns@[k].formula() == all[k]);
            let i = lemma_response_found(ms@, k);
            lemma_response_converts(ms@[i], ns@[k], status);
        } else {
            assert forall|i: int| 0 <= i < ms@.len() implies (responses_convert(
                #[trigger] ms@[i],
                status,
                Some(false),
            ) || responses_convert(ms@[i], status, None)) by {
                if response_formula(ms@[i]) is Some {
                    let k = lemma_response_kept(ms@, i);
                    assert(ns@[k].formula() == all[k]);
                    if ns@[k].holds(status) {
                        crate::proxy::profiles::lemma_any_response(m, k, status);
                    }
                    lemma_response_converts(ms@[i], ns@[k], status);
                }
            }
        }
    }
}

/// The negation of a condition can be converted exactly if the condition can, and then it holds
/// exactly where the condition does not. Without a condition there is nothing to convert.
pub proof fn negated_response_conditions_are_converted(
    orig: api::ResponseMatch,
    inner: Box<api::ResponseMatch>,
    r: Option<ResponseMatch>,
    s: Option<ResponseMatch>,
    status: u16,
)
    requires
        orig.match_ == Some(api::ResponseCondition::Not(inner)),
        call_ensures(convert_rsp_match, (&orig,), r),
        call_ensures(convert_rsp_match, (&*inner,), s),
    ensures
        match (r, s) {
            (Some(m), Some(n)) => m.holds(status) == !n.holds(status),
            (None, None) => true,
            _ => false,
        },
{
    if let Some(m) = r {
        assert(m is Not);
        crate::proxy::profiles::response_formula_tells_meaning(*m->Not_0, s->0, status);
    }
}

/// Whether converting a condition on responses can only give none.
pub open spec fn response_is_dropped(orig: api::ResponseMatch) -> bool {
    response_formula(orig) is None && forall|x: Option<ResponseMatch>| #[trigger]
        call_ensures(convert_rsp_match, (&orig,), x) ==> x is None
}

proof fn lemma_responses_dropped(ms: Seq<api::ResponseMatch>)
    ensures
        response_formulas(ms).len() > 0 ==> exists|i: int|
            0 <= i < ms.len() && !response_is_dropped(#[trigger] ms[i]),
        response_formulas(ms).len() == 0 ==> forall|i: int|
            0 <= i < ms.len() ==> response_is_dropped(#[trigger] ms[i]),
{
    if response_formulas(ms).len() > 0 {
        let i = lemma_response_found(ms, 0);
        assert(!response_is_dropped(ms[i]));
    } else {
        assert forall|i: int| 0 <= i < ms.len() implies response_is_dropped(#[trigger] ms[i]) by {
            if response_formula(ms[i]) is Some {
                let k = lemma_response_kept(ms, i);
            }
        }
    }
}

/// A path is matched by the regular expression in the message, if that compiles, and by no
/// other. A method is matched by its token. What is missing makes no condition.
pub proof fn simple_request_conditions_are_converted(
    orig: api::RequestMatch,
    r: Option<RequestMatch>,
    method: Seq<char>,
    path: Seq<char>,
)
    requires
        call_ensures(convert_req_match, (&orig,), r),
    ensures
        orig.match_ is None ==> r is None,
        orig.match_ matches Some(api::RequestCondition::Path(regex)) ==> match r {
            Some(m) => crate::pattern::compiled(regex@) is Some && (m.holds(method, path)
                <==> crate::pattern::compiled(regex@)->0.contains(path)),
            None => crate::pattern::compiled(regex@) is None,
        },
        orig.match_ matches Some(api::RequestCondition::Method(m)) ==> match r {
            Some(c) => m.type_ is Some && m.type_->0.method is Some && (c.holds(method, path)
                <==> m.type_->0.method->0.token@ == method),
            None => m.type_ is None || m.type_->0.method is None,
        },
{
    if let Some(m) = r {
        assert(orig.match_->0 is Path ==> m is Path);
        assert(orig.match_->0 is Method ==> m is Method);
    }
}

/// A range of statuses is made of the lowest sixteen bits of two numbers, both of which must be
/// statuses, and includes its ends.
pub proof fn status_ranges_are_converted(
    orig: api::ResponseMatch,
    range: api::StatusRange,
    r: Option<ResponseMatch>,
    status: u16,
)
    requires
        orig.match_ == Some(api::ResponseCondition::Status(range)),
        call_ensures(convert_rsp_match, (&orig,), r),
    ensures
        r is Some <==> 100 <= range.min % 65536 <= 599 && 100 <= range.max % 65536 <= 599,
        r matches Some(m) ==> (m.holds(status) <==> range.min % 65536 <= status <= range.max
            % 65536),
{
    if let Some(m) = r {
        assert(m is Status);
    }
}

/// Without a condition there is no condition on responses.
pub proof fn missing_response_conditions_are_dropped(
    orig: api::ResponseMatch,
    r: Option<ResponseMatch>,
)
    requires
        orig.match_ is None,
        call_ensures(convert_rsp_match, (&orig,), r),
    ensures
        r is None,
{
}

/// A class of responses is converted exactly if its condition is, and then it has that condition
/// and counts as a failure exactly if the message says so.
pub proof fn classes_are_converted(
    orig: api::ResponseClass,
    condition: api::ResponseMatch,
    r: Option<ResponseClass>,
    m: Option<ResponseMatch>,
    status: u16,
)
    requires
        orig.condition == Some(condition),
        call_ensures(convert_rsp_class, (&orig,), r),
        call_ensures(convert_rsp_match, (&condition,), m),
    ensures
        match (r, m) {
            (Some(class), Some(m)) => class.is_failure == orig.is_failure && class.condition.holds(
                status,
            ) == m.holds(status),
            (None, None) => true,
            _ => false,
        },
{
    if r is Some && m is Some {
        crate::proxy::profiles::response_formula_tells_meaning(r->0.condition, m->0, status);
    }
}

/// A class without a condition is left out.
pub proof fn classes_without_condition_are_dropped(
    orig: api::ResponseClass,
    r: Option<ResponseClass>,
)
    requires
        orig.condition is None,
        call_ensures(convert_rsp_class, (&orig,), r),
    ensures
        r is None,
{
}

/// Whether converting a class can only give one that says of a status what `class` does.
pub open spec fn class_converts(
    orig: api::ResponseClass,
    class: ResponseClass,
    status: u16,
) -> bool {
    forall|x: Option<ResponseClass>| #[trigger]
        call_ensures(convert_rsp_class, (&orig,), x) ==> (x matches Some(c) && c.is_failure
            == class.is_failure && c.condition.holds(status) == class.condition.holds(status))
}

/// Whether converting a class can only give none.
pub open spec fn class_is_dropped(orig: api::ResponseClass) -> bool {
    forall|x: Option<ResponseClass>| #[trigger]
        call_ensures(convert_rsp_class, (&orig,), x) ==> x is None
}

/// Whether `places` tells, in order, where each of `classes` comes from in a message, and all
/// others in the message are left out.
pub open spec fn are_places(
    origs: Seq<api::ResponseClass>,
    classes: Seq<ResponseClass>,
    status: u16,
    places: Seq<int>,
) -> bool {
    &&& places.len() == classes.len()
    &&& forall|i: int, j: int| 0 <= i < j < places.len() ==> #[trigger] places[i]
        < #[trigger] places[j]
    &&& forall|i: int|
        0 <= i < places.len() ==> 0 <= #[trigger] places[i] < origs.len() && class_converts(
            origs[places[i]],
            classes[i],
            status,
        )
    &&& forall|k: int|
        0 <= k < origs.len() ==> places.contains(k) || class_is_dropped(#[trigger] origs[k])
}

proof fn lemma_class_places(
    origs: Seq<api::ResponseClass>,
    classes: Seq<ResponseClass>,
    status: u16,
) -> (places: Seq<int>)
    requires
        crate::proxy::profiles::class_formulas(classes) == class_formulas(origs),
    ensures
        are_places(origs, classes, status, places),
    decreases origs.len(),
{
    let formulas = crate::proxy::profiles::class_formulas(classes);
    if origs.len() == 0 {
        assert(formulas.len() == classes.len());
        Seq::empty()
    } else {
        let init = origs.drop_last();
        let n = origs.len() - 1;
        match class_formula(origs.last()) {
            Some(f) => {
                let before = classes.drop_last();
                assert(formulas.len() == classes.len());
                assert(crate::proxy::profiles::class_formulas(before) =~= class_formulas(init)) by {
                    assert(formulas.drop_last() =~= class_formulas(init));
                    assert(crate::proxy::profiles::class_formulas(before)
                        =~= formulas.drop_last());
                }
                let places = lemma_class_places(init, before, status);
                let all = places.push(n);
                assert(formulas.last() == classes.last()@);
                assert(class_converts(origs[n], classes.last(), status)) by {
                    assert forall|x: Option<ResponseClass>| #[trigger]
                        call_ensures(convert_rsp_class, (&origs[n],), x) implies (x matches Some(c)
                        && c.is_failure == classes.last().is_failure && c.condition.holds(status)
                        == classes.last().condition.holds(status)) by {
                        crate::proxy::profiles::response_formula_tells_meaning(
                            x->0.condition,
                            classes.last().condition,
                            status,
                        );
                    }
                }
                assert forall|i: int| 0 <= i < all.len() implies 0 <= #[trigger] all[i]
                    < origs.len() && class_converts(origs[all[i]], classes[i], status) by {
                    if i < places.len() {
                        assert(all[i] == places[i]);
                        assert(init[places[i]] == origs[places[i]]);
                    }
                }
                assert forall|i: int, j: int| 0 <= i < j < all.len() implies #[trigger] all[i]
                    < #[trigger] all[j] by {
                    assert(all[i] == places[i]);
                    if j < places.len() {
                        assert(places[i] < places[j]);
                    }
                }
                assert forall|k: int| 0 <= k < origs.len() implies all.contains(k)
                    || class_is_dropped(#[trigger] origs[k]) by {
                    if k == n {
                        assert(all[places.len() as int] == n);
                    } else {
                        assert(init[k] == origs[k]);
                        if places.contains(k) {
                            let i = choose|i: int| 0 <= i < places.len() && places[i] == k;
                            assert(all[i] == k);
                        }
                    }
                }
                all
            },
            None => {
                let places = lemma_class_places(init, classes, status);
                assert forall|k: int| 0 <= k < origs.len() implies places.contains(k)
                    || class_is_dropped(#[trigger] origs[k]) by {
                    if k < n {
                        assert(init[k] == origs[k]);
                    }
                }
                assert forall|i: int| 0 <= i < places.len() implies 0 <= #[trigger] places[i]
                    < origs.len() && class_converts(origs[places[i]], classes[i], status) by {
                    assert(init[places[i]] == origs[places[i]]);
                }
                places
            },
        }
    }
}

/// The classes of a converted route are those of the message that can be converted, in the order
/// of the message. Each says of a status what converting it by itself gives.
pub proof fn route_classes_keep_their_order<B>(
    orig: api::Route,
    retry_budget: Option<Arc<B>>,
    default_retry_timeout: Option<api::SignedDuration>,
    m: RequestMatch,
    route: Route<B>,
    status: u16,
) -> (places: Seq<int>)
    requires
        call_ensures(
            convert_route::<B>,
            (orig, &retry_budget, default_retry_timeout),
            Some((m, route)),
        ),
    ensures
        are_places(orig.response_classes@, route.response_classes@, status, places),
{
    lemma_class_places(orig.response_classes@, route.response_classes@, status)
}

/// A route is converted exactly if its condition is. It has that condition, and the labels that
/// the message gives it.
pub proof fn routes_are_converted_with_their_condition<B>(
    orig: api::Route,
    retry_budget: Option<Arc<B>>,
    default_retry_timeout: Option<api::SignedDuration>,
    r: Option<(RequestMatch, Route<B>)>,
    x: Option<RequestMatch>,
    method: Seq<char>,
    path: Seq<char>,
)
    requires
        call_ensures(convert_route::<B>, (orig, &retry_budget, default_retry_timeout), r),
        orig.condition matches Some(condition) ==> call_ensures(
            convert_req_match,
            (&condition,),
            x,
        ),
        orig.condition is None ==> x is None,
    ensures
        match (r, x) {
            (Some((m, route)), Some(n)) => m.holds(method, path) == n.holds(method, path)
                && route.labels == orig.metrics_labels,
            (None, None) => true,
            _ => false,
        },
{
    if r is Some && x is Some {
        let (m, route) = r->0;
        crate::proxy::profiles::request_formula_tells_meaning(m, x->0, method, path);
    }
}

/// A route whose message gives it a proper retry timeout of its own has that timeout, whatever
/// the default is. One whose own timeout is negative is not retried, whatever the default is.
/// Only one without a timeout of its own has the default.
pub proof fn own_retry_timeout_goes_first<B>(
    orig: api::Route,
    retry_budget: Option<Arc<B>>,
    default_retry_timeout: Option<api::SignedDuration>,
    m: RequestMatch,
    route: Route<B>,
)
    requires
        call_ensures(
            convert_route::<B>,
            (orig, &retry_budget, default_retry_timeout),
            Some((m, route)),
        ),
        orig.is_retryable,
    ensures
        orig.retry_timeout matches Some(Ok(own)) ==> route.retry_timeout == Some(own),
        orig.retry_timeout matches Some(Err(_)) ==> route.retry_timeout is None
            && !route.is_retryable,
        orig.retry_timeout is None ==> match default_retry_timeout {
            Some(Ok(timeout)) => route.retry_timeout == Some(timeout),
            _ => route.retry_timeout is None && !route.is_retryable,
        },
{
}

/// How a route with a timeout of its own is retried does not depend on the default: two profiles
/// that differ in it give the route the same retries.
pub proof fn default_timeout_is_for_routes_without_one<B>(
    orig: api::Route,
    retry_budget: Option<Arc<B>>,
    a: Option<api::SignedDuration>,
    b: Option<api::SignedDuration>,
    r: Option<(RequestMatch, Route<B>)>,
    s: Option<(RequestMatch, Route<B>)>,
)
    requires
        call_ensures(convert_route::<B>, (orig, &retry_budget, a), r),
        call_ensures(convert_route::<B>, (orig, &retry_budget, b), s),
        orig.retry_timeout is Some || !orig.is_retryable || a == b,
    ensures
        match (r, s) {
            (Some((_, p)), Some((_, q))) => p.retry_timeout == q.retry_timeout && p.is_retryable
                == q.is_retryable && p.retry_budget == q.retry_budget,
            (None, None) => true,
            _ => false,
        },
{
}

/// A route is retried exactly if its message asks for that, it has a timeout, and there is a
/// budget, out of which it is retried then. A route that does not ask for retries has neither.
pub proof fn retries_take_a_timeout_and_a_budget<B>(
    orig: api::Route,
    retry_budget: Option<Arc<B>>,
    default_retry_timeout: Option<api::SignedDuration>,
    m: RequestMatch,
    route: Route<B>,
)
    requires
        call_ensures(
            convert_route::<B>,
            (orig, &retry_budget, default_retry_timeout),
            Some((m, route)),
        ),
    ensures
        route.is_retryable <==> orig.is_retryable && route.retry_timeout is Some && retry_budget
            is Some,
        route.is_retryable ==> route.retry_budget == retry_budget,
        !route.is_retryable ==> route.retry_budget is None,
        !orig.is_retryable ==> route.retry_timeout is None,
{
}

/// Setting up retries changes nothing of a route but its retries. Without a proper timeout it
/// changes nothing at all.
pub proof fn setting_up_retries_changes_nothing_else<B>(
    route: &mut Route<B>,
    retry_timeout: Option<api::SignedDuration>,
    retry_budget: Option<Arc<B>>,
)
    requires
        call_ensures(set_route_retry::<B>, (route, retry_timeout, &retry_budget), ()),
    ensures
        final(route).labels == old(route).labels,
        final(route).response_classes == old(route).response_classes,
        !(retry_timeout matches Some(Ok(_))) ==> *final(route) == *old(route),
        retry_timeout matches Some(Ok(timeout)) ==> final(route).retry_timeout == Some(timeout),
        retry_timeout matches Some(Ok(_)) ==> (retry_budget is Some ==> final(route).is_retryable
            && final(route).retry_budget == retry_budget),
        retry_budget is None ==> final(route).is_retryable == old(route).is_retryable
            && final(route).retry_budget == old(route).retry_budget,
{
}

/// Whether `places` tells, in order, which routes of a message were converted to `r`, each by
/// itself, and all others could not be.
pub open spec fn are_route_places<B>(
    origs: Seq<api::Route>,
    retry_budget: Option<Arc<B>>,
    default_retry_timeout: Option<api::SignedDuration>,
    r: Seq<(RequestMatch, Route<B>)>,
    places: Seq<int>,
) -> bool {
    &&& places.len() == r.len()
    &&& forall|i: int, j: int| 0 <= i < j < places.len() ==> #[trigger] places[i]
        < #[trigger] places[j]
    &&& forall|i: int|
        0 <= i < places.len() ==> 0 <= #[trigger] places[i] < origs.len() && is_converted_route(
            origs[places[i]],
            retry_budget,
            default_retry_timeout,
            Some(r[i]),
        )
    &&& forall|k: int|
        0 <= k < origs.len() ==> places.contains(k) || route_is_dropped::<B>(#[trigger] origs[k])
}

/// Whether converting a route can only give none.
pub open spec fn route_is_dropped<B>(orig: api::Route) -> bool {
    forall|budget: Option<Arc<B>>, timeout: Option<api::SignedDuration>, x: Option<
        (RequestMatch, Route<B>),
    >| #[trigger]
        call_ensures(convert_route::<B>, (orig, &budget, timeout), x) ==> x is None
}

proof fn lemma_route_places<B>(
    origs: Seq<api::Route>,
    retry_budget: Option<Arc<B>>,
    default_retry_timeout: Option<api::SignedDuration>,
    r: Seq<(RequestMatch, Route<B>)>,
) -> (places: Seq<int>)
    requires
        are_converted_routes(origs, retry_budget, default_retry_timeout, r),
    ensures
        are_route_places(origs, retry_budget, default_retry_timeout, r, places),
    decreases origs.len(),
{
    if origs.len() == 0 {
        Seq::empty()
    } else {
        let init = origs.drop_last();
        let n = origs.len() - 1;
        if has_condition(origs.last()) {
            let before = r.drop_last();
            let places = lemma_route_places(init, retry_budget, default_retry_timeout, before);
            let all = places.push(n);
            assert forall|i: int| 0 <= i < all.len() implies 0 <= #[trigger] all[i] < origs.len()
                && is_converted_route(
                origs[all[i]],
                retry_budget,
                default_retry_timeout,
                Some(r[i]),
            ) by {
                if i < places.len() {
                    assert(all[i] == places[i]);
                    assert(init[places[i]] == origs[places[i]]);
                    assert(before[i] == r[i]);
                }
            }
            assert forall|i: int, j: int| 0 <= i < j < all.len() implies #[trigger] all[i]
                < #[trigger] all[j] by {
                assert(all[i] == places[i]);
                if j < places.len() {
                    assert(places[i] < places[j]);
                }
            }
            assert forall|k: int| 0 <= k < origs.len() implies all.contains(k)
                || route_is_dropped::<B>(#[trigger] origs[k]) by {
                if k == n {
                    assert(all[places.len() as int] == n);
                } else {
                    assert(init[k] == origs[k]);
                    if places.contains(k) {
                        let i = choose|i: int| 0 <= i < places.len() && places[i] == k;
                        assert(all[i] == k);
                    }
                }
            }
            all
        } else {
            let places = lemma_route_places(init, retry_budget, default_retry_timeout, r);
            assert forall|k: int| 0 <= k < origs.len() implies places.contains(k)
                || route_is_dropped::<B>(#[trigger] origs[k]) by {
                if k < n {
                    assert(init[k] == origs[k]);
                }
            }
            assert forall|i: int| 0 <= i < places.len() implies 0 <= #[trigger] places[i]
                < origs.len() && is_converted_route(
                origs[places[i]],
                retry_budget,
                default_retry_timeout,
                Some(r[i]),
            ) by {
                assert(init[places[i]] == origs[places[i]]);
            }
            places
        }
    }
}

/// The routes of a profile are those of the message that can be converted, in the order of the
/// message.
pub proof fn routes_keep_their_order<B>(
    origs: Vec<api::Route>,
    retry_budget: Option<Arc<B>>,
    default_retry_timeout: Option<api::SignedDuration>,
    r: Vec<(RequestMatch, Route<B>)>,
) -> (places: Seq<int>)
    requires
        call_ensures(convert_routes::<B>, (origs, &retry_budget, default_retry_timeout), r),
    ensures
        are_route_places(origs@, retry_budget, default_retry_timeout, r@, places),
{
    lemma_route_places(origs@, retry_budget, default_retry_timeout, r@)
}

/// A retry budget is set up exactly if the rate is at most 2147483647 retries a second, the ratio
/// is above zero and at most 1000, and the time to live is at least one second and less than 61.
/// It has the limits that the message gives.
pub proof fn sensible_budgets_are_kept(orig: api::RetryBudget, r: Option<BudgetLimits>)
    requires
        call_ensures(convert_retry_budget, (orig,), r),
    ensures
        r is Some <==> {
            &&& orig.min_retries_per_second <= 2147483647
            &&& orig.ttl matches Some(Ok(ttl))
            &&& 1 <= ttl.secs <= 60
            &&& 0 < orig.retry_ratio_bits <= 0x447a_0000
        },
        r matches Some(limits) ==> limits.min_retries == orig.min_retries_per_second
            && limits.retry_ratio_bits == orig.retry_ratio_bits && Some(
            Ok::<Duration, Duration>(limits.ttl),
        ) == orig.ttl,
{
    crate::ratio::ratios_are_ordered_as_bits(orig.retry_ratio_bits);
}

/// The budget of a profile is the one that its message asks for.
pub proof fn profiles_have_their_own_budget(
    profile: api::DestinationProfile,
    r: Option<BudgetLimits>,
    s: Option<BudgetLimits>,
)
    requires
        call_ensures(profile_budget, (&profile,), r),
        profile.retry_budget matches Some(budget) ==> call_ensures(
            convert_retry_budget,
            (budget,),
            s,
        ),
        profile.retry_budget is None ==> s is None,
    ensures
        r == s,
{
}

/// Following a profile begins with nothing, asks for the destination by its text, and asks only
/// if there is somebody to ask.
pub proof fn profiles_are_followed_by_name<T>(client: Client<T>, dst: NameAddr, r: Option<Rx>)
    requires
        call_ensures(<Client<T> as GetRoutes>::get_routes, (&client, &dst), r),
    ensures
        r matches Some(rx) && rx.state == State::Disconnected && rx.backoff == client.backoff
            && rx.has_service == client.service is Some && rx.dst@ == dst.name@ + seq![':']
            + crate::text::decimal(dst.port as nat),
{
    reveal_strlit(":");
    assert(":"@ =~= seq![':']);
}

/// The control plane is asked only while there is no conversation with it, and then for the
/// destination in the `k8s` scheme. In every other state, what is under way is polled.
pub proof fn actions_follow_the_state(rx: Rx, action: Action)
    requires
        call_ensures(Rx::next_action, (&rx,), action),
    ensures
        action is YieldNoRoutes <==> !rx.has_service,
        action is GetProfile <==> rx.has_service && rx.state == State::Disconnected,
        action is PollResponse <==> rx.has_service && rx.state == State::Waiting,
        action is PollStream <==> rx.has_service && rx.state == State::Streaming,
        action is PollBackoff <==> rx.has_service && rx.state == State::Backoff,
        action matches Action::GetProfile(req) ==> req.path@ == rx.dst@ && req.scheme@
            == seq!['k', '8', 's'],
{
    reveal_strlit("k8s");
    assert("k8s"@ =~= seq!['k', '8', 's']);
}

/// Every failure and every end of the conversation leads to waiting for the backoff, and nothing
/// but its passing leads out of that. A profile is handed out as routes, and more may follow.
pub proof fn outcomes_lead_on<B, F: Fn(BudgetLimits) -> B>(
    rx: &mut Rx,
    outcome: Outcome,
    budget: F,
    progress: Progress<B>,
)
    requires
        call_ensures(Rx::observe::<B, F>, (rx, outcome, &budget), progress),
        old(rx).expects(outcome),
    ensures
        final(rx).dst == old(rx).dst,
        final(rx).backoff == old(rx).backoff,
        final(rx).has_service == old(rx).has_service,
        outcome is ResponseFailed || outcome is StreamEnded || outcome is StreamFailed
            <==> progress is ContinueAfter,
        progress matches Progress::ContinueAfter(d) ==> d == old(rx).backoff && final(rx).state
            == State::Backoff,
        outcome is ProfileReceived <==> progress is Routes,
        outcome is ProfileReceived ==> final(rx).state == State::Streaming,
        progress is NotReady ==> *final(rx) == *old(rx),
        progress is NotReady <==> outcome is ResponseNotReady || outcome is StreamNotReady
            || outcome is BackoffNotReady,
        outcome is Requested ==> final(rx).state == State::Waiting,
        outcome is ResponseReceived ==> final(rx).state == State::Streaming,
        outcome is BackoffElapsed ==> final(rx).state == State::Disconnected,
{
}

/// What is expected to happen is what can come of the next action.
pub proof fn outcomes_answer_the_action(rx: Rx, outcome: Outcome, action: Action)
    requires
        call_ensures(Rx::next_action, (&rx,), action),
        rx.has_service,
    ensures
        rx.expects(outcome) <==> match outcome {
            Outcome::Requested => action is GetProfile,
            Outcome::ResponseNotReady | Outcome::ResponseReceived | Outcome::ResponseFailed =>
                action is PollResponse,
            Outcome::StreamNotReady | Outcome::ProfileReceived(_) | Outcome::StreamEnded
            | Outcome::StreamFailed => action is PollStream,
            Outcome::BackoffNotReady | Outcome::BackoffElapsed => action is PollBackoff,
        },
{
}

/// Every route of a profile that is retried draws on one and the same budget, which is set up
/// with the limits in the profile. Where the profile has no sensible limits, none is retried.
pub proof fn routes_share_the_budget_of_their_profile<B, F: Fn(BudgetLimits) -> B>(
    rx: &mut Rx,
    profile: api::DestinationProfile,
    budget: F,
    routes: Vec<(RequestMatch, Route<B>)>,
    limits: Option<BudgetLimits>,
    i: int,
)
    requires
        call_ensures(
            Rx::observe::<B, F>,
            (rx, Outcome::ProfileReceived(profile), &budget),
            Progress::Routes(routes),
        ),
        call_ensures(profile_budget, (&profile,), limits),
        0 <= i < routes@.len(),
        routes@[i].1.is_retryable,
    ensures
        limits matches Some(l) && routes@[i].1.retry_budget matches Some(b) && call_ensures(
            budget,
            (l,),
            *b,
        ),
        forall|j: int|
            0 <= j < routes@.len() && (#[trigger] routes@[j]).1.is_retryable
                ==> routes@[j].1.retry_budget == routes@[i].1.retry_budget,
{
    let retry_budget = choose|retry_budget: Option<Arc<B>>| #[trigger]
        is_budget(budget, profile_limits(profile), retry_budget) && are_converted_routes(
            profile.routes@,
            retry_budget,
            profile.default_retry_timeout,
            routes@,
        );
    let places = lemma_route_places(
        profile.routes@,
        retry_budget,
        profile.default_retry_timeout,
        routes@,
    );
    assert(0 <= places[i] < profile.routes@.len());
    assert forall|j: int|
        0 <= j < routes@.len() && (#[trigger] routes@[j]).1.is_retryable implies routes@[j].1.retry_budget
        == routes@[i].1.retry_budget by {
        assert(0 <= places[j] < profile.routes@.len());
    }
}

} // verus!
