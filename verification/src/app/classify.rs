//! Decides what a response means: whether it is a success or a failure, and of what kind.
use crate::message::headers::get_header;
use crate::message::{self, StatusCode};
use crate::proxy::classify::{Classify, ClassifyEos, ClassifyResponse};
use crate::proxy::profiles::ResponseClass;
use crate::text::{parse_u32, starts_with, to_text};
use http::header::{HeaderMap, HeaderValue};
use std::sync::Arc;
use vstd::prelude::*;

verus! {

/// Whether a response is a success.
#[derive(Clone, Copy, Debug, PartialEq, Eq, Hash, Structural)]
pub enum SuccessOrFailure {
    Success,
    Failure,
}

/// What a response means.
#[derive(Debug, PartialEq, Eq, Hash)]
pub enum Class {
    /// A gRPC response, by its gRPC status.
    Grpc(SuccessOrFailure, u32),
    /// An HTTP response, by its status.
    Http(SuccessOrFailure, StatusCode),
    /// A response whose stream broke off, by the error.
    Stream(SuccessOrFailure, String),
}

impl Clone for Class {
    fn clone(&self) -> (r: Self)
        ensures
            r == *self,
    {
        match self {
            Class::Grpc(result, status) => Class::Grpc(*result, *status),
            Class::Http(result, status) => Class::Http(*result, *status),
            Class::Stream(result, error) => Class::Stream(*result, error.clone()),
        }
    }
}

/// An error that broke a stream off, by how it describes itself.
#[derive(Debug, PartialEq, Eq, Hash)]
pub struct StreamError {
    pub message: String,
}

/// The class of a stream that broke off with an error.
pub open spec fn is_stream_failure(error: StreamError, class: Class) -> bool {
    class matches Class::Stream(result, message) && result == SuccessOrFailure::Failure && message@
        == error.message@
}

fn stream_failure(error: &StreamError) -> (class: Class)
    ensures
        is_stream_failure(*error, class),
{
    Class::Stream(SuccessOrFailure::Failure, error.message.clone())
}

/// Classifies the responses to requests on a route.
pub struct Request {
    pub classes: Arc<Vec<ResponseClass>>,
}

/// Classifies a response.
pub enum Response {
    /// By its gRPC status.
    Grpc,
    /// By the first of several classes that it is in, or else by its HTTP status.
    Http { classes: Arc<Vec<ResponseClass>> },
}

/// Classifies the end of a response.
#[derive(Debug, PartialEq, Eq, Hash)]
pub enum Eos {
    Http(HttpEos),
    Grpc(GrpcEos),
}

/// Classifies the end of an HTTP response.
#[derive(Debug, PartialEq, Eq, Hash)]
pub enum HttpEos {
    /// The route's profile has told the class already.
    FromProfile(Class),
    /// The status tells the class.
    Pending(StatusCode),
}

/// Classifies the end of a gRPC response.
#[derive(Debug, PartialEq, Eq, Hash)]
pub enum GrpcEos {
    /// The headers have told the class already, and no body follows.
    NoBody(Class),
    /// The trailers are going to tell the class.
    Open,
}

impl Clone for Response {
    fn clone(&self) -> (r: Self)
        ensures
            r == *self,
    {
        match self {
            Response::Grpc => Response::Grpc,
            Response::Http { classes } => Response::Http { classes: classes.clone() },
        }
    }
}

/// Whether a request with these headers is a gRPC request.
pub open spec fn is_grpc(headers: HeaderMap<HeaderValue>) -> bool {
    match crate::message::headers::first_value(headers, "content-type"@) {
        Some(v) => match crate::text::visible_text(v) {
            Some(_) => "application/grpc+"@.is_prefix_of(crate::text::ascii_chars(v)),
            None => false,
        },
        None => false,
    }
}

/// The gRPC status in a set of headers or trailers, if they hold one.
pub open spec fn grpc_status(headers: HeaderMap<HeaderValue>) -> Option<u32> {
    match crate::message::headers::first_value(headers, "grpc-status"@) {
        Some(v) => match crate::text::visible_text(v) {
            Some(_) => crate::text::spelled_u32(v),
            None => None,
        },
        None => None,
    }
}

/// The class of a gRPC response with a given status: zero alone means success.
pub open spec fn class_of_grpc_status(status: u32) -> Class {
    Class::Grpc(
        if status == 0 {
            SuccessOrFailure::Success
        } else {
            SuccessOrFailure::Failure
        },
        status,
    )
}

/// The class of a gRPC response that headers or trailers tell, if they do.
pub open spec fn spec_grpc_class(headers: HeaderMap<HeaderValue>) -> Option<Class> {
    match grpc_status(headers) {
        Some(status) => Some(class_of_grpc_status(status)),
        None => None,
    }
}

/// Reads the class of a gRPC response from its headers or trailers.
pub fn grpc_class(headers: &HeaderMap<HeaderValue>) -> (class: Option<Class>)
    ensures
        class == spec_grpc_class(*headers),
{
    proof {
        reveal_strlit("grpc-status");
    }
    let value: Vec<u8> = match get_header(headers, "grpc-status") {
        Some(v) => v,
        None => {
            return None;
        },
    };
    if to_text(&value).is_none() {
        return None;
    }
    match parse_u32(&value) {
        Some(status) => if status == 0 {
            Some(Class::Grpc(SuccessOrFailure::Success, status))
        } else {
            Some(Class::Grpc(SuccessOrFailure::Failure, status))
        },
        None => None,
    }
}

/// The first class that a response with the given status is in, if it is in one.
pub open spec fn first_match(classes: Seq<ResponseClass>, status: u16) -> Option<ResponseClass>
    decreases classes.len(),
{
    if classes.len() == 0 {
        None
    } else if classes[0].condition.holds(status) {
        Some(classes[0])
    } else {
        first_match(classes.drop_first(), status)
    }
}

/// The class of an HTTP response that the classes of its route tell, if they do.
pub open spec fn class_from_profile(classes: Seq<ResponseClass>, status: StatusCode) -> Option<
    Class,
> {
    match first_match(classes, status.number()) {
        Some(c) => Some(
            Class::Http(
                if c.is_failure {
                    SuccessOrFailure::Failure
                } else {
                    SuccessOrFailure::Success
                },
                status,
            ),
        ),
        None => None,
    }
}

/// The class of an HTTP response by its status alone: only the blame of the server makes it
/// a failure.
pub open spec fn class_of_http_status(status: StatusCode) -> Class {
    Class::Http(
        if 500 <= status.number() < 600 {
            SuccessOrFailure::Failure
        } else {
            SuccessOrFailure::Success
        },
        status,
    )
}

impl Request {
    /// Classifies responses by the given classes.
    pub fn new(classes: Vec<ResponseClass>) -> (r: Request)
        ensures
            *r.classes == classes,
    {
        Request { classes: Arc::new(classes) }
    }
}

impl From<Arc<Vec<ResponseClass>>> for Request {
    fn from(classes: Arc<Vec<ResponseClass>>) -> (r: Self) {
        Request { classes }
    }
}

impl vstd::std_specs::convert::FromSpecImpl<Arc<Vec<ResponseClass>>> for Request {
    open spec fn obeys_from_spec() -> bool {
        true
    }

    open spec fn from_spec(classes: Arc<Vec<ResponseClass>>) -> Self {
        Request { classes }
    }
}

impl Classify for Request {
    type Class = Class;

    type Error = StreamError;

    type ClassifyEos = Eos;

    type ClassifyResponse = Response;

    open spec fn classifies(&self, headers: HeaderMap<HeaderValue>, r: Response) -> bool {
        r == if is_grpc(headers) {
            Response::Grpc
        } else {
            Response::Http { classes: self.classes }
        }
    }

    fn classify<B>(&self, req: &message::Request<B>) -> (r: Response) {
        proof {
            reveal_strlit("content-type");
            reveal_strlit("application/grpc+");
        }
        // Determine if the request is a gRPC request by checking the content-type.
        match get_header(&req.headers, "content-type") {
            Some(value) => {
                let prefix: &[u8] = "application/grpc+".as_bytes();
                proof {
                    crate::text::lemma_ascii_prefix("application/grpc+"@, value@);
                }
                if to_text(&value).is_some() && starts_with(&value, prefix) {
                    return Response::Grpc;
                }
            },
            None => {},
        }
        Response::Http { classes: self.classes.clone() }
    }
}

impl Response {
    /// The class that the first matching of several classes gives a response.
    pub fn match_class(status: &StatusCode, classes: &Vec<ResponseClass>) -> (class: Option<Class>)
        ensures
            class == class_from_profile(classes@, *status),
    {
        assert(classes@.skip(0) =~= classes@);
        for i in 0..classes.len()
            invariant
                first_match(classes@, status.number()) == first_match(
                    classes@.skip(i as int),
                    status.number(),
                ),
        {
            assert(classes@.skip(i as int).drop_first() =~= classes@.skip(i + 1));
            if classes[i].is_match(status) {
                let result: SuccessOrFailure = if classes[i].is_failure() {
                    SuccessOrFailure::Failure
                } else {
                    SuccessOrFailure::Success
                };
                return Some(Class::Http(result, *status));
            }
        }
        None
    }
}

impl Default for Response {
    /// By default, simply perform HTTP classification.
    fn default() -> (r: Self)
        ensures
            r matches Response::Http { classes } && classes@.len() == 0,
    {
        Response::Http { classes: Arc::new(Vec::new()) }
    }
}

/// What the headers of a response tell about its class.
pub open spec fn started(
    response: Response,
    status: StatusCode,
    headers: HeaderMap<HeaderValue>,
) -> (Eos, Option<Class>) {
    match response {
        Response::Grpc => match spec_grpc_class(headers) {
            None => (Eos::Grpc(GrpcEos::Open), None),
            Some(class) => (Eos::Grpc(GrpcEos::NoBody(class)), Some(class)),
        },
        Response::Http { classes } => match class_from_profile(classes@, status) {
            None => (Eos::Http(HttpEos::Pending(status)), None),
            Some(class) => (Eos::Http(HttpEos::FromProfile(class)), Some(class)),
        },
    }
}

impl ClassifyResponse for Response {
    type Class = Class;

    type Error = StreamError;

    type ClassifyEos = Eos;

    open spec fn starts(
        self,
        status: StatusCode,
        headers: HeaderMap<HeaderValue>,
        r: (Eos, Option<Class>),
    ) -> bool {
        r == started(self, status, headers)
    }

    open spec fn fails(self, error: StreamError, class: Class) -> bool {
        is_stream_failure(error, class)
    }

    fn start<B>(self, rsp: &message::Response<B>) -> (r: (Eos, Option<Class>)) {
        match self {
            Response::Grpc => match grpc_class(&rsp.headers) {
                None => (Eos::Grpc(GrpcEos::Open), None),
                Some(class) => (Eos::Grpc(GrpcEos::NoBody(class.clone())), Some(class)),
            },
            Response::Http { classes } => {
                match Response::match_class(&rsp.status, &*classes) {
                    None => (Eos::Http(HttpEos::Pending(rsp.status)), None),
                    Some(class) => (Eos::Http(HttpEos::FromProfile(class.clone())), Some(class)),
                }
            },
        }
    }

    fn error(self, error: &StreamError) -> (class: Class) {
        stream_failure(error)
    }
}

/// The class of a response that ends.
pub open spec fn ended(eos: Eos, trailers: Option<HeaderMap<HeaderValue>>) -> Class {
    match eos {
        Eos::Http(HttpEos::FromProfile(class)) => class,
        Eos::Http(HttpEos::Pending(status)) => class_of_http_status(status),
        Eos::Grpc(GrpcEos::NoBody(class)) => class,
        Eos::Grpc(GrpcEos::Open) => match trailers {
            Some(headers) => match spec_grpc_class(headers) {
                Some(class) => class,
                None => class_of_grpc_status(0),
            },
            None => class_of_grpc_status(0),
        },
    }
}

impl ClassifyEos for Eos {
    type Class = Class;

    type Error = StreamError;

    open spec fn ends(self, trailers: Option<HeaderMap<HeaderValue>>, class: Class) -> bool {
        class == ended(self, trailers)
    }

    open spec fn fails(self, error: StreamError, class: Class) -> bool {
        is_stream_failure(error, class)
    }

    fn eos(self, trailers: Option<&HeaderMap<HeaderValue>>) -> (class: Class) {
        match self {
            Eos::Http(http) => http.eos(trailers),
            Eos::Grpc(grpc) => grpc.eos(trailers),
        }
    }

    fn error(self, error: &StreamError) -> (class: Class) {
        match self {
            Eos::Http(http) => http.error(error),
            Eos::Grpc(grpc) => grpc.error(error),
        }
    }
}

impl ClassifyEos for HttpEos {
    type Class = Class;

    type Error = StreamError;

    open spec fn ends(self, trailers: Option<HeaderMap<HeaderValue>>, class: Class) -> bool {
        class == ended(Eos::Http(self), trailers)
    }

    open spec fn fails(self, error: StreamError, class: Class) -> bool {
        is_stream_failure(error, class)
    }

    fn eos(self, trailers: Option<&HeaderMap<HeaderValue>>) -> (class: Class) {
        match self {
            HttpEos::FromProfile(class) => class,
            HttpEos::Pending(status) => if status.is_server_error() {
                Class::Http(SuccessOrFailure::Failure, status)
            } else {
                Class::Http(SuccessOrFailure::Success, status)
            },
        }
    }

    fn error(self, error: &StreamError) -> (class: Class) {
        stream_failure(error)
    }
}

impl ClassifyEos for GrpcEos {
    type Class = Class;

    type Error = StreamError;

    open spec fn ends(self, trailers: Option<HeaderMap<HeaderValue>>, class: Class) -> bool {
        class == ended(Eos::Grpc(self), trailers)
    }

    open spec fn fails(self, error: StreamError, class: Class) -> bool {
        is_stream_failure(error, class)
    }

    fn eos(self, trailers: Option<&HeaderMap<HeaderValue>>) -> (class: Class) {
        match self {
            GrpcEos::NoBody(class) => class,
            GrpcEos::Open => match trailers {
                Some(headers) => match grpc_class(headers) {
                    Some(class) => class,
                    None => Class::Grpc(SuccessOrFailure::Success, 0),
                },
                None => Class::Grpc(SuccessOrFailure::Success, 0),
            },
        }
    }

    /// Ignores the original classification when an error is encountered.
    fn error(self, error: &StreamError) -> (class: Class) {
        stream_failure(error)
    }
}

/// A class that the headers told is the class of the response when it ends, whatever the
/// trailers say.
pub proof fn class_told_by_headers_stands(
    response: Response,
    status: StatusCode,
    headers: HeaderMap<HeaderValue>,
    trailers: Option<HeaderMap<HeaderValue>>,
)
    requires
        started(response, status, headers).1 is Some,
    ensures
        ended(started(response, status, headers).0, trailers) == started(
            response,
            status,
            headers,
        ).1->0,
{
}

/// Trailers bear on the class of gRPC responses only.
pub proof fn trailers_do_not_classify_http(
    classes: Arc<Vec<ResponseClass>>,
    status: StatusCode,
    headers: HeaderMap<HeaderValue>,
    a: Option<HeaderMap<HeaderValue>>,
    b: Option<HeaderMap<HeaderValue>>,
)
    ensures
        ended(started(Response::Http { classes }, status, headers).0, a) == ended(
            started(Response::Http { classes }, status, headers).0,
            b,
        ),
{
}

/// A status alone makes a response a failure exactly if it blames the server, that is, if its
/// number begins with a 5. All others are successes, those that blame the client among them. The
/// trailers have no say.
pub proof fn only_server_errors_fail(
    status: StatusCode,
    trailers: Option<&HeaderMap<HeaderValue>>,
    class: Class,
    is_server_error: bool,
)
    requires
        call_ensures(<HttpEos as ClassifyEos>::eos, (HttpEos::Pending(status), trailers), class),
        call_ensures(StatusCode::is_server_error, (&status,), is_server_error),
    ensures
        class matches Class::Http(result, s) && s == status && (result
            == SuccessOrFailure::Failure <==> is_server_error) && (result
            == SuccessOrFailure::Failure <==> status.number() / 100 == 5),
        status.number() / 100 != 5 ==> class == Class::Http(SuccessOrFailure::Success, status),
{
}

/// Where no class of the route matches, a response that begins and ends is a failure exactly if
/// its status blames the server: the outcome of two responses whose statuses begin with the same
/// digit is the same.
pub proof fn unmatched_responses_are_judged_by_first_digit<A, B>(
    classes: Arc<Vec<ResponseClass>>,
    a: message::Response<A>,
    b: message::Response<B>,
    begun_a: (Eos, Option<Class>),
    begun_b: (Eos, Option<Class>),
    trailers_a: Option<&HeaderMap<HeaderValue>>,
    trailers_b: Option<&HeaderMap<HeaderValue>>,
    x: Class,
    y: Class,
)
    requires
        forall|i: int|
            0 <= i < classes@.len() ==> !(#[trigger] classes@[i]).condition.holds(
                a.status.number(),
            ) && !classes@[i].condition.holds(b.status.number()),
        call_ensures(
            <Response as ClassifyResponse>::start::<A>,
            (Response::Http { classes }, &a),
            begun_a,
        ),
        call_ensures(
            <Response as ClassifyResponse>::start::<B>,
            (Response::Http { classes }, &b),
            begun_b,
        ),
        call_ensures(<Eos as ClassifyEos>::eos, (begun_a.0, trailers_a), x),
        call_ensures(<Eos as ClassifyEos>::eos, (begun_b.0, trailers_b), y),
        a.status.number() / 100 == b.status.number() / 100,
    ensures
        begun_a.1 is None,
        x == Class::Http(
            if a.status.number() / 100 == 5 {
                SuccessOrFailure::Failure
            } else {
                SuccessOrFailure::Success
            },
            a.status,
        ),
        y matches Class::Http(result, _) && x->Http_0 == result,
{
    lemma_no_match(classes@, a.status.number());
    lemma_no_match(classes@, b.status.number());
}

proof fn lemma_no_match(classes: Seq<ResponseClass>, status: u16)
    requires
        forall|i: int|
            0 <= i < classes.len() ==> !(#[trigger] classes[i]).condition.holds(status),
    ensures
        first_match(classes, status) is None,
    decreases classes.len(),
{
    if classes.len() > 0 {
        let rest = classes.drop_first();
        assert forall|i: int| 0 <= i < rest.len() implies !(
        #[trigger] rest[i]).condition.holds(status) by {
            assert(rest[i] == classes[i + 1]);
        }
        assert(!classes[0].condition.holds(status));
        lemma_no_match(rest, status);
    }
}

proof fn lemma_matched(classes: Seq<ResponseClass>, status: u16, i: int)
    requires
        0 <= i < classes.len(),
        classes[i].condition.holds(status),
        forall|j: int| 0 <= j < i ==> !(#[trigger] classes[j]).condition.holds(status),
    ensures
        first_match(classes, status) == Some(classes[i]),
    decreases classes.len(),
{
    if i > 0 {
        let rest = classes.drop_first();
        assert forall|j: int| 0 <= j < i - 1 implies !(
        #[trigger] rest[j]).condition.holds(status) by {
            assert(rest[j] == classes[j + 1]);
        }
        assert(!classes[0].condition.holds(status));
        assert(rest[i - 1] == classes[i]);
        lemma_matched(rest, status, i - 1);
    }
}

/// The first class of the route that a response is in decides: the response is a failure exactly
/// if that class says so, whatever its status and whatever later classes say.
pub proof fn first_matching_class_decides(
    status: StatusCode,
    classes: Vec<ResponseClass>,
    class: Option<Class>,
    i: int,
)
    requires
        call_ensures(Response::match_class, (&status, &classes), class),
        0 <= i < classes@.len(),
        classes@[i].condition.holds(status.number()),
        forall|j: int|
            0 <= j < i ==> !(#[trigger] classes@[j]).condition.holds(status.number()),
    ensures
        class matches Some(Class::Http(result, s)) && s == status && (result
            == SuccessOrFailure::Failure <==> classes@[i].is_failure),
{
    lemma_matched(classes@, status.number(), i);
}

/// The classes of a route have no say on a response that is in none of them.
pub proof fn unmatched_responses_are_left_open(
    status: StatusCode,
    classes: Vec<ResponseClass>,
    class: Option<Class>,
)
    requires
        call_ensures(Response::match_class, (&status, &classes), class),
        forall|j: int|
            0 <= j < classes@.len() ==> !(#[trigger] classes@[j]).condition.holds(status.number()),
    ensures
        class is None,
{
    lemma_no_match(classes@, status.number());
}

/// What the classes of the route decide stands until the end, whatever comes in trailers.
pub proof fn profile_decides_from_the_start<B>(
    classes: Arc<Vec<ResponseClass>>,
    rsp: message::Response<B>,
    begun: (Eos, Option<Class>),
    told: Option<Class>,
    trailers: Option<&HeaderMap<HeaderValue>>,
    class: Class,
)
    requires
        call_ensures(
            <Response as ClassifyResponse>::start::<B>,
            (Response::Http { classes }, &rsp),
            begun,
        ),
        call_ensures(Response::match_class, (&rsp.status, &*classes), told),
        call_ensures(<Eos as ClassifyEos>::eos, (begun.0, trailers), class),
    ensures
        begun.1 == told,
        told is Some ==> Some(class) == told,
{
}

/// A gRPC response is a success exactly if its status is zero, and headers or trailers tell a
/// class only if they hold a status.
pub proof fn only_status_zero_succeeds(headers: HeaderMap<HeaderValue>, class: Option<Class>)
    requires
        call_ensures(grpc_class, (&headers,), class),
    ensures
        !crate::message::headers::header_values(headers).contains_key("grpc-status"@) ==> class
            is None,
        class matches Some(c) ==> (c matches Class::Grpc(result, status) && (result
            == SuccessOrFailure::Success <==> status == 0)),
        class matches Some(c) ==> crate::text::spelled_u32(
            crate::message::headers::header_values(headers)["grpc-status"@][0],
        ) == Some(c->Grpc_1),
{
}

/// A gRPC response that ends without telling a status is a success, with status zero. If the
/// trailers tell one, that is its class, unless the headers had told one before.
pub proof fn trailers_classify_grpc<B>(
    rsp: message::Response<B>,
    begun: (Eos, Option<Class>),
    trailers: Option<&HeaderMap<HeaderValue>>,
    from_headers: Option<Class>,
    from_trailers: Option<Class>,
    class: Class,
)
    requires
        call_ensures(
            <Response as ClassifyResponse>::start::<B>,
            (Response::Grpc, &rsp),
            begun,
        ),
        call_ensures(<Eos as ClassifyEos>::eos, (begun.0, trailers), class),
        call_ensures(grpc_class, (&rsp.headers,), from_headers),
        trailers matches Some(t) ==> call_ensures(grpc_class, (t,), from_trailers),
        trailers is None ==> from_trailers is None,
    ensures
        begun.1 == from_headers,
        class == match (from_headers, from_trailers) {
            (Some(c), _) => c,
            (None, Some(c)) => c,
            (None, None) => Class::Grpc(SuccessOrFailure::Success, 0),
        },
{
}

/// A response whose stream breaks off is a failure, whatever was known of it before, and its
/// class tells the error.
pub proof fn broken_streams_fail(
    response: Response,
    eos: Eos,
    error: StreamError,
    a: Class,
    b: Class,
)
    requires
        call_ensures(<Response as ClassifyResponse>::error, (response, &error), a),
        call_ensures(<Eos as ClassifyEos>::error, (eos, &error), b),
    ensures
        a matches Class::Stream(SuccessOrFailure::Failure, message) && message@ == error.message@,
        b matches Class::Stream(SuccessOrFailure::Failure, message) && message@ == error.message@,
{
}

/// The response to a request is classified by its gRPC status exactly if the content type of the
/// request is readable and begins with `application/grpc+`. Otherwise it is classified by the
/// classes of the route.
pub proof fn grpc_is_told_by_content_type<B>(
    classify: Request,
    req: message::Request<B>,
    r: Response,
)
    requires
        call_ensures(<Request as Classify>::classify::<B>, (&classify, &req), r),
    ensures
        !crate::message::headers::header_values(req.headers).contains_key("content-type"@)
            ==> r is Http,
        r is Grpc <==> {
            let values = crate::message::headers::header_values(req.headers);
            &&& values.contains_key("content-type"@)
            &&& "application/grpc+"@.is_prefix_of(
                values["content-type"@][0].map_values(|b: u8| b as char),
            )
            &&& forall|i: int|
                0 <= i < values["content-type"@][0].len() ==> {
                    let b = #[trigger] values["content-type"@][0][i];
                    32 <= b <= 126 || b == 9
                }
        },
        r matches Response::Http { classes } ==> classes == classify.classes,
{
}

/// Headers or trailers whose first `grpc-status` is made of digits, after a plus sign at most, and
/// has 32 bits at most, tell a class with that status.
pub proof fn readable_statuses_are_told(
    headers: HeaderMap<HeaderValue>,
    digits: Seq<u8>,
    class: Option<Class>,
)
    requires
        call_ensures(grpc_class, (&headers,), class),
        crate::message::headers::header_values(headers).contains_key("grpc-status"@),
        ({
            let value = crate::message::headers::header_values(headers)["grpc-status"@][0];
            value == digits || value == seq![43u8] + digits
        }),
        digits.len() > 0,
        forall|i: int| 0 <= i < digits.len() ==> 48 <= #[trigger] digits[i] <= 57,
        crate::text::decimal_value(digits) <= u32::MAX,
    ensures
        class matches Some(Class::Grpc(_, status)) && status == crate::text::decimal_value(digits),
{
    let value = crate::message::headers::header_values(headers)["grpc-status"@][0];
    if value == digits {
        assert(48 <= digits[0] <= 57);
    } else {
        assert(value[0] == 43);
        assert(value.skip(1) =~= digits);
    }
    assert(crate::text::without_plus(value) == digits);
    assert forall|i: int| 0 <= i < value.len() implies crate::text::is_visible(
        #[trigger] value[i],
    ) by {
        if value == digits {
            assert(48 <= digits[i] <= 57);
        } else if i > 0 {
            assert(value[i] == digits[i - 1]);
        }
    }
}

/// By default, responses are classified by their status alone.
pub proof fn statuses_classify_by_default(r: Response)
    requires
        call_ensures(<Response as Default>::default, (), r),
    ensures
        r matches Response::Http { classes } && classes@.len() == 0,
{
}

/// A response begins to be classified without a class exactly if neither the classes of the route
/// nor, for gRPC, the headers tell one, and then waits for the end.
pub proof fn open_responses_wait_for_the_end<B>(
    response: Response,
    rsp: message::Response<B>,
    begun: (Eos, Option<Class>),
)
    requires
        call_ensures(<Response as ClassifyResponse>::start::<B>, (response, &rsp), begun),
    ensures
        begun.1 is None ==> begun.0 == (if response is Grpc {
            Eos::Grpc(GrpcEos::Open)
        } else {
            Eos::Http(HttpEos::Pending(rsp.status))
        }),
        begun.1 matches Some(class) ==> begun.0 == (if response is Grpc {
            Eos::Grpc(GrpcEos::NoBody(class))
        } else {
            Eos::Http(HttpEos::FromProfile(class))
        }),
{
}

} // verus!
