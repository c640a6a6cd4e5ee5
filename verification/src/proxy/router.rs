//! Routes requests to services.
use crate::message::headers::{no_headers, set_header};
use crate::message::{Response, StatusCode, Version};
use crate::poll::{Async, Poll};
use crate::stack;
use crate::time::Duration;
use vstd::prelude::*;

verus! {

/// Configures a router.
#[derive(Debug)]
pub struct Config<Rec> {
    /// Recognizes requests.
    pub recognize: Rec,
    /// How many services are kept at most.
    pub capacity: usize,
    /// How long a service is kept without being used.
    pub max_idle_age: Duration,
}

/// Makes stacks route requests to services.
#[derive(Clone, Copy, Debug)]
pub struct Layer;

/// A stack that builds routers.
#[derive(Debug)]
pub struct Make<Mk> {
    pub inner: Mk,
}

impl<Mk: Clone> Clone for Make<Mk> {
    fn clone(&self) -> (r: Self)
        ensures
            cloned(self.inner, r.inner),
    {
        Make { inner: self.inner.clone() }
    }
}

/// A router: how requests are recognized, and how services are built and kept.
#[derive(Debug)]
pub struct Service<Rec, Mk> {
    pub recognize: Rec,
    pub make: Mk,
    pub capacity: usize,
    pub max_idle_age: Duration,
}

impl<Rec: Clone, Mk: Clone> Clone for Service<Rec, Mk> {
    fn clone(&self) -> (r: Self)
        ensures
            cloned(self.recognize, r.recognize),
            cloned(self.make, r.make),
            r.capacity == self.capacity,
            r.max_idle_age == self.max_idle_age,
    {
        Service {
            recognize: self.recognize.clone(),
            make: self.make.clone(),
            capacity: self.capacity,
            max_idle_age: self.max_idle_age,
        }
    }
}

/// Why a request was not served.
#[derive(Debug)]
pub enum RouteError<E, F> {
    /// The service failed.
    Inner(E),
    /// No service could be built.
    Route(F),
    /// No more services can be kept than there are, by the capacity of the router.
    NoCapacity(usize),
    /// The request was not recognized.
    NotRecognized,
}

impl<Rec> Config<Rec> {
    /// Routes requests as `recognize` says.
    pub fn new(recognize: Rec, capacity: usize, max_idle_age: Duration) -> (c: Self)
        ensures
            c == (Config { recognize, capacity, max_idle_age }),
    {
        Config { recognize, capacity, max_idle_age }
    }
}

impl<Rec: Clone> Clone for Config<Rec> {
    fn clone(&self) -> (r: Self)
        ensures
            cloned(self.recognize, r.recognize),
            r.capacity == self.capacity,
            r.max_idle_age == self.max_idle_age,
    {
        Config::new(self.recognize.clone(), self.capacity, self.max_idle_age)
    }
}

impl Layer {
    /// Makes stacks route requests to services.
    pub fn new() -> (l: Self)
        ensures
            l == Layer,
    {
        Layer
    }
}

impl<Rec: Clone, U, Mk: stack::Stack<U> + Clone> stack::layer::Layer<
    Config<Rec>,
    U,
    Mk,
> for Layer {
    type Value = Service<Rec, Mk>;

    type Error = ();

    type Stack = Make<Mk>;

    open spec fn binds(&self, next: Mk, stack: Make<Mk>) -> bool {
        stack.inner == next
    }

    fn bind(&self, next: Mk) -> (stack: Make<Mk>) {
        Make { inner: next }
    }
}

impl<Rec: Clone, Mk: Clone> stack::Stack<Config<Rec>> for Make<Mk> {
    type Value = Service<Rec, Mk>;

    type Error = ();

    open spec fn accepts(&self, config: Config<Rec>) -> bool {
        true
    }

    open spec fn makes(&self, config: Config<Rec>, r: Result<Service<Rec, Mk>, ()>) -> bool {
        &&& r matches Ok(service)
        &&& cloned(config.recognize, service.recognize)
        &&& cloned(self.inner, service.make)
        &&& service.capacity == config.capacity
        &&& service.max_idle_age == config.max_idle_age
    }

    fn make(&self, config: &Config<Rec>) -> (r: Result<Service<Rec, Mk>, ()>) {
        Ok(
            Service {
                recognize: config.recognize.clone(),
                make: self.inner.clone(),
                capacity: config.capacity,
                max_idle_age: config.max_idle_age,
            },
        )
    }
}

/// The status of the response to a request that was not served. Only a lack of capacity is
/// something that the client may hope to pass.
pub open spec fn error_status<E, F>(e: RouteError<E, F>) -> u16 {
    if e is NoCapacity {
        503
    } else {
        500
    }
}

/// Picks the status of the response to a request that was not served.
pub fn route_err_to_5xx<E, F>(e: &RouteError<E, F>) -> (s: StatusCode)
    ensures
        s.number() == error_status(*e),
{
    match e {
        RouteError::Route(_) => StatusCode::internal_server_error(),
        RouteError::Inner(_) => StatusCode::internal_server_error(),
        RouteError::NotRecognized => StatusCode::internal_server_error(),
        RouteError::NoCapacity(_) => StatusCode::service_unavailable(),
    }
}

/// Catches errors from the inner service and maps them to 5xx responses with empty bodies.
pub fn respond<B: Default, E, F>(polled: Poll<Response<B>, RouteError<E, F>>) -> (r: Async<
    Response<B>,
>)
    requires
        call_requires(B::default, ()),
    ensures
        match polled {
            Ok(polled) => r == polled,
            Err(e) => {
                &&& r matches Async::Ready(response)
                &&& response.status.number() == error_status(e)
                &&& response.version == Version::Http11
                &&& crate::message::headers::header_values(response.headers) == map![
                    "content-length"@ => seq![vstd::utf8::encode_utf8("0"@)],
                ]
                &&& call_ensures(B::default, (), response.body)
            },
        },
{
    match polled {
        Ok(polled) => polled,
        Err(e) => {
            proof {
                reveal_strlit("content-length");
                reveal_strlit("0");
                crate::message::headers::lemma_printable_value("0"@);
            }
            let mut headers = no_headers();
            set_header(&mut headers, "content-length", "0");
            let response = Response {
                status: route_err_to_5xx(&e),
                version: Version::Http11,
                headers,
                body: B::default(),
            };
            Async::Ready(response)
        },
    }
}

/// A request that the router has no room for is answered with 503, and every other that is not
/// served with 500.
pub proof fn lack_of_room_is_told_apart<E, F>(e: RouteError<E, F>, s: StatusCode)
    requires
        call_ensures(route_err_to_5xx::<E, F>, (&e,), s),
    ensures
        e is NoCapacity ==> s.number() == 503,
        e is Inner || e is Route || e is NotRecognized ==> s.number() == 500,
{
}

/// What a service answers is handed on as it is. A failure is answered at once, with an error of
/// the server, no body and a `content-length` of zero, and no other header.
pub proof fn failures_are_answered<B: Default, E, F>(
    polled: Poll<Response<B>, RouteError<E, F>>,
    r: Async<Response<B>>,
)
    requires
        call_ensures(respond::<B, E, F>, (polled,), r),
    ensures
        polled matches Ok(p) ==> r == p,
        polled is Err ==> r is Ready,
        polled matches Err(e) ==> r matches Async::Ready(rsp) ==> {
            &&& rsp.status.number() / 100 == 5
            &&& rsp.status.number() == 503 <==> e is NoCapacity
            &&& rsp.status.number() == 500 <==> !(e is NoCapacity)
            &&& rsp.version == Version::Http11
            &&& crate::message::headers::header_values(rsp.headers).dom() =~= set![
                "content-length"@,
            ]
            &&& crate::message::headers::header_values(rsp.headers)["content-length"@] == seq![
                seq![48u8],
            ]
        },
{
    reveal_strlit("0");
    vstd::utf8::is_ascii_chars_encode_utf8("0"@);
    assert(vstd::utf8::encode_utf8("0"@) =~= seq![48u8]);
}

/// A router is configured as asked for: it keeps no more services than its capacity, and none
/// for longer than its age.
pub proof fn routers_are_configured_as_asked<Rec: Clone, Mk: Clone>(
    make: Make<Mk>,
    config: Config<Rec>,
    r: Result<Service<Rec, Mk>, ()>,
)
    requires
        call_ensures(<Make<Mk> as stack::Stack<Config<Rec>>>::make, (&make, &config), r),
    ensures
        r matches Ok(service) && service.capacity == config.capacity && service.max_idle_age
            == config.max_idle_age && cloned(config.recognize, service.recognize),
{
}

} // verus!
