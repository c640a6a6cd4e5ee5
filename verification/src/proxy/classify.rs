//! How responses are classified.
use crate::app;
use crate::message::{Extensions, Request, Response, StatusCode};
use crate::stack;
use http::header::{HeaderMap, HeaderValue};
use vstd::prelude::*;

verus! {

/// Determines how a request's response should be classified.
pub trait Classify {
    type Class;

    type Error;

    type ClassifyEos: ClassifyEos<Class = Self::Class, Error = Self::Error>;

    type ClassifyResponse: ClassifyResponse<
        Class = Self::Class,
        Error = Self::Error,
        ClassifyEos = Self::ClassifyEos,
    >;

    /// Whether `r` may classify the response to a request with the given headers.
    spec fn classifies(
        &self,
        headers: HeaderMap<HeaderValue>,
        r: Self::ClassifyResponse,
    ) -> bool;

    /// Chooses how the response to a request is going to be classified.
    fn classify<B>(&self, req: &Request<B>) -> (r: Self::ClassifyResponse)
        ensures
            self.classifies(req.headers, r),
    ;
}

/// Classifies a single response.
pub trait ClassifyResponse: Sized {
    /// A response classification.
    type Class;

    type Error;

    type ClassifyEos: ClassifyEos<Class = Self::Class, Error = Self::Error>;

    /// Whether the start of a response with the given status and headers may lead to `r`.
    spec fn starts(
        self,
        status: StatusCode,
        headers: HeaderMap<HeaderValue>,
        r: (Self::ClassifyEos, Option<Self::Class>),
    ) -> bool;

    /// Whether `class` may be the class of a response that fails with `error`.
    spec fn fails(self, error: Self::Error, class: Self::Class) -> bool;

    /// Updates the classifier with the response headers.
    ///
    /// If this is enough to classify the response, its class is returned. The stream may
    /// still end or fail later on.
    fn start<B>(self, rsp: &Response<B>) -> (r: (Self::ClassifyEos, Option<Self::Class>))
        ensures
            self.starts(rsp.status, rsp.headers, r),
    ;

    /// Updates the classifier with an underlying error.
    ///
    /// Because an error ends the stream, a class is returned.
    fn error(self, error: &Self::Error) -> (class: Self::Class)
        ensures
            self.fails(*error, class),
    ;
}

/// Classifies the end of a single response.
pub trait ClassifyEos: Sized {
    /// A response classification.
    type Class;

    type Error;

    /// Whether `class` may be the class of a response that ends with `trailers`.
    spec fn ends(self, trailers: Option<HeaderMap<HeaderValue>>, class: Self::Class) -> bool;

    /// Whether `class` may be the class of a response that fails with `error`.
    spec fn fails(self, error: Self::Error, class: Self::Class) -> bool;

    /// Updates the classifier with an end of stream.
    ///
    /// Because trailers end the stream, a class is returned.
    fn eos(self, trailers: Option<&HeaderMap<HeaderValue>>) -> (class: Self::Class)
        ensures
            self.ends(
                match trailers {
                    Some(t) => Some(*t),
                    None => None,
                },
                class,
            ),
    ;

    /// Updates the classifier with an underlying error.
    ///
    /// Because an error ends the stream, a class is returned.
    fn error(self, error: &Self::Error) -> (class: Self::Class)
        ensures
            self.fails(*error, class),
    ;
}

/// A class, or a classifier for the end of the stream.
#[derive(Debug)]
pub enum ClassOrEos<C, E> {
    Class(C),
    Eos(E),
}

/// Makes stacks note on each request how its response is going to be classified.
pub struct Mod<C> {
    pub classify: C,
}

/// A stack whose services note on each request how its response is going to be classified.
pub struct New<C, N> {
    pub classify: C,
    pub inner: N,
}

/// A service that notes on each request how its response is going to be classified.
pub struct ExtendRequest<C, S> {
    pub classify: C,
    pub inner: S,
}

impl<C: Clone> Mod<C> {
    /// Classifies responses with `c`.
    pub fn new(c: C) -> (m: Self)
        ensures
            m == (Mod { classify: c }),
    {
        Mod { classify: c }
    }
}

impl<T, C: Clone, N: stack::Stack<T>> stack::layer::Layer<T, T, N> for Mod<C> {
    type Value = ExtendRequest<C, N::Value>;

    type Error = N::Error;

    type Stack = New<C, N>;

    open spec fn binds(&self, next: N, stack: New<C, N>) -> bool {
        cloned(self.classify, stack.classify) && stack.inner == next
    }

    fn bind(&self, next: N) -> (stack: New<C, N>) {
        New { classify: self.classify.clone(), inner: next }
    }
}

impl<T, C: Clone, N: stack::Stack<T>> stack::Stack<T> for New<C, N> {
    type Value = ExtendRequest<C, N::Value>;

    type Error = N::Error;

    open spec fn accepts(&self, target: T) -> bool {
        self.inner.accepts(target)
    }

    open spec fn makes(&self, target: T, r: Result<ExtendRequest<C, N::Value>, N::Error>) -> bool {
        match r {
            Ok(service) => {
                &&& self.inner.makes(target, Ok(service.inner))
                &&& cloned(self.classify, service.classify)
            },
            Err(e) => self.inner.makes(target, Err(e)),
        }
    }

    fn make(&self, target: &T) -> (r: Result<ExtendRequest<C, N::Value>, N::Error>) {
        match self.inner.make(target) {
            Ok(inner) => Ok(ExtendRequest { classify: self.classify.clone(), inner }),
            Err(e) => Err(e),
        }
    }
}

impl<C: Classify<ClassifyResponse = app::classify::Response>, S> ExtendRequest<C, S> {
    /// Notes on a request how its response is going to be classified.
    pub fn call<B>(&self, req: &mut Request<B>)
        ensures
            final(req).extensions.classify matches Some(c) && self.classify.classifies(
                old(req).headers,
                c,
            ),
            *final(req) == (Request {
                extensions: Extensions {
                    classify: final(req).extensions.classify,
                    ..old(req).extensions
                },
                ..*old(req)
            }),
    {
        let classify_response = self.classify.classify(&*req);
        req.extensions.classify = Some(classify_response);
    }
}

/// A request is noted with how its response is going to be classified, by its own headers, and
/// changes in nothing else.
pub proof fn requests_are_noted_with_their_classifier<
    C: Classify<ClassifyResponse = app::classify::Response>,
    S,
    B,
>(service: ExtendRequest<C, S>, req: &mut Request<B>)
    requires
        call_ensures(ExtendRequest::<C, S>::call::<B>, (&service, req), ()),
    ensures
        final(req).extensions.classify matches Some(c) && service.classify.classifies(
            old(req).headers,
            c,
        ),
        final(req).extensions.source == old(req).extensions.source,
        final(req).extensions.first_request_started_at
            == old(req).extensions.first_request_started_at,
        final(req).method == old(req).method,
        final(req).uri == old(req).uri,
        final(req).version == old(req).version,
        final(req).headers == old(req).headers,
        final(req).body == old(req).body,
{
}

} // verus!
