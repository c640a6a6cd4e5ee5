//! Rewrites HTTP/1.x requests so that their URIs are in a canonical form.
use crate::message::headers::{can_set_header, fits_header, set_header};
use crate::message::{Request, Version};
use crate::proxy::h1;
use crate::stack;
use std::marker::PhantomData;
use vstd::prelude::*;

verus! {

/// Rewrites HTTP/1.x requests so that their URIs are in a canonical form.
///
/// The following transformations are applied:
/// - If an absolute-form URI is received, it must replace
///   the host header (in accordance with RFC7230#section-5.4)
/// - If the request URI is not in absolute form, it is rewritten to contain
///   the authority given in the `Host:` header, or, failing that, from the
///   request's original destination according to `SO_ORIGINAL_DST`.
#[derive(Debug)]
pub struct NormalizeUri<T> {
    pub inner: T,
    pub was_absolute_form: bool,
}

impl<T> NormalizeUri<T> {
    /// Normalizes requests to `inner`.
    pub fn new(inner: T, was_absolute_form: bool) -> (r: Self)
        ensures
            r == (NormalizeUri { inner, was_absolute_form }),
    {
        NormalizeUri { inner, was_absolute_form }
    }

    /// Wraps a service that the inner builder has built.
    pub fn new_service<S>(&self, inner: S) -> (r: NormalizeUri<S>)
        ensures
            r == (NormalizeUri { inner, was_absolute_form: self.was_absolute_form }),
    {
        if self.was_absolute_form {
            NormalizeUri::new(inner, true)
        } else {
            NormalizeUri::new(inner, false)
        }
    }

    /// Whether the URI of a request is rewritten. Those of HTTP/2 requests are not, nor those
    /// that were received in absolute form.
    pub open spec fn rewrites<B>(self, req: Request<B>) -> bool {
        req.version != Version::Http2 && !self.was_absolute_form
    }

    /// Whether the `Host` header of a request is replaced: it is in HTTP/1 requests whose URI
    /// was received in absolute form.
    pub open spec fn replaces_host<B>(self, req: Request<B>) -> bool {
        req.version != Version::Http2 && self.was_absolute_form && req.uri.authority is Some
    }

    /// Whether a request can be prepared to be sent on: whether the authority that it is meant
    /// for can stand in its URI or its `Host` header, whichever is to hold it.
    pub open spec fn can_prepare<B>(self, req: Request<B>) -> bool {
        &&& self.rewrites(req) ==> crate::proxy::h1::can_be_normalized(req.headers, req.extensions)
        &&& self.replaces_host(req) ==> can_hold_host(req)
    }

    /// Whether `new` is `req` prepared to be sent on.
    pub open spec fn is_prepared<B>(self, req: Request<B>, new: Request<B>) -> bool {
        if self.rewrites(req) {
            crate::proxy::h1::is_normalized(req, new)
        } else if self.replaces_host(req) {
            has_host_replaced(req, new)
        } else {
            new == req
        }
    }

    /// Prepares a request to be sent on, and says whether it was possible. If not, the request
    /// stays as it is.
    pub fn call<B>(&self, req: &mut Request<B>) -> (done: bool)
        requires
            old(req).uri.wf(),
            self.rewrites(*old(req)) ==> old(req).uri.scheme is None,
        ensures
            done == self.can_prepare(*old(req)),
            done ==> self.is_prepared(*old(req), *final(req)),
            !done ==> *final(req) == *old(req),
            final(req).uri.wf(),
    {
        if req.version == Version::Http2 {
            true
        } else if self.was_absolute_form {
            // Skip normalizing the URI if it was received in absolute form.
            replace_host(req)
        } else {
            h1::try_normalize(req)
        }
    }
}

/// Whether the authority in the URI of a request can stand in its `Host` header.
pub open spec fn can_hold_host<B>(req: Request<B>) -> bool {
    req.uri.authority matches Some(a) ==> crate::message::headers::is_header_value(a.text@)
        && crate::message::headers::takes_header(req.headers, "host"@)
}

/// Whether `new` is `req` with the authority in the URI as its `Host` header.
pub open spec fn has_host_replaced<B>(req: Request<B>, new: Request<B>) -> bool {
    &&& req.uri.authority matches Some(a)
    &&& new == (Request { headers: new.headers, ..req })
    &&& crate::message::headers::header_values(new.headers)
        == crate::message::headers::header_values(req.headers).insert(
        "host"@,
        seq![vstd::utf8::encode_utf8(a.text@)],
    )
}

/// Replaces the `Host` header with the authority in the URI, if there is one, and says whether
/// that was possible.
fn replace_host<B>(req: &mut Request<B>) -> (done: bool)
    ensures
        done == can_hold_host(*old(req)),
        done && old(req).uri.authority is Some ==> has_host_replaced(*old(req), *final(req)),
        !done || old(req).uri.authority is None ==> *final(req) == *old(req),
        final(req).uri == old(req).uri,
{
    proof {
        reveal_strlit("host");
    }
    let authority = match &req.uri.authority {
        Some(a) => a.clone(),
        None => {
            return true;
        },
    };
    if fits_header(authority.text.as_str()) && can_set_header(&req.headers, "host") {
        set_header(&mut req.headers, "host", authority.text.as_str());
        true
    } else {
        false
    }
}

/// Whether an authority is one that a header can carry: nothing but printable ASCII.
pub open spec fn is_plain_authority(text: Seq<char>) -> bool {
    &&& text.len() > 0
    &&& crate::addr::parses_as_authority(text)
    &&& forall|i: int| 0 <= i < text.len() ==> ' ' <= #[trigger] text[i] <= '~'
}

/// The `Host` header and the URI of an HTTP/1 request that is sent on name the same authority:
/// that of the URI if it was received in absolute form, and otherwise that of the header.
pub proof fn host_and_uri_agree<B, T>(service: NormalizeUri<T>, req: Request<B>, new: Request<B>)
    requires
        req.version != Version::Http2,
        service.is_prepared(req, new),
        if service.was_absolute_form {
            req.uri.authority matches Some(a) && is_plain_authority(a.text@)
        } else {
            crate::proxy::h1::host_authority(req.headers) is Some
        },
    ensures
        crate::proxy::h1::host_authority(new.headers) == crate::proxy::h1::authority_view(
            new.uri.authority,
        ),
        service.was_absolute_form ==> new.uri == req.uri,
        !service.was_absolute_form ==> new.headers == req.headers,
{
    if service.was_absolute_form {
        let text = req.uri.authority->0.text@;
        vstd::utf8::is_ascii_chars_encode_utf8(text);
        let bytes = vstd::utf8::encode_utf8(text);
        assert forall|i: int| 0 <= i < bytes.len() implies crate::text::is_visible(
            #[trigger] bytes[i],
        ) by {
            assert(' ' <= text[i] <= '~');
        }
        assert(crate::text::ascii_chars(bytes) =~= text);
        assert(crate::message::headers::first_value(new.headers, "host"@) == Some(bytes));
    }
}

/// Makes stacks build services that normalize every request.
pub struct Layer<T, M> {
    pub _p: PhantomData<(T, M)>,
}

impl<T, M> Clone for Layer<T, M> {
    fn clone(&self) -> (r: Self)
        ensures
            r == *self,
    {
        Layer { _p: PhantomData }
    }
}

/// A stack whose services normalize every request.
pub struct Make<T, N> {
    pub inner: N,
    pub _p: PhantomData<T>,
}

/// A service that normalizes every request.
#[derive(Debug)]
pub struct Service<S> {
    pub inner: S,
}

impl<T, M> Layer<T, M> {
    /// Makes stacks build services that normalize every request.
    pub fn new() -> (l: Self)
        ensures
            l == (Layer::<T, M> { _p: PhantomData }),
    {
        Layer { _p: PhantomData }
    }
}

impl<T, M: stack::Stack<T>> stack::layer::Layer<T, T, M> for Layer<T, M> {
    type Value = Service<M::Value>;

    type Error = M::Error;

    type Stack = Make<T, M>;

    open spec fn binds(&self, next: M, stack: Make<T, M>) -> bool {
        stack.inner == next
    }

    fn bind(&self, next: M) -> (stack: Make<T, M>) {
        Make { inner: next, _p: PhantomData }
    }
}

impl<T, M: stack::Stack<T>> stack::Stack<T> for Make<T, M> {
    type Value = Service<M::Value>;

    type Error = M::Error;

    open spec fn accepts(&self, target: T) -> bool {
        self.inner.accepts(target)
    }

    open spec fn makes(&self, target: T, r: Result<Service<M::Value>, M::Error>) -> bool {
        match r {
            Ok(service) => self.inner.makes(target, Ok(service.inner)),
            Err(e) => self.inner.makes(target, Err(e)),
        }
    }

    fn make(&self, target: &T) -> (r: Result<Service<M::Value>, M::Error>) {
        match self.inner.make(target) {
            Ok(inner) => Ok(Service { inner }),
            Err(e) => Err(e),
        }
    }
}

impl<S> Service<S> {
    /// Prepares a request to be sent on, and says whether it was possible.
    pub fn call<B>(&self, req: &mut Request<B>) -> (done: bool)
        requires
            old(req).uri.wf(),
            old(req).uri.scheme is None,
        ensures
            done == crate::proxy::h1::can_be_normalized(old(req).headers, old(req).extensions),
            done ==> crate::proxy::h1::is_normalized(*old(req), *final(req)),
            !done ==> *final(req) == *old(req),
            final(req).uri.wf(),
    {
        h1::try_normalize(req)
    }
}

/// A request whose URI was received in absolute form keeps it, and its `Host` header becomes the
/// authority in the URI, whatever the header was. Every other header is as it was.
pub proof fn absolute_form_replaces_the_host_header<T, B>(
    service: NormalizeUri<T>,
    req: &mut Request<B>,
    done: bool,
)
    requires
        call_ensures(NormalizeUri::<T>::call::<B>, (&service, req), done),
        service.was_absolute_form,
        old(req).version != Version::Http2,
        done,
    ensures
        final(req).uri == old(req).uri,
        old(req).uri.authority matches Some(a) ==> {
            let values = crate::message::headers::header_values(final(req).headers);
            values.contains_key("host"@) && values["host"@] == seq![
                vstd::utf8::encode_utf8(a.text@),
            ]
        },
        old(req).uri.authority is None ==> *final(req) == *old(req),
        forall|name: Seq<char>|
            name != "host"@ ==> (#[trigger] crate::message::headers::header_values(
                final(req).headers,
            ).contains_key(name) == crate::message::headers::header_values(
                old(req).headers,
            ).contains_key(name) && crate::message::headers::header_values(
                final(req).headers,
            )[name] == crate::message::headers::header_values(old(req).headers)[name]),
        final(req).method == old(req).method,
        final(req).version == old(req).version,
        final(req).extensions == old(req).extensions,
        final(req).body == old(req).body,
{
}

/// A request whose URI was not received in absolute form keeps its headers, and its URI is given
/// the authority in the `Host` header, if there is one there.
pub proof fn host_header_goes_into_other_uris<T, B>(
    service: NormalizeUri<T>,
    req: &mut Request<B>,
    done: bool,
    host: Option<crate::addr::Authority>,
)
    requires
        call_ensures(NormalizeUri::<T>::call::<B>, (&service, req), done),
        call_ensures(h1::authority_from_host::<B>, (&*old(req),), host),
        !service.was_absolute_form,
        old(req).version != Version::Http2,
    ensures
        final(req).headers == old(req).headers,
        final(req).uri.path_and_query == old(req).uri.path_and_query,
        host matches Some(a) ==> done && (final(req).uri.authority matches Some(b) && b.text@
            == a.text@),
        host is Some && old(req).uri.path_and_query is Some ==> (final(req).uri.scheme matches Some(
            scheme,
        ) && scheme@ == seq!['h', 't', 't', 'p']),
{
    reveal_strlit("http");
    assert("http"@ =~= seq!['h', 't', 't', 'p']);
}

/// Requests of HTTP/2 are sent on as they are, and so is a request that cannot be prepared.
pub proof fn http2_requests_are_not_rewritten<T, B>(
    service: NormalizeUri<T>,
    req: &mut Request<B>,
    done: bool,
)
    requires
        call_ensures(NormalizeUri::<T>::call::<B>, (&service, req), done),
    ensures
        old(req).version == Version::Http2 ==> done && *final(req) == *old(req),
        !done ==> *final(req) == *old(req),
{
}

/// Services that are built along with another know how URIs were received.
pub proof fn built_services_know_the_form<T, S>(
    service: NormalizeUri<T>,
    inner: S,
    r: NormalizeUri<S>,
)
    requires
        call_ensures(NormalizeUri::<T>::new_service::<S>, (&service, inner), r),
    ensures
        r.was_absolute_form == service.was_absolute_form,
        r.inner == inner,
{
}

/// A service that normalizes every request gives its URI the authority in the `Host` header.
pub proof fn every_request_is_given_its_host<S, B>(
    service: Service<S>,
    req: &mut Request<B>,
    done: bool,
    host: Option<crate::addr::Authority>,
)
    requires
        call_ensures(Service::<S>::call::<B>, (&service, req), done),
        call_ensures(h1::authority_from_host::<B>, (&*old(req),), host),
    ensures
        final(req).headers == old(req).headers,
        final(req).uri.path_and_query == old(req).uri.path_and_query,
        host matches Some(a) ==> done && (final(req).uri.authority matches Some(b) && b.text@
            == a.text@),
        !done ==> *final(req) == *old(req),
{
}

/// A request can always be prepared if it came over HTTP/2, if it names a host in its header, if
/// it names no host at all and its destination is not known, or if its URI was in absolute form
/// and the authority in it is printable, as long as there is room for a header.
pub proof fn ordinary_requests_can_be_prepared<T, B>(
    service: NormalizeUri<T>,
    req: &mut Request<B>,
    done: bool,
    host: Option<crate::addr::Authority>,
)
    requires
        call_ensures(NormalizeUri::<T>::call::<B>, (&service, req), done),
        call_ensures(h1::authority_from_host::<B>, (&*old(req),), host),
    ensures
        old(req).version == Version::Http2 ==> done,
        !service.was_absolute_form && host is Some ==> done,
        !service.was_absolute_form && old(req).extensions.source is None ==> done,
        !service.was_absolute_form && host is None && old(req).extensions.source is None
            ==> *final(req) == *old(req),
        service.was_absolute_form && old(req).uri.authority is None ==> done,
        service.was_absolute_form && old(req).uri.authority is Some && (forall|i: int|
            0 <= i < old(req).uri.authority->0.text@.len() ==> ' '
                <= #[trigger] old(req).uri.authority->0.text@[i] <= '~')
            && crate::message::headers::header_values(old(req).headers).dom().len() < 32768
            ==> done,
{
    if old(req).uri.authority is Some {
        let text = old(req).uri.authority->0.text@;
        if forall|i: int| 0 <= i < text.len() ==> ' ' <= #[trigger] text[i] <= '~' {
            crate::message::headers::lemma_printable_value(text);
        }
    }
}

} // verus!
