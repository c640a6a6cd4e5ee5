//! The rules of HTTP/1 on request targets and upgrades.
use crate::addr::{parse_authority, Authority};
use crate::message::headers::get_header;
use crate::message::uri::Uri;
use crate::message::{Extensions, Request, Version};
use crate::text::{has_at, same_text, to_text};
use http::header::{HeaderMap, HeaderValue};
use vstd::prelude::*;
use vstd::string::StringExecFns;

verus! {

/// The authority in a `Host` header: the first value given for it, if that is an authority.
pub open spec fn host_authority(
    headers: http::header::HeaderMap<http::header::HeaderValue>,
) -> Option<Seq<char>> {
    match crate::message::headers::first_value(headers, "host"@) {
        Some(value) => match crate::text::visible_text(value) {
            Some(text) => if text.len() > 0 && crate::addr::parses_as_authority(text) {
                Some(text)
            } else {
                None
            },
            None => None,
        },
        None => None,
    }
}

/// The text of an optional authority.
pub open spec fn authority_view(authority: Option<Authority>) -> Option<Seq<char>> {
    match authority {
        Some(a) => Some(a.text@),
        None => None,
    }
}

fn authority_in_headers(headers: &HeaderMap<HeaderValue>) -> (r: Option<Authority>)
    ensures
        authority_view(r) == host_authority(*headers),
{
    proof {
        reveal_strlit("host");
    }
    match get_header(headers, "host") {
        Some(value) => match to_text(&value) {
            Some(text) => if value.len() == 0 {
                None
            } else {
                parse_authority(text)
            },
            None => None,
        },
        None => None,
    }
}

/// Returns an authority from a request's `Host` header.
pub fn authority_from_host<B>(req: &Request<B>) -> (r: Option<Authority>)
    ensures
        authority_view(r) == host_authority(req.headers),
{
    authority_in_headers(&req.headers)
}

/// The original destination of a request, unless it is this proxy itself.
pub open spec fn orig_dst(extensions: Extensions) -> Option<Seq<char>> {
    match extensions.source {
        Some(source) => match source.spec_orig_dst_if_not_local() {
            Some(addr) => Some(addr.text()),
            None => None,
        },
        None => None,
    }
}

/// The authority that a request is meant for: the one in its `Host` header and, as a last
/// resort, its original destination.
pub open spec fn intended_authority(
    headers: http::header::HeaderMap<http::header::HeaderValue>,
    extensions: Extensions,
) -> Option<Seq<char>> {
    match host_authority(headers) {
        Some(authority) => Some(authority),
        None => orig_dst(extensions),
    }
}

/// Whether the intended authority of a request, if it has one, can stand in a URI. An
/// authority that a `Host` header gives always can.
pub open spec fn can_be_normalized(
    headers: http::header::HeaderMap<http::header::HeaderValue>,
    extensions: Extensions,
) -> bool {
    host_authority(headers) is None ==> match orig_dst(extensions) {
        Some(addr) => crate::addr::parses_as_authority(addr),
        None => true,
    }
}

/// Whether `new` is `uri` with an authority put in. An origin-form target (path only) cannot
/// *only* be given an authority, as that would be an illegal target (such as
/// `example.com/docs`), so it gets a scheme as well. No scheme is put in an authority-form
/// target (`CONNECT`), since that would change its meaning.
pub open spec fn has_authority(uri: Uri, authority: Seq<char>, new: Uri) -> bool {
    &&& authority_view(new.authority) == Some(authority)
    &&& new.path_and_query == uri.path_and_query
    &&& crate::text::text_view(new.scheme) == if uri.path_and_query is Some {
        Some("http"@)
    } else {
        None
    }
}

/// Whether `new` is the normal form of `uri`, in a request that is meant for `authority`.
pub open spec fn is_normal_form(uri: Uri, authority: Option<Seq<char>>, new: Uri) -> bool {
    match authority {
        Some(a) => has_authority(uri, a, new),
        None => new == uri,
    }
}

/// Whether `new` is the normal form of `req`. Only the URI changes.
pub open spec fn is_normalized<B>(req: Request<B>, new: Request<B>) -> bool {
    &&& new == (Request { uri: new.uri, ..req })
    &&& is_normal_form(req.uri, intended_authority(req.headers, req.extensions), new.uri)
}

/// Puts an authority in a URI.
fn set_authority(uri: &mut Uri, authority: Authority)
    requires
        old(uri).wf(),
    ensures
        has_authority(*old(uri), authority.text@, *final(uri)),
        final(uri).wf(),
{
    uri.authority = Some(authority);
    if uri.path_and_query.is_some() {
        uri.scheme = Some(String::from_str("http"));
    }
}

fn orig_dst_text(extensions: &Extensions) -> (r: Option<String>)
    ensures
        crate::text::text_view(r) == orig_dst(*extensions),
{
    match &extensions.source {
        Some(source) => match source.orig_dst_if_not_local() {
            Some(addr) => Some(addr.to_text()),
            None => None,
        },
        None => None,
    }
}

/// Tries to make sure the URI of the request is in a form needed by an HTTP/1 client: one
/// with an authority.
pub fn normalize_our_view_of_uri<B>(req: &mut Request<B>)
    requires
        old(req).uri.wf(),
        old(req).uri.scheme is None,
        can_be_normalized(old(req).headers, old(req).extensions),
    ensures
        is_normalized(*old(req), *final(req)),
        final(req).uri.wf(),
{
    // try to parse the Host header
    if let Some(authority) = authority_in_headers(&req.headers) {
        set_authority(&mut req.uri, authority);
        return ;
    }
    // last resort is to use the so_original_dst
    if let Some(text) = orig_dst_text(&req.extensions) {
        if let Some(authority) = parse_authority(text) {
            set_authority(&mut req.uri, authority);
        }
    }
}

/// Normalizes a request if that is possible, and says whether it was. A request for which it
/// is not stays as it is.
pub fn try_normalize<B>(req: &mut Request<B>) -> (done: bool)
    requires
        old(req).uri.wf(),
        old(req).uri.scheme is None,
    ensures
        done == can_be_normalized(old(req).headers, old(req).extensions),
        done ==> is_normalized(*old(req), *final(req)),
        !done ==> *final(req) == *old(req),
        final(req).uri.wf(),
{
    if authority_in_headers(&req.headers).is_none() {
        if let Some(text) = orig_dst_text(&req.extensions) {
            if parse_authority(text).is_none() {
                return false;
            }
        }
    }
    normalize_our_view_of_uri(req);
    true
}

/// Converts any URI into its origin-form (relative path part only).
pub fn set_origin_form(uri: &mut Uri)
    ensures
        *final(uri) == old(uri).origin_form(),
        final(uri).wf(),
{
    uri.scheme = None;
    uri.authority = None;
}

impl Uri {
    /// The origin-form of a URI: only its path.
    pub open spec fn origin_form(self) -> Uri {
        Uri { scheme: None, authority: None, path_and_query: self.path_and_query }
    }
}

/// Whether a request wants to perform an HTTP upgrade.
///
/// Upgrades were added in HTTP/1.1. An upgrade to HTTP/2 is not one that the proxy lets by:
/// it would only see an opaque connection. `CONNECT` requests are just like upgrades.
pub open spec fn asks_for_upgrade<B>(req: Request<B>) -> bool {
    &&& req.version == Version::Http11
    &&& match crate::message::headers::first_value(req.headers, "upgrade"@) {
        Some(value) => value != vstd::utf8::encode_utf8("h2c"@),
        None => req.method.token@ == "CONNECT"@,
    }
}

/// Checks requests to determine if they want to perform an HTTP upgrade.
pub fn wants_upgrade<B>(req: &Request<B>) -> (r: bool)
    ensures
        r == asks_for_upgrade(*req),
{
    if req.version != Version::Http11 {
        return false;
    }
    proof {
        reveal_strlit("upgrade");
    }
    if let Some(value) = get_header(&req.headers, "upgrade") {
        let h2c: &[u8] = "h2c".as_bytes();
        let same: bool = value.len() == h2c.len() && has_at(&value, 0, h2c);
        assert(value@.subrange(0, value@.len() as int) =~= value@);
        return !same;
    }
    same_text(req.method.token.as_str(), "CONNECT")
}

/// Returns if the request target is in `absolute-form`.
///
/// This is `absolute-form`: `https://example.com/docs`
///
/// This is not:
///
/// - `/docs`
/// - `example.com`
pub fn is_absolute_form(uri: &Uri) -> (r: bool)
    requires
        uri.wf(),
    ensures
        r == uri.scheme is Some,
        r ==> uri.authority is Some && uri.path_and_query is Some,
{
    uri.scheme.is_some()
}

/// Returns if the request target is an authority alone, as in `example.com`.
pub fn is_origin_form(uri: &Uri) -> (r: bool)
    ensures
        r == (uri.scheme is None && uri.path_and_query is None),
{
    uri.scheme.is_none() && uri.path_and_query.is_none()
}

/// The origin-form is never absolute, and an origin-form target is its own origin-form.
pub proof fn origin_form_is_stable(uri: Uri)
    ensures
        uri.origin_form().wf(),
        uri.origin_form().scheme is None,
        uri.origin_form().origin_form() == uri.origin_form(),
{
}

/// Normalizing and going back to origin-form gives back an origin-form target.
pub proof fn origin_form_undoes_normalizing(uri: Uri, authority: Option<Seq<char>>, new: Uri)
    requires
        uri == uri.origin_form(),
        is_normal_form(uri, authority, new),
    ensures
        new.origin_form() == uri,
{
}

/// The normal form is found again from its own origin-form.
pub proof fn normalizing_is_stable(uri: Uri, authority: Seq<char>, new: Uri, again: Uri)
    requires
        has_authority(uri, authority, new),
        has_authority(new.origin_form(), authority, again),
    ensures
        authority_view(again.authority) == authority_view(new.authority),
        crate::text::text_view(again.scheme) == crate::text::text_view(new.scheme),
        again.path_and_query == new.path_and_query,
{
}

/// A request asks for an upgrade only in HTTP/1.1. There, one with an `upgrade` header does
/// unless the first value of that is `h2c`, and one without does exactly if it is a `CONNECT`.
pub proof fn upgrades_belong_to_http11<B>(req: Request<B>, r: bool)
    requires
        call_ensures(wants_upgrade::<B>, (&req,), r),
    ensures
        req.version != Version::Http11 ==> !r,
        ({
            let values = crate::message::headers::header_values(req.headers);
            &&& req.version == Version::Http11 && values.contains_key("upgrade"@) ==> (r
                <==> values["upgrade"@][0] != vstd::utf8::encode_utf8("h2c"@))
            &&& req.version == Version::Http11 && !values.contains_key("upgrade"@) ==> (r
                <==> req.method.token@ == seq!['C', 'O', 'N', 'N', 'E', 'C', 'T'])
        }),
{
    reveal_strlit("CONNECT");
    assert("CONNECT"@ =~= seq!['C', 'O', 'N', 'N', 'E', 'C', 'T']);
}

/// The authority of a `Host` header is its first value, taken as it is: one that is empty, that
/// is not readable text, or that is no authority is none. Other headers have no say.
pub proof fn host_header_is_taken_as_it_is<B>(req: Request<B>, r: Option<Authority>)
    requires
        call_ensures(authority_from_host::<B>, (&req,), r),
    ensures
        ({
            let values = crate::message::headers::header_values(req.headers);
            &&& !values.contains_key("host"@) ==> r is None
            &&& r matches Some(a) ==> a.text@.len() > 0 && a.text@ == values["host"@][0].map_values(
                |b: u8| b as char,
            ) && crate::addr::parses_as_authority(a.text@)
            &&& values.contains_key("host"@) && values["host"@][0].len() > 0 && (forall|i: int|
                0 <= i < values["host"@][0].len() ==> 32 <= #[trigger] values["host"@][0][i] <= 126)
                && crate::addr::parses_as_authority(
                values["host"@][0].map_values(|b: u8| b as char),
            ) ==> r is Some
        }),
{
}

/// Making a target origin-form takes out its scheme and its authority, and leaves its path.
pub proof fn origin_form_keeps_the_path(uri: &mut Uri)
    requires
        call_ensures(set_origin_form, (uri,), ()),
    ensures
        final(uri).scheme is None,
        final(uri).authority is None,
        final(uri).path_and_query == old(uri).path_and_query,
{
}

/// A target is in absolute form exactly if it names a scheme, and is an authority alone exactly
/// if it names neither a scheme nor a path. None is both.
pub proof fn forms_are_told_by_their_parts(uri: Uri, absolute: bool, alone: bool)
    requires
        call_ensures(is_absolute_form, (&uri,), absolute),
        call_ensures(is_origin_form, (&uri,), alone),
    ensures
        absolute <==> uri.scheme is Some,
        alone <==> uri.scheme is None && uri.path_and_query is None,
        !(absolute && alone),
{
}

/// The URI of a request is given the authority in the `Host` header, whatever authority it had
/// and wherever the request was headed. A path gets the scheme `http` with it, and an authority
/// alone gets none. Nothing else of the request changes.
pub proof fn host_header_goes_into_the_uri<B>(
    req: &mut Request<B>,
    done: bool,
    host: Option<Authority>,
)
    requires
        call_ensures(try_normalize::<B>, (req,), done),
        call_ensures(authority_from_host::<B>, (&*old(req),), host),
        host is Some,
    ensures
        done,
        final(req).uri.authority matches Some(a) && a.text@ == host->0.text@,
        final(req).uri.path_and_query == old(req).uri.path_and_query,
        old(req).uri.path_and_query is Some ==> (final(req).uri.scheme matches Some(scheme)
            && scheme@ == seq!['h', 't', 't', 'p']),
        old(req).uri.path_and_query is None ==> final(req).uri.scheme is None,
        final(req).headers == old(req).headers,
        final(req).method == old(req).method,
        final(req).version == old(req).version,
        final(req).extensions == old(req).extensions,
        final(req).body == old(req).body,
{
    reveal_strlit("http");
    assert("http"@ =~= seq!['h', 't', 't', 'p']);
}

/// Without an authority in the `Host` header, the URI of a request is given its original
/// destination, if that is known and is not this proxy itself. Otherwise it stays as it is.
pub proof fn original_destination_goes_into_the_uri<B>(
    req: &mut Request<B>,
    done: bool,
    host: Option<Authority>,
    dst: Option<crate::addr::SocketAddr>,
    text: String,
)
    requires
        call_ensures(try_normalize::<B>, (req,), done),
        call_ensures(authority_from_host::<B>, (&*old(req),), host),
        host is None,
        old(req).extensions.source matches Some(source) ==> call_ensures(
            crate::source::Source::orig_dst_if_not_local,
            (&source,),
            dst,
        ),
        old(req).extensions.source is None ==> dst is None,
        dst matches Some(addr) ==> call_ensures(
            crate::addr::SocketAddr::to_text,
            (&addr,),
            text,
        ),
    ensures
        dst is None ==> done && final(req).uri == old(req).uri,
        dst is Some ==> (done <==> crate::addr::parses_as_authority(text@)),
        dst is Some && done ==> (final(req).uri.authority matches Some(a) && a.text@ == text@),
        dst is Some && done ==> final(req).uri.path_and_query == old(req).uri.path_and_query,
        !done ==> *final(req) == *old(req),
        final(req).headers == old(req).headers,
{
}

/// Normalizing without trying does to a request what trying does.
pub proof fn normalizing_puts_an_authority_in<B>(
    req: &mut Request<B>,
    host: Option<Authority>,
)
    requires
        call_ensures(normalize_our_view_of_uri::<B>, (req,), ()),
        call_ensures(authority_from_host::<B>, (&*old(req),), host),
    ensures
        host matches Some(a) ==> (final(req).uri.authority matches Some(b) && b.text@ == a.text@),
        final(req).uri.path_and_query == old(req).uri.path_and_query,
        final(req).headers == old(req).headers,
        final(req).method == old(req).method,
        final(req).version == old(req).version,
{
}

} // verus!
