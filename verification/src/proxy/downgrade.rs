//! Gives HTTP/2 requests their original protocol back.
//!
//! A proxy that sends an HTTP/1 request to another one upgrades it to HTTP/2, and notes the
//! original protocol in a header. The proxy that receives it undoes this.
use crate::message::headers::{can_set_header, remove_header, set_header};
use crate::message::{Request, Response, Version};
use crate::proxy::h1;
use crate::text::{has_at, starts_with};
use vstd::prelude::*;

verus! {

/// The header that notes the original protocol of a message.
pub open spec fn orig_proto_header() -> Seq<char> {
    "l5d-orig-proto"@
}

/// The version that an original protocol begins with, if it is one of HTTP/1.
pub open spec fn orig_version(orig_proto: Seq<u8>) -> Option<Version> {
    if vstd::utf8::encode_utf8("HTTP/1.1"@).is_prefix_of(orig_proto) {
        Some(Version::Http11)
    } else if vstd::utf8::encode_utf8("HTTP/1.0"@).is_prefix_of(orig_proto) {
        Some(Version::Http10)
    } else {
        None
    }
}

/// Whether an original protocol says that the request target was in absolute form, as
/// `HTTP/1.1; absolute-form` does.
pub open spec fn says_absolute_form(orig_proto: Seq<u8>) -> bool {
    crate::text::holds_at(orig_proto, 10, vstd::utf8::encode_utf8("absolute-form"@))
}

fn was_absolute_form(val: &Vec<u8>) -> (r: bool)
    ensures
        r == says_absolute_form(val@),
{
    has_at(val, 10, "absolute-form".as_bytes())
}

/// The original protocol that is noted in a request, if it was upgraded.
pub open spec fn upgraded_from<B>(req: Request<B>) -> Option<Seq<u8>> {
    if req.version == Version::Http2 {
        crate::message::headers::first_value(req.headers, orig_proto_header())
    } else {
        None
    }
}

/// Whether `new` is the downgraded form of `req`: the note is gone, the version is the
/// original one, if it is known, and the target is in origin-form unless it was in absolute
/// form originally.
pub open spec fn is_downgraded<B>(req: Request<B>, new: Request<B>) -> bool {
    match upgraded_from(req) {
        None => {
            &&& new == (Request { headers: new.headers, ..req })
            &&& crate::message::headers::header_values(new.headers)
                == crate::message::headers::header_values(req.headers)
        },
        Some(orig_proto) => {
            &&& new == (Request {
                headers: new.headers,
                version: new.version,
                uri: new.uri,
                ..req
            })
            &&& crate::message::headers::header_values(new.headers)
                == crate::message::headers::header_values(req.headers).remove(orig_proto_header())
            &&& new.version == match orig_version(orig_proto) {
                Some(version) => version,
                None => req.version,
            }
            &&& new.uri == if says_absolute_form(orig_proto) {
                req.uri
            } else {
                req.uri.origin_form()
            }
        },
    }
}

/// Whether a response can note its protocol, if it has one to note.
pub open spec fn can_note_protocol<B>(res: Response<B>) -> bool {
    noted_protocol(res.version) is Some ==> crate::message::headers::takes_header(
        res.headers,
        orig_proto_header(),
    )
}

/// How the version of a response is noted, if it is one of HTTP/1.
pub open spec fn noted_protocol(version: Version) -> Option<Seq<char>> {
    match version {
        Version::Http11 => Some("HTTP/1.1"@),
        Version::Http10 => Some("HTTP/1.0"@),
        _ => None,
    }
}

/// Whether `new` is the upgraded form of `res`: its version is noted, and it has no
/// `transfer-encoding`, which is illegal in HTTP/2. A response that is not one of HTTP/1 is
/// left alone.
pub open spec fn is_upgraded<B>(res: Response<B>, new: Response<B>) -> bool {
    match noted_protocol(res.version) {
        None => new == res,
        Some(orig_proto) => {
            &&& new == (Response { headers: new.headers, version: Version::Http2, ..res })
            &&& crate::message::headers::header_values(new.headers)
                == crate::message::headers::header_values(res.headers).insert(
                orig_proto_header(),
                seq![vstd::utf8::encode_utf8(orig_proto)],
            ).remove("transfer-encoding"@)
        },
    }
}

/// Downgrades HTTP2 requests that were previously upgraded to their original
/// protocol.
#[derive(Debug)]
pub struct Downgrade<S> {
    pub inner: S,
}

impl<S> Downgrade<S> {
    /// Downgrades requests to `inner`.
    pub fn new(inner: S) -> (r: Self)
        ensures
            r == (Downgrade { inner }),
    {
        Downgrade { inner }
    }

    /// Prepares a request to be sent on, and says whether its response is to be upgraded.
    pub fn call<B>(&self, req: &mut Request<B>) -> (upgrade_response: bool)
        requires
            old(req).uri.wf(),
        ensures
            upgrade_response == upgraded_from(*old(req)) is Some,
            is_downgraded(*old(req), *final(req)),
            final(req).uri.wf(),
    {
        if req.version != Version::Http2 {
            return false;
        }
        proof {
            reveal_strlit("l5d-orig-proto");
        }
        let ghost headers = req.headers;
        let orig_proto: Vec<u8> = match remove_header(&mut req.headers, "l5d-orig-proto") {
            Some(value) => value,
            None => {
                assert(crate::message::headers::header_values(req.headers)
                    =~= crate::message::headers::header_values(headers));
                return false;
            },
        };
        if starts_with(&orig_proto, "HTTP/1.1".as_bytes()) {
            req.version = Version::Http11;
        } else if starts_with(&orig_proto, "HTTP/1.0".as_bytes()) {
            req.version = Version::Http10;
        }
        if !was_absolute_form(&orig_proto) {
            h1::set_origin_form(&mut req.uri);
        }
        true
    }

    /// Upgrades the response to a request that was downgraded.
    pub fn upgrade_response<B>(res: &mut Response<B>)
        requires
            can_note_protocol(*old(res)),
        ensures
            is_upgraded(*old(res), *final(res)),
    {
        proof {
            reveal_strlit("l5d-orig-proto");
            reveal_strlit("transfer-encoding");
            reveal_strlit("HTTP/1.1");
            reveal_strlit("HTTP/1.0");
            crate::message::headers::lemma_printable_value("HTTP/1.1"@);
            crate::message::headers::lemma_printable_value("HTTP/1.0"@);
        }
        let orig_proto: &'static str = match res.version {
            Version::Http11 => "HTTP/1.1",
            Version::Http10 => "HTTP/1.0",
            _ => {
                return ;
            },
        };
        set_header(&mut res.headers, "l5d-orig-proto", orig_proto);
        // transfer-encoding is illegal in HTTP2
        let _ = remove_header(&mut res.headers, "transfer-encoding");
        res.version = Version::Http2;
    }

    /// Upgrades a response if its header map has room for the note that it needs, and says
    /// whether it was done. A response without room stays as it is.
    pub fn try_upgrade_response<B>(res: &mut Response<B>) -> (done: bool)
        ensures
            done == can_note_protocol(*old(res)),
            done ==> is_upgraded(*old(res), *final(res)),
            !done ==> *final(res) == *old(res),
    {
        proof {
            reveal_strlit("l5d-orig-proto");
        }
        let is_http1: bool = match res.version {
            Version::Http11 => true,
            Version::Http10 => true,
            _ => false,
        };
        if !is_http1 || can_set_header(&res.headers, "l5d-orig-proto") {
            Self::upgrade_response(res);
            true
        } else {
            false
        }
    }
}

/// The note in an upgraded response tells the version that the response had.
pub proof fn note_tells_version<B>(res: Response<B>, new: Response<B>)
    requires
        res.version == Version::Http10 || res.version == Version::Http11,
        is_upgraded(res, new),
    ensures
        new.version == Version::Http2,
        crate::message::headers::first_value(new.headers, orig_proto_header()) matches Some(note)
            && orig_version(note) == Some(res.version),
{
    reveal_strlit("l5d-orig-proto");
    reveal_strlit("transfer-encoding");
    reveal_strlit("HTTP/1.1");
    reveal_strlit("HTTP/1.0");
    let h11 = vstd::utf8::encode_utf8("HTTP/1.1"@);
    let h10 = vstd::utf8::encode_utf8("HTTP/1.0"@);
    vstd::utf8::is_ascii_chars_encode_utf8("HTTP/1.1"@);
    vstd::utf8::is_ascii_chars_encode_utf8("HTTP/1.0"@);
    assert(h11 =~= h11.subrange(0, h11.len() as int));
    assert(h10 =~= h10.subrange(0, h10.len() as int));
    assert(h11[7] != h10[7]);
    assert(h11.subrange(0, 8)[7] == h11[7]);
    assert(h10.subrange(0, 8)[7] == h10[7]);
    assert("l5d-orig-proto"@[0] != "transfer-encoding"@[0]);
}

/// A request is downgraded at most once: what comes of it carries no note any more.
pub proof fn downgrading_removes_the_note<B>(req: Request<B>, new: Request<B>)
    requires
        is_downgraded(req, new),
    ensures
        upgraded_from(new) is None,
{
}

/// Whatever response of HTTP/1 is upgraded, it comes out as one of HTTP/2, without any
/// `transfer-encoding`, which is illegal there, and with its version in the `l5d-orig-proto`
/// header. Every other header, the status and the body are as they were.
pub proof fn upgraded_responses_fit_http2<B>(res: &mut Response<B>)
    requires
        call_ensures(Downgrade::<()>::upgrade_response::<B>, (res,), ()),
        old(res).version == Version::Http10 || old(res).version == Version::Http11,
    ensures
        final(res).version == Version::Http2,
        final(res).status == old(res).status,
        final(res).body == old(res).body,
        !crate::message::headers::header_values(final(res).headers).contains_key(
            "transfer-encoding"@,
        ),
        crate::message::headers::header_values(final(res).headers).contains_key(
            "l5d-orig-proto"@,
        ),
        crate::message::headers::header_values(final(res).headers)["l5d-orig-proto"@] == seq![
            vstd::utf8::encode_utf8(
                if old(res).version == Version::Http10 {
                    "HTTP/1.0"@
                } else {
                    "HTTP/1.1"@
                },
            ),
        ],
        forall|name: Seq<char>|
            name != "transfer-encoding"@ && name != "l5d-orig-proto"@ ==> (
            #[trigger] crate::message::headers::header_values(final(res).headers).contains_key(name)
                == crate::message::headers::header_values(old(res).headers).contains_key(name)
                && crate::message::headers::header_values(final(res).headers)[name]
                == crate::message::headers::header_values(old(res).headers)[name]),
{
    reveal_strlit("l5d-orig-proto");
    reveal_strlit("transfer-encoding");
    assert("l5d-orig-proto"@[0] != "transfer-encoding"@[0]);
}

/// A response that is not one of HTTP/1 is left as it is, header for header.
pub proof fn other_responses_are_not_upgraded<B>(res: &mut Response<B>)
    requires
        call_ensures(Downgrade::<()>::upgrade_response::<B>, (res,), ()),
        old(res).version == Version::Http09 || old(res).version == Version::Http2,
    ensures
        *final(res) == *old(res),
{
}

/// Trying to upgrade a response does what upgrading does, or leaves it as it is. It is not done
/// only for want of room in a full header map.
pub proof fn responses_are_upgraded_if_there_is_room<B>(res: &mut Response<B>, done: bool)
    requires
        call_ensures(Downgrade::<()>::try_upgrade_response::<B>, (res,), done),
    ensures
        !done ==> *final(res) == *old(res),
        !done ==> crate::message::headers::header_values(old(res).headers).dom().len() >= 32768,
        done && (old(res).version == Version::Http10 || old(res).version == Version::Http11)
            ==> final(res).version == Version::Http2
            && !crate::message::headers::header_values(final(res).headers).contains_key(
            "transfer-encoding"@,
        ),
        old(res).version == Version::Http2 || old(res).version == Version::Http09 ==> done
            && *final(res) == *old(res),
{
}

/// A request is downgraded, and its response is to be upgraded, exactly if it is one of HTTP/2
/// that notes an original protocol. The note is taken out, and every other header is as it was.
/// Any other request stays as it is.
pub proof fn noted_requests_are_downgraded<S, B>(
    service: Downgrade<S>,
    req: &mut Request<B>,
    upgrade_response: bool,
)
    requires
        call_ensures(Downgrade::<S>::call::<B>, (&service, req), upgrade_response),
    ensures
        upgrade_response <==> old(req).version == Version::Http2
            && crate::message::headers::header_values(old(req).headers).contains_key(
            "l5d-orig-proto"@,
        ),
        !upgrade_response ==> final(req).version == old(req).version && final(req).uri
            == old(req).uri && crate::message::headers::header_values(final(req).headers)
            == crate::message::headers::header_values(old(req).headers),
        upgrade_response ==> !crate::message::headers::header_values(
            final(req).headers,
        ).contains_key("l5d-orig-proto"@),
        forall|name: Seq<char>|
            name != "l5d-orig-proto"@ ==> (#[trigger] crate::message::headers::header_values(
                final(req).headers,
            ).contains_key(name) == crate::message::headers::header_values(
                old(req).headers,
            ).contains_key(name) && crate::message::headers::header_values(
                final(req).headers,
            )[name] == crate::message::headers::header_values(old(req).headers)[name]),
        final(req).method == old(req).method,
        final(req).body == old(req).body,
        final(req).extensions == old(req).extensions,
        final(req).uri.path_and_query == old(req).uri.path_and_query,
{
}

/// A request that is downgraded has the version that its note begins with, and keeps its own if
/// the note begins with neither version of HTTP/1. Its target loses scheme and authority unless
/// the note says that it was in absolute form, from the eleventh byte on.
pub proof fn notes_are_followed<S, B>(
    service: Downgrade<S>,
    req: &mut Request<B>,
    note: Seq<u8>,
)
    requires
        call_ensures(Downgrade::<S>::call::<B>, (&service, req), true),
        crate::message::headers::header_values(old(req).headers)["l5d-orig-proto"@][0] == note,
    ensures
        vstd::utf8::encode_utf8("HTTP/1.1"@).is_prefix_of(note) ==> final(req).version
            == Version::Http11,
        vstd::utf8::encode_utf8("HTTP/1.0"@).is_prefix_of(note) ==> final(req).version
            == Version::Http10,
        !vstd::utf8::encode_utf8("HTTP/1.1"@).is_prefix_of(note) && !vstd::utf8::encode_utf8(
            "HTTP/1.0"@,
        ).is_prefix_of(note) ==> final(req).version == Version::Http2,
        note.len() >= 23 && note.subrange(10, 23) == vstd::utf8::encode_utf8("absolute-form"@)
            ==> final(req).uri == old(req).uri,
        note.len() < 23 || note.subrange(10, 23) != vstd::utf8::encode_utf8("absolute-form"@)
            ==> final(req).uri.scheme is None && final(req).uri.authority is None,
{
    reveal_strlit("HTTP/1.1");
    reveal_strlit("HTTP/1.0");
    reveal_strlit("absolute-form");
    vstd::utf8::is_ascii_chars_encode_utf8("HTTP/1.1"@);
    vstd::utf8::is_ascii_chars_encode_utf8("HTTP/1.0"@);
    vstd::utf8::is_ascii_chars_encode_utf8("absolute-form"@);
    let h11 = vstd::utf8::encode_utf8("HTTP/1.1"@);
    let h10 = vstd::utf8::encode_utf8("HTTP/1.0"@);
    assert(h11[7] != h10[7]);
    if h11.is_prefix_of(note) && h10.is_prefix_of(note) {
        assert(note.subrange(0, 8)[7] == h11[7]);
    }
}

/// A response to a downgraded request goes out with a note by which the next proxy would know
/// the version again: upgrading and reading the note gives back the version.
pub proof fn upgrading_and_downgrading_agree<B, A>(
    res: &mut Response<B>,
    req: &mut Request<A>,
)
    requires
        call_ensures(Downgrade::<()>::upgrade_response::<B>, (res,), ()),
        old(res).version == Version::Http10 || old(res).version == Version::Http11,
        call_ensures(Downgrade::<()>::call::<A>, (&Downgrade { inner: () }, req), true),
        crate::message::headers::header_values(old(req).headers)["l5d-orig-proto"@]
            == crate::message::headers::header_values(final(res).headers)["l5d-orig-proto"@],
    ensures
        final(req).version == old(res).version,
{
    upgraded_responses_fit_http2(res);
    let note = crate::message::headers::header_values(old(req).headers)["l5d-orig-proto"@][0];
    notes_are_followed(Downgrade { inner: () }, req, note);
    let h11 = vstd::utf8::encode_utf8("HTTP/1.1"@);
    let h10 = vstd::utf8::encode_utf8("HTTP/1.0"@);
    assert(h11 =~= h11.subrange(0, h11.len() as int));
    assert(h10 =~= h10.subrange(0, h10.len() as int));
}

} // verus!
