//! Looking up names in the DNS.
use crate::addr::IpAddr;
use crate::poll::{Async, Poll};
use crate::text::to_lower_byte;
use std::time::Instant;
use vstd::prelude::*;
use vstd::string::StringExecFns;

verus! {

/// Whether a byte string is a DNS name for which one could get a valid certificate.
pub uninterp spec fn is_dns_name(bytes: Seq<u8>) -> bool;

/// The text of a byte string in lower case.
pub open spec fn lower_case(bytes: Seq<u8>) -> Seq<char> {
    bytes.map_values(|b: u8| crate::text::lower_byte(b) as char)
}

/// Calls `webpki::DnsNameRef::try_from_ascii`, which accepts exactly the byte strings that are
/// valid DNS names.
#[verifier::external_body]
pub(crate) fn is_valid_name(bytes: &[u8]) -> (r: bool)
    ensures
        r == is_dns_name(bytes@),
{
    webpki::DnsNameRef::try_from_ascii(bytes).is_ok()
}

/// A valid DNS name.
///
/// It is strictly validated, based on the premise that we only need to support DNS names for
/// which one could get a valid certificate.
#[derive(Debug, PartialEq, Eq, Hash)]
pub struct Name {
    pub text: String,
}

/// A byte string is not a valid DNS name.
#[derive(Clone, Copy, Debug, PartialEq, Eq, Structural)]
pub struct InvalidName;

impl Name {
    /// Reads a DNS name.
    pub fn try_from(bytes: &[u8]) -> (r: Result<Name, InvalidName>)
        ensures
            r is Ok <==> is_dns_name(bytes@),
            r matches Ok(name) ==> name.text@ == lower_case(bytes@),
    {
        if !is_valid_name(bytes) {
            return Err(InvalidName);
        }
        let mut text = String::new();
        for i in 0..bytes.len()
            invariant
                text@ == lower_case(bytes@.take(i as int)),
        {
            text.push(to_lower_byte(bytes[i]) as char);
            assert(text@ =~= lower_case(bytes@.take(i + 1)));
        }
        assert(bytes@.take(bytes@.len() as int) =~= bytes@);
        Ok(Name { text })
    }
}

impl Clone for Name {
    fn clone(&self) -> (r: Self)
        ensures
            r == *self,
    {
        Name { text: self.text.clone() }
    }
}

/// The names that end in a given name.
#[derive(Debug, PartialEq, Eq, Hash)]
pub enum Suffix {
    Root,  // The `.` suffix.
    Name(Name),
}

impl Suffix {
    /// How the suffix is written.
    pub open spec fn text(self) -> Seq<char> {
        match self {
            Suffix::Root => "."@,
            Suffix::Name(name) => name.text@,
        }
    }

    /// Writes the suffix.
    pub fn to_text(&self) -> (s: String)
        ensures
            s@ == self.text(),
    {
        match self {
            Suffix::Root => String::from_str("."),
            Suffix::Name(name) => name.text.clone(),
        }
    }
}

impl From<Name> for Suffix {
    fn from(name: Name) -> (r: Self) {
        Suffix::Name(name)
    }
}

impl vstd::std_specs::convert::FromSpecImpl<Name> for Suffix {
    open spec fn obeys_from_spec() -> bool {
        true
    }

    open spec fn from_spec(name: Name) -> Self {
        Suffix::Name(name)
    }
}

/// Why a lookup failed.
#[derive(Debug)]
pub enum ResolveError<E> {
    /// There are no records. This may be known to hold for some time.
    NoRecordsFound { valid_until: Option<Instant> },
    /// Anything else.
    Other(E),
}

/// What a lookup says about a name.
#[derive(Debug)]
pub enum Response<L> {
    Exists(L),
    DoesNotExist { retry_after: Option<Instant> },
}

/// Reads the result of a lookup. That there are no records is no failure.
pub fn all_ips<L, E>(result: Result<L, ResolveError<E>>) -> (r: Result<Response<L>, ResolveError<E>>)
    ensures
        r == match result {
            Ok(lookup) => Ok::<_, ResolveError<E>>(Response::Exists(lookup)),
            Err(ResolveError::NoRecordsFound { valid_until }) => Ok(
                Response::DoesNotExist { retry_after: valid_until },
            ),
            Err(e) => Err(e),
        },
{
    match result {
        Ok(lookup) => Ok(Response::Exists(lookup)),
        Err(ResolveError::NoRecordsFound { valid_until }) => Ok(
            Response::DoesNotExist { retry_after: valid_until },
        ),
        Err(e) => Err(e),
    }
}

/// Why there is no address for a name.
#[derive(Debug)]
pub enum LookupError<E> {
    NoAddressesFound,
    ResolutionFailed(E),
}

/// Picks the first of the addresses that were looked up.
pub fn one_ip<E>(polled: Poll<Vec<IpAddr>, E>) -> (r: Poll<IpAddr, LookupError<E>>)
    ensures
        match polled {
            Ok(Async::NotReady) => r matches Ok(Async::NotReady),
            Ok(Async::Ready(ips)) => if ips@.len() > 0 {
                r matches Ok(Async::Ready(ip)) && ip == ips@[0]
            } else {
                r matches Err(LookupError::NoAddressesFound)
            },
            Err(e) => r matches Err(LookupError::ResolutionFailed(err)) && err == e,
        },
{
    match polled {
        Ok(Async::NotReady) => Ok(Async::NotReady),
        Ok(Async::Ready(ips)) => if ips.len() > 0 {
            Ok(Async::Ready(ips[0].clone()))
        } else {
            Err(LookupError::NoAddressesFound)
        },
        Err(e) => Err(LookupError::ResolutionFailed(e)),
    }
}

/// The canonical form of a name, and how long it is known to be valid.
#[derive(Debug)]
pub struct Refine {
    pub name: Name,
    pub valid_until: Instant,
}

impl Refine {
    /// Reads the answer to a lookup: the name that was found, as it is written in ASCII, and how
    /// long the answer is valid.
    pub fn from_lookup(name: &[u8], valid_until: Instant) -> (r: Result<Refine, InvalidName>)
        ensures
            r is Ok <==> is_dns_name(name@),
            r matches Ok(refine) ==> refine.name.text@ == lower_case(name@) && refine.valid_until
                == valid_until,
    {
        match Name::try_from(name) {
            Ok(name) => Ok(Refine { name, valid_until }),
            Err(e) => Err(e),
        }
    }
}

/// That there are no records is an answer, which stands as long as it says. Every other failure
/// remains one, and whatever is found is handed on.
pub proof fn no_records_are_an_answer<L, E>(
    result: Result<L, ResolveError<E>>,
    r: Result<Response<L>, ResolveError<E>>,
)
    requires
        call_ensures(all_ips::<L, E>, (result,), r),
    ensures
        r is Err <==> (result matches Err(ResolveError::Other(_))),
        result matches Ok(found) ==> r == Ok::<Response<L>, ResolveError<E>>(
            Response::Exists(found),
        ),
        result matches Err(ResolveError::NoRecordsFound { valid_until }) ==> (r matches Ok(
            Response::DoesNotExist { retry_after },
        ) && retry_after == valid_until),
{
}

/// Of several addresses the first is taken. That there is none is an error of its own.
pub proof fn the_first_address_is_taken<E>(
    polled: Poll<Vec<IpAddr>, E>,
    r: Poll<IpAddr, LookupError<E>>,
)
    requires
        call_ensures(one_ip::<E>, (polled,), r),
    ensures
        polled matches Ok(Async::NotReady) ==> (r matches Ok(Async::NotReady)),
        polled matches Ok(Async::Ready(ips)) ==> ips@.len() > 0 ==> (r matches Ok(
            Async::Ready(ip),
        ) && ip == ips@.first()),
        polled matches Ok(Async::Ready(ips)) ==> ips@.len() == 0 ==> (r matches Err(
            LookupError::NoAddressesFound,
        )),
        polled matches Err(e) ==> (r matches Err(LookupError::ResolutionFailed(f)) && e == f),
{
}

/// Names are kept in lower case, so that two that differ in the case of letters only are read as
/// the same. What is no name is refused.
pub proof fn names_are_kept_in_lower_case(bytes: &[u8], r: Result<Name, InvalidName>)
    requires
        call_ensures(Name::try_from, (bytes,), r),
    ensures
        r is Ok <==> is_dns_name(bytes@),
        r matches Ok(name) ==> name.text@.len() == bytes@.len(),
        r matches Ok(name) ==> forall|i: int|
            0 <= i < bytes@.len() ==> #[trigger] name.text@[i] == (if 65 <= bytes@[i] <= 90 {
                (bytes@[i] + 32) as u8
            } else {
                bytes@[i]
            }) as char,
{
}

/// An answer to a lookup is kept with the time up to which it is valid.
pub proof fn answers_keep_their_time(
    bytes: &[u8],
    valid_until: Instant,
    r: Result<Refine, InvalidName>,
    name: Result<Name, InvalidName>,
)
    requires
        call_ensures(Refine::from_lookup, (bytes, valid_until), r),
        call_ensures(Name::try_from, (bytes,), name),
    ensures
        match (r, name) {
            (Ok(refine), Ok(name)) => refine.valid_until == valid_until && refine.name.text@
                == name.text@,
            (Err(_), Err(_)) => true,
            _ => false,
        },
{
}

/// The suffix of all names is written as a dot, and any other as the name that it is.
pub proof fn suffixes_are_written(suffix: Suffix, s: String)
    requires
        call_ensures(Suffix::to_text, (&suffix,), s),
    ensures
        suffix is Root ==> s@ == seq!['.'],
        suffix matches Suffix::Name(name) ==> s@ == name.text@,
{
    reveal_strlit(".");
    assert("."@ =~= seq!['.']);
}

} // verus!
